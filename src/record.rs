//! The shared record and the discipline of its writes: each write replaces
//! the whole value at once, and every value a reader sees was written.
use vstd::prelude::*;

verus! {

/// The one domain entity: a name and an age.
pub struct Record {
    pub name: String,
    pub age: u8,
}

/// A record as a mathematical value.
pub struct RecordView {
    pub name: Seq<char>,
    pub age: u8,
}

impl View for Record {
    type V = RecordView;

    open spec fn view(&self) -> RecordView {
        RecordView { name: self.name@, age: self.age }
    }
}

impl Record {
    /// A copy of the record, field for field.
    pub fn snapshot(&self) -> (r: Record)
        ensures
            r@ == self@,
    {
        Record { name: self.name.clone(), age: self.age }
    }
}

/// The record together with the history of every value it has held, oldest
/// first. Writers hold it exclusively; a reader takes a whole snapshot.
pub struct SharedRecord {
    current: Record,
    written: Ghost<Seq<RecordView>>,
}

impl SharedRecord {
    /// The value the record holds now.
    pub closed spec fn value(&self) -> RecordView {
        self.current@
    }

    /// Every value the record has held, in the order written; the first is
    /// the initial one.
    pub closed spec fn history(&self) -> Seq<RecordView> {
        self.written@
    }

    pub closed spec fn wf(&self) -> bool {
        self.written@.len() > 0 && self.written@.last() == self.current@
    }

    pub fn new(initial: Record) -> (r: SharedRecord)
        ensures
            r.wf(),
            r.value() == initial@,
            r.history() == seq![initial@],
    {
        let ghost w: Seq<RecordView> = seq![initial@];
        SharedRecord { current: initial, written: Ghost(w) }
    }

    /// A snapshot of the whole record: it is the last value written, so
    /// never a mix of two writes.
    pub fn read(&self) -> (r: Record)
        requires
            self.wf(),
        ensures
            r@ == self.value(),
            r@ == self.history().last(),
            self.history().contains(r@),
    {
        let r = self.current.snapshot();
        assert(self.written@[self.written@.len() - 1] == r@);
        r
    }

    /// Sets the age and returns the record as written.
    pub fn set_age(&mut self, age: u8) -> (r: Record)
        requires
            old(self).wf(),
        ensures
            final(self).wf(),
            final(self).value() == (RecordView { age, ..old(self).value() }),
            final(self).history() == old(self).history().push(final(self).value()),
            r@ == final(self).value(),
    {
        self.current.age = age;
        self.written = Ghost(self.written@.push(self.current@));
        self.current.snapshot()
    }

    /// Sets the name and returns the record as written.
    pub fn set_name(&mut self, name: String) -> (r: Record)
        requires
            old(self).wf(),
        ensures
            final(self).wf(),
            final(self).value() == (RecordView { name: name@, ..old(self).value() }),
            final(self).history() == old(self).history().push(final(self).value()),
            r@ == final(self).value(),
    {
        self.current.name = name;
        self.written = Ghost(self.written@.push(self.current@));
        self.current.snapshot()
    }
}

} // verus!
