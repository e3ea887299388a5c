//! Change events and their JSON text on the wire.
use vstd::prelude::*;
use crate::decimal::{decimal_text, push_decimal_u8};
use crate::record::Record;

verus! {

/// Why the bus could not hand a subscriber the events as published.
#[derive(Debug, Clone, Copy, PartialEq, Eq, Structural)]
pub enum DeliveryFault {
    /// The subscriber fell behind and lost the oldest events of its queue.
    Lagged,
    /// An event could not be written as JSON.
    Unserializable,
}

/// One mutation of the record, or the bus's report that it could not
/// deliver some.
#[derive(Debug)]
pub enum ChangeEvent {
    NameChanged(String),
    AgeChanged(u8),
    DeliveryError(DeliveryFault),
}

impl ChangeEvent {
    /// A copy of the event.
    pub fn duplicate(&self) -> (r: ChangeEvent)
        ensures
            r == *self,
    {
        match self {
            ChangeEvent::NameChanged(n) => ChangeEvent::NameChanged(n.clone()),
            ChangeEvent::AgeChanged(a) => ChangeEvent::AgeChanged(*a),
            ChangeEvent::DeliveryError(f) => ChangeEvent::DeliveryError(*f),
        }
    }

    /// Whether this is a mutation of the record rather than a fault report.
    pub open spec fn is_domain(&self) -> bool {
        !(self is DeliveryError)
    }
}

/// serde_json::Error, the error of serde_json::to_string; carried opaque and
/// only told apart from success.
#[verifier::external_type_specification]
#[verifier::external_body]
pub struct ExJsonError(serde_json::Error);

/// What serde_json writes for a string: the quoted, escaped JSON string, or
/// `None` where it reports an error.
pub uninterp spec fn json_string_text(s: Seq<char>) -> Option<Seq<char>>;

/// Relies on serde_json::to_string on a `str`: the JSON string literal of the
/// text, which depends on the text alone.
#[verifier::external_body]
fn quote_json(s: &str) -> (r: Result<String, serde_json::Error>)
    ensures
        match r {
            Ok(t) => json_string_text(s@) == Some(t@),
            Err(_) => json_string_text(s@) is None,
        },
{
    serde_json::to_string(s)
}

pub open spec fn name_frame_text(quoted: Seq<char>) -> Seq<char> {
    "{\"kind\":\"name_changed\",\"value\":{\"name\":"@ + quoted + "}}"@
}

pub open spec fn age_frame_text(age: u8) -> Seq<char> {
    "{\"kind\":\"age_changed\",\"value\":{\"age\":"@ + decimal_text(age as nat) + "}}"@
}

pub open spec fn error_frame_text() -> Seq<char> {
    "{\"kind\":\"error\",\"value\":{}}"@
}

/// The JSON object a subscriber receives for an event. A name that cannot be
/// written as JSON degrades to the error object.
pub open spec fn event_text(e: ChangeEvent) -> Seq<char> {
    match e {
        ChangeEvent::NameChanged(n) => match json_string_text(n@) {
            Some(q) => name_frame_text(q),
            None => error_frame_text(),
        },
        ChangeEvent::AgeChanged(a) => age_frame_text(a),
        ChangeEvent::DeliveryError(_) => error_frame_text(),
    }
}

/// The JSON object of a record, fields in the order name, age.
pub open spec fn record_text(quoted_name: Seq<char>, age: u8) -> Seq<char> {
    "{\"name\":"@ + quoted_name + ",\"age\":"@ + decimal_text(age as nat) + "}"@
}

/// The frame for a name change, given the name already as a JSON string.
pub fn name_changed_frame(quoted: &str) -> (r: String)
    ensures
        r@ == name_frame_text(quoted@),
{
    let mut out = String::from_str("{\"kind\":\"name_changed\",\"value\":{\"name\":");
    out.append(quoted);
    out.append("}}");
    out
}

/// The frame for an age change.
pub fn age_changed_frame(age: u8) -> (r: String)
    ensures
        r@ == age_frame_text(age),
{
    let mut out = String::from_str("{\"kind\":\"age_changed\",\"value\":{\"age\":");
    push_decimal_u8(&mut out, age);
    out.append("}}");
    out
}

/// The frame that stands for an event the subscriber could not be given.
pub fn error_frame() -> (r: String)
    ensures
        r@ == error_frame_text(),
{
    String::from_str("{\"kind\":\"error\",\"value\":{}}")
}

impl ChangeEvent {
    /// The JSON object sent to subscribers for this event.
    pub fn to_json(&self) -> (r: String)
        ensures
            r@ == event_text(*self),
    {
        match self {
            ChangeEvent::NameChanged(n) => match quote_json(n.as_str()) {
                Ok(q) => name_changed_frame(q.as_str()),
                Err(_) => error_frame(),
            },
            ChangeEvent::AgeChanged(a) => age_changed_frame(*a),
            ChangeEvent::DeliveryError(_) => error_frame(),
        }
    }
}

/// The JSON object of a record, given its name already as a JSON string.
pub fn record_json_with(quoted_name: &str, age: u8) -> (r: String)
    ensures
        r@ == record_text(quoted_name@, age),
{
    let mut out = String::from_str("{\"name\":");
    out.append(quoted_name);
    out.append(",\"age\":");
    push_decimal_u8(&mut out, age);
    out.append("}");
    out
}

impl Record {
    /// The record as a flat JSON object, or `None` where its name cannot be
    /// written as JSON.
    pub fn to_json(&self) -> (r: Option<String>)
        ensures
            match json_string_text(self@.name) {
                Some(q) => r matches Some(t) && t@ == record_text(q, self.age),
                None => r is None,
            },
    {
        match quote_json(self.name.as_str()) {
            Ok(q) => Some(record_json_with(q.as_str(), self.age)),
            Err(_) => None,
        }
    }
}

} // verus!
