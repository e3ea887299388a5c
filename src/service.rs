//! The requests the server answers, apart from transport: reading the
//! record, changing its age or name. A change returns the event that the
//! caller publishes once the record is released.
use vstd::prelude::*;
use crate::decimal::{is_number_upto, decimal_value, unsigned_digits, parse_decimal};
use crate::event::{ChangeEvent, json_string_text, record_text};
use crate::record::{RecordView, SharedRecord};

verus! {

/// The ways a request fails.
#[derive(Debug, Clone, Copy, PartialEq, Eq, Structural)]
pub enum ServiceError {
    /// The record is held by a writer; try again.
    Busy,
    /// A path parameter is malformed.
    ValidationError,
    /// The bus admits no more subscribers.
    CapacityExceeded,
    /// The record could not be written as JSON.
    Unserializable,
}

impl ServiceError {
    /// The HTTP status the failure is answered with.
    pub fn status(&self) -> (r: u16)
        ensures
            r == match *self {
                ServiceError::Busy => 503u16,
                ServiceError::ValidationError => 400u16,
                ServiceError::CapacityExceeded => 503u16,
                ServiceError::Unserializable => 500u16,
            },
    {
        match self {
            ServiceError::Busy => 503,
            ServiceError::ValidationError => 400,
            ServiceError::CapacityExceeded => 503,
            ServiceError::Unserializable => 500,
        }
    }
}

/// The record as a JSON object `{"name": .., "age": ..}`.
pub fn get_user(shared: &SharedRecord) -> (r: Result<String, ServiceError>)
    requires
        shared.wf(),
    ensures
        match json_string_text(shared.value().name) {
            Some(q) => r matches Ok(t) && t@ == record_text(q, shared.value().age),
            None => r == Err::<String, ServiceError>(ServiceError::Unserializable),
        },
{
    let rec = shared.read();
    match rec.to_json() {
        Some(t) => Ok(t),
        None => Err(ServiceError::Unserializable),
    }
}

/// Sets the age to the number in `raw`, a path segment. A segment that is
/// not a number from 0 to 255 is refused and the record left unchanged.
/// On success, returns the event to publish.
pub fn change_age(shared: &mut SharedRecord, raw: &str) -> (r: Result<ChangeEvent, ServiceError>)
    requires
        old(shared).wf(),
    ensures
        final(shared).wf(),
        if is_number_upto(raw@, 255) {
            let age = decimal_value(unsigned_digits(raw@)) as u8;
            &&& r == Ok::<ChangeEvent, ServiceError>(ChangeEvent::AgeChanged(age))
            &&& final(shared).value() == (RecordView { age, ..old(shared).value() })
            &&& final(shared).history() == old(shared).history().push(final(shared).value())
        } else {
            &&& r == Err::<ChangeEvent, ServiceError>(ServiceError::ValidationError)
            &&& final(shared).value() == old(shared).value()
            &&& final(shared).history() == old(shared).history()
        },
{
    match parse_decimal(raw, 255) {
        Some(v) => {
            let age = v as u8;
            shared.set_age(age);
            Ok(ChangeEvent::AgeChanged(age))
        },
        None => Err(ServiceError::ValidationError),
    }
}

/// Sets the name to `name`, the path segment as given, and returns the
/// event to publish.
pub fn change_name(shared: &mut SharedRecord, name: String) -> (r: ChangeEvent)
    requires
        old(shared).wf(),
    ensures
        final(shared).wf(),
        final(shared).value() == (RecordView { name: name@, ..old(shared).value() }),
        final(shared).history() == old(shared).history().push(final(shared).value()),
        r == ChangeEvent::NameChanged(name),
{
    let event_name = name.clone();
    shared.set_name(name);
    ChangeEvent::NameChanged(event_name)
}

} // verus!
