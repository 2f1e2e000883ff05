//! Reading delivered bus events. A delivery arrives as a structured
//! document: the first record's notification carries the task discriminant
//! as its subject string and the payload as its message. An event of any
//! other shape, or a subject that is not a small integer, is a hard error.

use crate::errors::{AppError, AppResult};
use crate::numtext::{parse_i32, parse_i32_spec};
use vstd::prelude::*;
use vstd::string::StringExecFns;

verus! {

/// A structured event document, as the bus hands it over.
pub enum JsonValue {
    Null,
    Bool(bool),
    Number(i64),
    Str(String),
    Array(Vec<JsonValue>),
    Object(Vec<(String, JsonValue)>),
}

/// The first value stored under `key`, if any.
pub open spec fn lookup(fields: Seq<(String, JsonValue)>, key: Seq<char>) -> Option<JsonValue>
    decreases fields.len(),
{
    if fields.len() == 0 {
        Option::None
    } else if fields[0].0@ == key {
        Option::Some(fields[0].1)
    } else {
        lookup(fields.drop_first(), key)
    }
}

/// The subject and message values of the event's first record, if the
/// event has the expected shape.
pub open spec fn sns_event_parts(event: JsonValue) -> Option<(JsonValue, JsonValue)> {
    match event {
        JsonValue::Object(fields) => match lookup(fields@, "Records"@) {
            Option::Some(JsonValue::Array(records)) => {
                if records@.len() > 0 {
                    match records@[0] {
                        JsonValue::Object(rec) => match lookup(rec@, "Sns"@) {
                            Option::Some(JsonValue::Object(sns)) => {
                                match (lookup(sns@, "Subject"@), lookup(sns@, "Message"@)) {
                                    (Option::Some(s), Option::Some(m)) => Option::Some((s, m)),
                                    _ => Option::None,
                                }
                            },
                            _ => Option::None,
                        },
                        _ => Option::None,
                    }
                } else {
                    Option::None
                }
            },
            _ => Option::None,
        },
        _ => Option::None,
    }
}

/// The discriminant and payload text the event carries, when everything
/// about it is well-formed.
pub open spec fn message_of_event(event: JsonValue) -> Option<(i32, Seq<char>)> {
    match sns_event_parts(event) {
        Option::Some((JsonValue::Str(s), JsonValue::Str(m))) => match parse_i32_spec(s@) {
            Option::Some(n) => Option::Some((n, m@)),
            Option::None => Option::None,
        },
        _ => Option::None,
    }
}

/// The command string of a batch invocation event, if the event carries
/// one.
pub open spec fn command_of_event(event: JsonValue) -> Option<Seq<char>> {
    match event {
        JsonValue::Object(fields) => match lookup(fields@, "command"@) {
            Option::Some(JsonValue::Str(c)) => Option::Some(c@),
            _ => Option::None,
        },
        _ => Option::None,
    }
}

/// Finds the first value stored under `key`.
fn obj_get<'a>(fields: &'a Vec<(String, JsonValue)>, key: &str) -> (r: Option<&'a JsonValue>)
    ensures
        match r {
            Option::Some(v) => lookup(fields@, key@) == Option::Some(*v),
            Option::None => lookup(fields@, key@) is None,
        },
{
    let keys = String::from_str(key);
    let mut i: usize = 0;
    proof {
        assert(fields@.subrange(0, fields@.len() as int) =~= fields@);
    }
    while i < fields.len()
        invariant
            i <= fields@.len(),
            keys@ == key@,
            lookup(fields@, key@) == lookup(fields@.subrange(i as int, fields@.len() as int), key@),
        decreases fields@.len() - i,
    {
        let ghost suffix = fields@.subrange(i as int, fields@.len() as int);
        if fields[i].0 == keys {
            return Option::Some(&fields[i].1);
        }
        proof {
            assert(suffix.drop_first() =~= fields@.subrange(i as int + 1, fields@.len() as int));
        }
        i = i + 1;
    }
    Option::None
}

/// Pulls the task discriminant and payload text out of a delivered bus
/// event; any malformation — a missing record, a non-string subject or
/// message, a subject that is not a small integer — is a hard error, never
/// a silently dropped task.
pub fn get_message_from_sns_event(event: &JsonValue) -> (r: AppResult<(i32, String)>)
    ensures
        r matches Ok(p) ==> message_of_event(*event) == Option::Some((p.0, p.1@)),
        r is Ok <==> message_of_event(*event) is Some,
        r matches Err(e) ==> e is BadRequest,
{
    let fields = match event {
        JsonValue::Object(fields) => fields,
        _ => {
            return Err(AppError::BadRequest(malformed_event_message()));
        },
    };
    let records = match obj_get(fields, "Records") {
        Option::Some(JsonValue::Array(records)) => records,
        _ => {
            return Err(AppError::BadRequest(malformed_event_message()));
        },
    };
    if records.len() == 0 {
        return Err(AppError::BadRequest(malformed_event_message()));
    }
    let rec = match &records[0] {
        JsonValue::Object(rec) => rec,
        _ => {
            return Err(AppError::BadRequest(malformed_event_message()));
        },
    };
    let sns = match obj_get(rec, "Sns") {
        Option::Some(JsonValue::Object(sns)) => sns,
        _ => {
            return Err(AppError::BadRequest(malformed_event_message()));
        },
    };
    let subject = match obj_get(sns, "Subject") {
        Option::Some(JsonValue::Str(subject)) => subject,
        Option::Some(_) => {
            return Err(AppError::BadRequest(malformed_event_message()));
        },
        Option::None => {
            return Err(AppError::BadRequest(malformed_event_message()));
        },
    };
    let message = match obj_get(sns, "Message") {
        Option::Some(JsonValue::Str(message)) => message,
        Option::Some(_) => {
            return Err(AppError::BadRequest(malformed_event_message()));
        },
        Option::None => {
            return Err(AppError::BadRequest(malformed_event_message()));
        },
    };
    let n = match parse_i32(subject) {
        Option::Some(n) => n,
        Option::None => {
            return Err(AppError::BadRequest(malformed_event_message()));
        },
    };
    Ok((n, message.clone()))
}

/// Pulls the command string out of a batch invocation event; an event
/// without one is a hard error.
pub fn get_command_from_batch_event(event: &JsonValue) -> (r: AppResult<String>)
    ensures
        r matches Ok(c) ==> command_of_event(*event) == Option::Some(c@),
        r is Ok <==> command_of_event(*event) is Some,
        r matches Err(e) ==> e is BadRequest,
{
    let fields = match event {
        JsonValue::Object(fields) => fields,
        _ => {
            return Err(AppError::BadRequest(malformed_event_message()));
        },
    };
    match obj_get(fields, "command") {
        Option::Some(JsonValue::Str(c)) => Ok(c.clone()),
        Option::Some(_) => Err(AppError::BadRequest(malformed_event_message())),
        Option::None => Err(AppError::BadRequest(malformed_event_message())),
    }
}

fn malformed_event_message() -> String {
    String::from_str("malformed bus event")
}

} // verus!
