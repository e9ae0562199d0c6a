//! Replies of the database, as values of the library.
use vstd::prelude::*;
use vstd::utf8::encode_utf8;
use crate::util::{all_digits, decimal_value};

verus! {

/// A database reply, variant for variant as the database client delivers it.
#[derive(Debug)]
pub enum Reply {
    Nil,
    Int(i64),
    Data(Vec<u8>),
    Bulk(Vec<Reply>),
    Status(String),
    Okay,
}

/// The database client's reply value; opaque here, and only handed to the
/// client's own conversions.
#[verifier::external_type_specification]
#[verifier::external_body]
pub struct ExRedisValue(redis::Value);

/// What std's `u64::from_str` makes of a text: an optional `+` followed by at
/// least one decimal digit, the number fitting in a `u64`.
pub open spec fn std_u64_text(s: Seq<u8>) -> Option<u64> {
    let digits = if s.len() > 0 && s[0] == 43 { s.drop_first() } else { s };
    if digits.len() > 0 && all_digits(digits) && decimal_value(digits) <= u64::MAX {
        Some(decimal_value(digits) as u64)
    } else {
        None
    }
}

/// What the database client reads as a `u64` from a reply.
pub open spec fn spec_reply_u64(reply: Reply) -> Option<u64> {
    match reply {
        Reply::Int(v) => Some(v as u64),
        Reply::Data(d) => std_u64_text(d@),
        Reply::Status(s) => std_u64_text(encode_utf8(s@)),
        _ => None,
    }
}

/// Rebuilds the client's value from a reply, variant for variant (the
/// client's `redis::Value` constructors). Nothing is stated of the result,
/// which is opaque here; `reply_u64` states what the client reads from it.
#[verifier::external_body]
fn to_redis_value(reply: &Reply) -> redis::Value {
    match reply {
        Reply::Nil => redis::Value::Nil,
        Reply::Int(v) => redis::Value::Int(*v),
        Reply::Data(d) => redis::Value::Data(d.clone()),
        Reply::Bulk(items) => redis::Value::Bulk(items.iter().map(to_redis_value).collect()),
        Reply::Status(s) => redis::Value::Status(s.clone()),
        Reply::Okay => redis::Value::Okay,
    }
}

/// Calls `redis::FromRedisValue::from_redis_value` for `u64` on the reply,
/// an error giving `None`. Trusted, as the client's source shows: an integer
/// is cast, a bulk string is read as UTF-8 text and a status as text, each by
/// std's `u64::from_str`, and every other reply is an error.
#[verifier::external_body]
pub(crate) fn reply_u64(reply: &Reply) -> (r: Option<u64>)
    ensures
        r == spec_reply_u64(*reply),
{
    <u64 as redis::FromRedisValue>::from_redis_value(&to_redis_value(reply)).ok()
}

} // verus!
