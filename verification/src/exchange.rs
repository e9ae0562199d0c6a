//! How the library's procedures and the application that performs their
//! I/O take turns: a procedure asks for an action, the application performs
//! it and hands back the input that it produced.
use vstd::prelude::*;
use vstd::string::*;
use crate::reply::Reply;

verus! {

/// What a procedure asks of the application.
#[derive(Debug)]
pub enum Action {
    /// Send the queued commands in one round trip; hand back
    /// `Input::Reply` with the reply, or `Err(())` when the connection is
    /// lost for good.
    Flush,
    /// Read each text as an `f32`; hand back `Input::Floats` with the bit
    /// pattern of each that reads (`None` for each that does not, or that
    /// is absent).
    ReadFloats(Vec<Option<Vec<u8>>>),
    /// Read `mult` as an `f32` and multiply the size by it; hand back
    /// `Input::Scaled` with the product cast to `i32`, or `None` when `mult`
    /// does not read.
    ScaleSize { size: i32, mult: Vec<u8> },
    /// Multiply the balance by the multiplier, both as `f64`; hand back
    /// `Input::Bonus` with the product cast to `i32`.
    SquirrelBonus { cheese: i64, mult_bits: u32 },
    /// Scale a cheese's size and multiplier by its radical factor; hand back
    /// `Input::Radical`.
    Radicalize { size: i32, mult_bits: u32 },
    /// Send the report, then stop the server.
    Abort(String),
    /// Stop the server with this message.
    Panic(String),
    /// The procedure is over.
    Finish(Result<(), ()>),
    /// The update is over; wait at most this many milliseconds for events.
    NextTimeout(u64),
}

/// What the application hands back.
#[derive(Debug)]
pub enum Input {
    Start,
    Reply(Result<Reply, ()>),
    Floats(Vec<Option<u32>>),
    Scaled(Option<i32>),
    Bonus(i32),
    Radical { size: i32, mult_bits: u32 },
}

/// One turn of a procedure: reports to print and send to the error stream,
/// lines to print, then the action.
#[derive(Debug)]
pub struct Step {
    pub reports: Vec<String>,
    pub prints: Vec<String>,
    pub action: Action,
}

/// Where a part of a procedure stands after a turn.
#[derive(Debug)]
pub enum Sub<S, T> {
    /// It waits for the input to this action.
    Wait(S, Action),
    Done(T),
    /// The connection is lost.
    Fatal,
    /// A reply is not shaped as expected: send the report and stop.
    Abort(String),
    /// Stop with this message.
    Panic(String),
}

/// The message of a fault that stops the server because a reply was not shaped as expected.
pub open spec fn mismatch_text() -> Seq<char> {
    "fatal error: redis response does not match expected specification"@
}

pub fn mismatch_spec() -> (r: String)
    ensures
        r@ == mismatch_text(),
{
    String::from_str("fatal error: redis response does not match expected specification")
}

/// The message of a fault where a signed number is read from empty text.
pub open spec fn empty_number_text() -> Seq<char> {
    "index out of bounds: the len is 0 but the index is 0"@
}

pub fn empty_number() -> (r: String)
    ensures
        r@ == empty_number_text(),
{
    String::from_str("index out of bounds: the len is 0 but the index is 0")
}

/// The message of a fault where an input does not answer the action asked for.
pub fn unexpected_input() -> (r: String)
    ensures
        r@ == "fatal error: input does not answer the action asked for"@,
{
    String::from_str("fatal error: input does not answer the action asked for")
}

} // verus!
