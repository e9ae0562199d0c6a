//! Shared data types, constants and default records.
use vstd::prelude::*;
use vstd::string::*;
use crate::util::{str_to_vec, slice_to_vec};
use crate::pipe::Pipe;

verus! {

pub const ASCII_NEG: u8 = 45;
pub const ASCII_0: u8 = 48;
pub const ASCII_9: u8 = ASCII_0 + 9;
pub const ASCII_NEWLINE: u8 = 10;
pub const STR_NULL: &'static str = "null";

pub const SM_RESET_EPOCH_UNIX: i64 = 1640516400;
pub const SECS_IN_DAY_UNIX: i64 = 86400;

/// Lifetime of a stored cheese record, in milliseconds.
pub const CHEESE_TTL_MS: u64 = 18_000_000;
/// How long to wait between two attempts to connect to the database, in milliseconds.
pub const TIME_BETWEEN_RETRY_CON_MS: u64 = 5000;
/// How long to keep trying to connect to the database, in milliseconds.
pub const RETRY_CON_TIMEOUT_MS: u64 = 60000;
/// Lifetime of a stored cheese record, in seconds (the expiry given to the database).
pub const CHEESE_TTL_SECS: u64 = 18_000;

/// Which of a user's two balances an operation concerns.
#[derive(Copy, Clone, PartialEq, Eq, Structural, Debug)]
pub enum Currency {
    CHEESE,
    GEMS,
}

/// Failure of a database lookup.
#[derive(Copy, Clone, PartialEq, Eq, Structural, Debug)]
pub enum LayerError {
    /// The connection to the database is lost.
    Fatal,
    NotFound,
}

/// A user's profile and balances.
#[derive(Debug)]
pub struct UserData {
    pub screen_name: Vec<u8>,
    pub hat: Option<Vec<u8>>,
    pub body: Vec<u8>,
    pub cheese: i64,
    pub gems: i64,
}

/// A cheese as spawned into a room. The squirrel multiplier is an `f32`
/// carried by its bit pattern: this library never computes with it.
#[derive(Debug)]
pub struct CheeseData {
    pub image: Vec<u8>,
    pub radical_image: Option<Vec<u8>>,
    /// milliseconds
    pub time_min: u32,
    /// milliseconds
    pub time_max: u32,
    pub size: i32,
    pub original_size: i32,
    pub gems: i32,
    pub squirrel_mult_bits: u32,
    pub silent: bool,
    pub exclusive: bool,
}

pub struct UserView {
    pub screen_name: Seq<u8>,
    pub hat: Option<Seq<u8>>,
    pub body: Seq<u8>,
    pub cheese: i64,
    pub gems: i64,
}

pub open spec fn opt_bytes(o: Option<Vec<u8>>) -> Option<Seq<u8>> {
    match o {
        Some(v) => Some(v@),
        None => None,
    }
}

impl View for UserData {
    type V = UserView;

    open spec fn view(&self) -> UserView {
        UserView {
            screen_name: self.screen_name@,
            hat: opt_bytes(self.hat),
            body: self.body@,
            cheese: self.cheese,
            gems: self.gems,
        }
    }
}

pub struct CheeseView {
    pub image: Seq<u8>,
    pub radical_image: Option<Seq<u8>>,
    pub time_min: u32,
    pub time_max: u32,
    pub size: i32,
    pub original_size: i32,
    pub gems: i32,
    pub squirrel_mult_bits: u32,
    pub silent: bool,
    pub exclusive: bool,
}

impl View for CheeseData {
    type V = CheeseView;

    open spec fn view(&self) -> CheeseView {
        CheeseView {
            image: self.image@,
            radical_image: opt_bytes(self.radical_image),
            time_min: self.time_min,
            time_max: self.time_max,
            size: self.size,
            original_size: self.original_size,
            gems: self.gems,
            squirrel_mult_bits: self.squirrel_mult_bits,
            silent: self.silent,
            exclusive: self.exclusive,
        }
    }
}

/// What one poll of the control HTTP server asks of the main loop.
pub struct HTTPServerOutput {
    pub shutdown: bool,
}

/// Default values of a stored record; a value absent here defaults to 0 or none.
pub const DEFAULT_CHEESE_IMAGE: &'static str = "danipls";
pub const DEFAULT_CHEESE_RADICAL_IMAGE: &'static str = "danipls";
pub const DEFAULT_CHEESE_TIME_MIN: u32 = 240000;
pub const DEFAULT_CHEESE_TIME_MAX: u32 = 300000;
pub const DEFAULT_CHEESE_SIZE: i32 = 1;
pub const DEFAULT_LAST_ID: &'static str = "0-0";
pub const DEFAULT_SCREEN_NAME: &'static str = "I am Error";
pub const DEFAULT_MOUSE_BODY: &'static str = "danipls";

pub const STREAM_READ_COUNT: usize = 55;

pub const HTTP_REQUEST_SIZE_MAX: usize = 5555;
pub const HTTP_STATUS_OK: &'static str = "200 OK";
pub const HTTP_STATUS_NOT_FOUND: &'static str = "404 Not Found";
pub const HTTP_STATUS_METHOD_NOT_ALLOWED: &'static str = "405 Method Not Allowed";

/// The profile given to a user seen for the first time.
pub open spec fn default_user(screen_name: Seq<u8>) -> UserView {
    UserView {
        screen_name: screen_name,
        hat: None,
        body: DEFAULT_MOUSE_BODY.spec_bytes(),
        cheese: 0,
        gems: 0,
    }
}

pub fn generate_default_user(screen_name: &[u8]) -> (u: UserData)
    ensures
        u@ == default_user(screen_name@),
{
    UserData {
        screen_name: slice_to_vec(screen_name),
        hat: None,
        body: str_to_vec(DEFAULT_MOUSE_BODY),
        cheese: 0,
        gems: 0,
    }
}

/// The cheese spawned when no stored cheese is named. Its squirrel
/// multiplier is `0.0`, whose bit pattern is 0.
pub open spec fn default_cheese() -> CheeseView {
    CheeseView {
        image: DEFAULT_CHEESE_IMAGE.spec_bytes(),
        radical_image: Some(DEFAULT_CHEESE_RADICAL_IMAGE.spec_bytes()),
        time_min: DEFAULT_CHEESE_TIME_MIN,
        time_max: DEFAULT_CHEESE_TIME_MAX,
        size: DEFAULT_CHEESE_SIZE,
        original_size: DEFAULT_CHEESE_SIZE,
        gems: 0,
        squirrel_mult_bits: 0,
        silent: false,
        exclusive: false,
    }
}

pub fn generate_default_cheese() -> (c: CheeseData)
    ensures
        c@ == default_cheese(),
{
    CheeseData {
        image: str_to_vec(DEFAULT_CHEESE_IMAGE),
        radical_image: Some(str_to_vec(DEFAULT_CHEESE_RADICAL_IMAGE)),
        time_min: DEFAULT_CHEESE_TIME_MIN,
        time_max: DEFAULT_CHEESE_TIME_MAX,
        size: DEFAULT_CHEESE_SIZE,
        original_size: DEFAULT_CHEESE_SIZE,
        gems: 0,
        squirrel_mult_bits: 0,
        silent: false,
        exclusive: false,
    }
}

/// rand_pcg's generator, which draws the times of spawned cheeses; opaque here.
#[verifier::external_type_specification]
#[verifier::external_body]
pub struct ExPcg64(rand_pcg::Lcg128Xsl64);

/// The database's address, and the commands queued for its next round trip.
/// The connection itself belongs to the application, which makes the round
/// trips.
pub struct LayerData {
    pub redis_address: String,
    pub pipe: Pipe,
}

/// The server's state. The four cheese vectors run in parallel: entry `i`
/// is the cheese spawned in room `cheese_rooms[i]`, stored under number
/// `cheese_uids[i]`, spawned from the template whose id hashes to
/// `cheese_ids[i]` (0 for none), and turning once the server time
/// `cur_time_ms` reaches `cheese_timeouts[i]`. A spawn sets that field to the
/// drawn wait alone, not to the server time plus the wait, so a cheese
/// spawned once the server time has passed its wait turns at the next update.
pub struct SneakyMouseServer {
    pub db: LayerData,
    pub rng: rand_pcg::Lcg128Xsl64,
    /// Milliseconds since the server started.
    pub cur_time_ms: u64,
    pub last_reset_otherwise_server_genisis_unix: i64,
    pub cheese_timeouts: Vec<u64>,
    pub cheese_uids: Vec<u64>,
    pub cheese_rooms: Vec<Vec<u8>>,
    pub cheese_ids: Vec<u64>,
}

/// One spawned cheese, as the server keeps track of it.
pub struct CheeseEntry {
    pub timeout: u64,
    pub uid: u64,
    pub room: Seq<u8>,
    pub id: u64,
}

impl SneakyMouseServer {
    /// The cheese vectors run in parallel.
    pub open spec fn wf(&self) -> bool {
        &&& self.cheese_uids@.len() == self.cheese_timeouts@.len()
        &&& self.cheese_rooms@.len() == self.cheese_timeouts@.len()
        &&& self.cheese_ids@.len() == self.cheese_timeouts@.len()
    }

    /// The spawned cheeses, in order.
    pub open spec fn cheeses(&self) -> Seq<CheeseEntry> {
        Seq::new(
            self.cheese_timeouts@.len(),
            |i: int| CheeseEntry {
                timeout: self.cheese_timeouts@[i],
                uid: self.cheese_uids@[i],
                room: self.cheese_rooms@[i]@,
                id: self.cheese_ids@[i],
            },
        )
    }
}

} // verus!
