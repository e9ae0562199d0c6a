//! Field names and bounds of the events exchanged over the event streams.
use vstd::prelude::*;

verus! {

pub const MESSAGE: &'static str = "message";
pub const MOUSE_BODY: &'static str = "body";
pub const MOUSE_HAT: &'static str = "hat";
pub const USER_ID: &'static str = "user-id";
pub const ROOM_ID: &'static str = "room-id";
pub const USER_NAME: &'static str = "user-name";
pub const CHEESE_DELTA: &'static str = "cheese-delta";
pub const GEM_DELTA: &'static str = "gems-delta";
pub const CHEESE_COST: &'static str = "cheese-cost";
pub const GEM_COST: &'static str = "gem-cost";
pub const DEST_ID: &'static str = "dest-id";
pub const SRC_ID: &'static str = "src-id";
pub const CHEESE_ID: &'static str = "cheese-id";
pub const CHEESE_UUID: &'static str = "cheese-uuid";
pub const IMAGE: &'static str = "image";
pub const RADICAL_IMAGE: &'static str = "radical-image";
pub const TIME_MIN: &'static str = "time-min";
pub const TIME_MAX: &'static str = "time-max";
pub const EXCLUSIVE: &'static str = "exclusive";
pub const SIZE: &'static str = "size";
pub const ORIGINAL_SIZE: &'static str = "original-size";
pub const SQUIRREL_MULT: &'static str = "squirrel-mult";
pub const SILENT: &'static str = "silent";
pub const SIZE_MULT: &'static str = "size-mult";
pub const SIZE_INCR: &'static str = "size-add";
pub const GEMS: &'static str = "gems";

pub const CHEESE_STRAT_CANCEL: &'static str = "cancel";
pub const CHEESE_STRAT_OVERFLOW: &'static str = "overflow";
pub const CHEESE_STRAT_SATURATE: &'static str = "saturate";

pub const CHEESE_SIZE_MAX: i32 = 555_555_555;
/// Bound on the gems an award may give or cost: a value this library chose,
/// equal to `CHEESE_SIZE_MAX`, since nothing else fixes it.
pub const CHEESE_GEMS_MAX: i32 = 555_555_555;
/// Longest wait for new events, in milliseconds.
pub const TIMEOUT_MAX_MS: u64 = 500;

} // verus!
