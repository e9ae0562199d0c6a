//! Database keys and hash fields.
use vstd::prelude::*;

verus! {

pub const LAST_ID: &'static str = "last_id";
pub const USERUUID_HM: &'static str = "user-uuid";
pub const MAXUUID: &'static str = "user-uuid-max";
pub const CHEESE_UID_MAX: &'static str = "cheese-uid-max";
pub const GLOBAL_CHEESE_RANKING: &'static str = "global-cheese-ranking";
pub const DAILY_RESET_TIMESTAMP_UNIX: &'static str = "daily-reset-unix";
pub const GLOBAL_GEMS_RANKING: &'static str = "global-gems-ranking";
pub const DAILY_CHEESE_RANKING: &'static str = "daily-cheese-ranking";

pub const PREFIX_CHEESE_DATA: &'static str = "cheese-temp:";
pub const PREFIX_USER: &'static str = "user:";
pub const PREFIX_CHEESE: &'static str = "cheese:";

pub const CHEESE_IMAGE: &'static str = "image";
pub const CHEESE_RADICAL: &'static str = "radical";
pub const CHEESE_TIME_MIN: &'static str = "time-min";
pub const CHEESE_TIME_MAX: &'static str = "time-max";
pub const CHEESE_SIZE: &'static str = "size";
pub const CHEESE_ORIGINAL_SIZE: &'static str = "original-size";
pub const CHEESE_SQUIRREL_MULT: &'static str = "squirrel-mult";
pub const CHEESE_SILENT: &'static str = "silent";
pub const CHEESE_EXCLUSIVE: &'static str = "exclusive";
pub const CHEESE_GEMS: &'static str = "gems";

pub const USER_SCREEN_NAME: &'static str = "screen-name";
pub const USER_BODY: &'static str = "body";
pub const USER_HAT: &'static str = "hat";
pub const USER_CHEESE: &'static str = "cheese";
pub const USER_GEMS: &'static str = "gems";

} // verus!
