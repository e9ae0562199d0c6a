//! Names of the event streams the server reads from and writes to.
use vstd::prelude::*;

verus! {

pub const DEBUG_CONSOLE: &'static str = "debug:console";
pub const CHEESE_GIVE: &'static str = "sm-cheese:give";
pub const CHEESE_SPAWN: &'static str = "sm-cheese:spawn";
pub const CHEESE_REQUEST: &'static str = "sm-cheese:request";
pub const CHEESE_COLLECT: &'static str = "sm-cheese:collect";
pub const CHEESE_DESPAWN: &'static str = "sm-cheese:despawn";

pub const DEBUG_ERROR: &'static str = "debug:error";
pub const CHEESE_AWARD: &'static str = "sm-cheese:award";
pub const CHEESE_UPDATE: &'static str = "sm-cheese:update";
pub const CHEESE_QUEUE: &'static str = "sm-cheese:queue";

} // verus!
