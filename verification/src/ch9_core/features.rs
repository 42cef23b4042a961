//! Features (for `SET_FEATURE`)
use vstd::prelude::*;

verus! {

pub const ENDPOINT_HALT: u8 = 0;
pub const DEVICE_REMOTE_WAKEUP: u8 = 1;
pub const TEST_MODE: u8 = 2;

} // verus!
