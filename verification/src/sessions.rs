//! The devices the helper knows, by session id: which requests find their
//! device, and what happens when a device goes away.
use vstd::prelude::*;

use std::collections::HashMap;

use crate::device::unplug_notification;
use crate::numtext::spec_decimal;
use crate::protocol::{Errors, ResponseMessage, ResponseMessageView};

verus! {

broadcast use vstd::std_specs::hash::group_hash_axioms;

/// A request for session `sid` finds its device, or is answered with
/// `DeviceNotFound`.
pub fn check_session<D>(devices: &HashMap<u64, D>, sid: u64) -> (r: Result<(), Errors>)
    ensures
        devices@.contains_key(sid) ==> r == Ok::<(), Errors>(()),
        !devices@.contains_key(sid) ==> r == Err::<(), Errors>(Errors::DeviceNotFound),
{
    if devices.contains_key(&sid) {
        Ok(())
    } else {
        Err(Errors::DeviceNotFound)
    }
}

/// A device that went away: it is forgotten (and handed back, so that its
/// handles are released), and the extension is told with an unplug
/// notification, whether or not the session was known.
pub fn remove_session<D>(devices: &mut HashMap<u64, D>, sid: u64) -> (r: (Option<D>, ResponseMessage))
    ensures
        final(devices)@ == old(devices)@.remove(sid),
        old(devices)@.contains_key(sid) ==> r.0 == Some(old(devices)@[sid]),
        !old(devices)@.contains_key(sid) ==> r.0 is None,
        r.1@ == (ResponseMessageView::UnplugDevice { sid: spec_decimal(sid as nat) }),
{
    let dev = devices.remove(&sid);
    (dev, unplug_notification(sid))
}

} // verus!
