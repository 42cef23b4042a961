//! The decisions of the helper's event loop on Linux: what a readiness event
//! asks for, how session ids are handed out, and where a device that udev
//! announces is found.
use vstd::prelude::*;

use crate::udev::{UdevProperty, UdevPropertyView};

verus! {

/// The tag of stdin in the event loop.
pub const RUNLOOP_EPOLL_STDIN: u64 = 0xffff_ffff_ffff_ffff;

/// The tag of the udev socket in the event loop.
pub const RUNLOOP_EPOLL_UDEV: u64 = 0xffff_ffff_ffff_fffe;

/// What the event loop does about one readiness event.
#[derive(Clone, Copy, PartialEq, Eq, Structural, Debug)]
pub enum LoopAction {
    /// Read and handle one request from stdin.
    HandleStdin,
    /// Read every pending event from the udev socket.
    DrainUdev,
    /// The device with this session id is gone.
    Unplug(u64),
    /// Nothing to do.
    Nothing,
}

/// The action for an event with the given tag: stdin when readable, the udev
/// socket always, and any other tag (a device's session id) when hung up.
pub open spec fn spec_loop_action(tag: u64, readable: bool, hung_up: bool) -> LoopAction {
    if tag == RUNLOOP_EPOLL_STDIN {
        if readable {
            LoopAction::HandleStdin
        } else {
            LoopAction::Nothing
        }
    } else if tag == RUNLOOP_EPOLL_UDEV {
        LoopAction::DrainUdev
    } else if hung_up {
        LoopAction::Unplug(tag)
    } else {
        LoopAction::Nothing
    }
}

/// What to do about a readiness event.
pub fn classify_epoll_event(tag: u64, readable: bool, hung_up: bool) -> (r: LoopAction)
    ensures
        r == spec_loop_action(tag, readable, hung_up),
{
    if tag == RUNLOOP_EPOLL_STDIN {
        if readable {
            LoopAction::HandleStdin
        } else {
            LoopAction::Nothing
        }
    } else if tag == RUNLOOP_EPOLL_UDEV {
        LoopAction::DrainUdev
    } else if hung_up {
        LoopAction::Unplug(tag)
    } else {
        LoopAction::Nothing
    }
}

/// The source of session ids: Linux has nothing better to tell devices
/// apart, so they are numbered in the order they are found.
#[derive(Debug)]
pub struct SessionIds {
    pub next: u64,
}

impl SessionIds {
    /// Numbering starts at 0.
    pub fn new() -> (r: Self)
        ensures
            r.next == 0,
    {
        SessionIds { next: 0 }
    }

    /// A fresh session id.
    pub fn new_sid(&mut self) -> (r: u64)
        requires
            old(self).next < u64::MAX,
        ensures
            r == old(self).next,
            final(self).next == old(self).next + 1,
    {
        let sid = self.next;
        self.next = sid + 1;
        sid
    }
}

/// A session id handed out before the counter reaches the event loop's own
/// tags is never taken for one of them: a hang-up on it unplugs that device,
/// and nothing else happens for it.
pub proof fn session_ids_are_not_loop_tags(next: u64)
    requires
        next < RUNLOOP_EPOLL_UDEV,
    ensures
        spec_loop_action(next, true, true) == LoopAction::Unplug(next),
        spec_loop_action(next, true, false) == LoopAction::Nothing,
{
}

/// The value of the last entry with the given key: `None` when there is no
/// such entry, `Some(None)` when it has no value.
pub open spec fn spec_udev_lookup(props: Seq<UdevPropertyView>, key: Seq<u8>) -> Option<
    Option<Seq<u8>>,
>
    decreases props.len(),
{
    if props.len() == 0 {
        None
    } else if props.last().key == key {
        Some(props.last().val)
    } else {
        spec_udev_lookup(props.drop_last(), key)
    }
}

/// The value of the last entry with the given key.
pub fn udev_lookup<'a>(props: &Vec<UdevProperty<'a>>, key: &[u8]) -> (r: Option<Option<&'a [u8]>>)
    ensures
        match r {
            None => spec_udev_lookup(props@.map_values(|p: UdevProperty<'a>| p@), key@) is None,
            Some(None) => spec_udev_lookup(props@.map_values(|p: UdevProperty<'a>| p@), key@)
                == Some(None::<Seq<u8>>),
            Some(Some(v)) => spec_udev_lookup(props@.map_values(|p: UdevProperty<'a>| p@), key@)
                == Some(Some(v@)),
        },
{
    let ghost views = props@.map_values(|p: UdevProperty<'a>| p@);
    let mut i = props.len();
    assert(views.subrange(0, i as int) =~= views);
    while i > 0
        invariant
            i <= props@.len(),
            views == props@.map_values(|p: UdevProperty<'a>| p@),
            spec_udev_lookup(views, key@) == spec_udev_lookup(views.subrange(0, i as int), key@),
        decreases i,
    {
        let ghost pre = views.subrange(0, i as int);
        assert(pre.drop_last() =~= views.subrange(0, i as int - 1));
        assert(pre.last() == props@[i as int - 1]@);
        if bytes_eq(props[i - 1].key, key) {
            return Some(props[i - 1].val);
        }
        i = i - 1;
    }
    None
}

/// Whether two byte strings are equal.
pub fn bytes_eq(a: &[u8], b: &[u8]) -> (r: bool)
    ensures
        r == (a@ == b@),
{
    if a.len() != b.len() {
        return false;
    }
    let mut i: usize = 0;
    while i < a.len()
        invariant
            i <= a@.len(),
            a@.len() == b@.len(),
            forall|j: int| 0 <= j < i ==> a@[j] == b@[j],
        decreases a@.len() - i,
    {
        if a[i] != b[i] {
            return false;
        }
        i = i + 1;
    }
    assert(a@ =~= b@);
    true
}

/// `DEVNAME`
pub open spec fn spec_devname_key() -> Seq<u8> {
    seq![0x44u8, 0x45u8, 0x56u8, 0x4eu8, 0x41u8, 0x4du8, 0x45u8]
}

/// `DEVPATH`
pub open spec fn spec_devpath_key() -> Seq<u8> {
    seq![0x44u8, 0x45u8, 0x56u8, 0x50u8, 0x41u8, 0x54u8, 0x48u8]
}

/// `/sys/`
pub open spec fn spec_sys_prefix() -> Seq<u8> {
    seq![0x2fu8, 0x73u8, 0x79u8, 0x73u8, 0x2fu8]
}

/// The sysfs directory of a device from its `DEVPATH`: the path below
/// `/sys`, once a leading `/` is dropped; a path that still starts with `/`
/// stands for itself, as joining an absolute path does.
pub open spec fn spec_sysfs_dir(devpath: Seq<u8>) -> Seq<u8> {
    let rel = if devpath.len() > 0 && devpath[0] == 0x2f {
        devpath.drop_first()
    } else {
        devpath
    };
    if rel.len() > 0 && rel[0] == 0x2f {
        rel
    } else {
        spec_sys_prefix() + rel
    }
}

/// Where a device announced by udev is found: its device node (`DEVNAME`)
/// and its sysfs directory (from `DEVPATH`). `None` when either is missing
/// or has no value.
pub open spec fn spec_udev_plug_paths(props: Seq<UdevPropertyView>) -> Option<(Seq<u8>, Seq<u8>)> {
    match (spec_udev_lookup(props, spec_devname_key()), spec_udev_lookup(props, spec_devpath_key())) {
        (Some(Some(name)), Some(Some(path))) => Some((name, spec_sysfs_dir(path))),
        _ => None,
    }
}

/// Where a device announced by udev is found.
pub fn udev_plug_paths(props: &Vec<UdevProperty<'_>>) -> (r: Option<(Vec<u8>, Vec<u8>)>)
    ensures
        match r {
            Some((name, dir)) => spec_udev_plug_paths(props@.map_values(|p: UdevProperty<'_>| p@))
                == Some((name@, dir@)),
            None => spec_udev_plug_paths(props@.map_values(|p: UdevProperty<'_>| p@)) is None,
        },
{
    let devname_key: [u8; 7] = [0x44, 0x45, 0x56, 0x4e, 0x41, 0x4d, 0x45];
    let devpath_key: [u8; 7] = [0x44, 0x45, 0x56, 0x50, 0x41, 0x54, 0x48];
    assert(devname_key@ == spec_devname_key());
    assert(devpath_key@ == spec_devpath_key());
    let name = match udev_lookup(props, devname_key.as_slice()) {
        Some(Some(n)) => n,
        _ => return None,
    };
    let path = match udev_lookup(props, devpath_key.as_slice()) {
        Some(Some(p)) => p,
        _ => return None,
    };
    let rel = if path.len() > 0 && path[0] == 0x2f {
        vstd::slice::slice_subrange(path, 1, path.len())
    } else {
        path
    };
    assert(rel@ =~= (if path@.len() > 0 && path@[0] == 0x2f {
        path@.drop_first()
    } else {
        path@
    }));
    let mut dir: Vec<u8> = Vec::new();
    if !(rel.len() > 0 && rel[0] == 0x2f) {
        dir.push(0x2f);
        dir.push(0x73);
        dir.push(0x79);
        dir.push(0x73);
        dir.push(0x2f);
    }
    let ghost head = dir@;
    let mut i: usize = 0;
    while i < rel.len()
        invariant
            i <= rel@.len(),
            dir@ == head + rel@.subrange(0, i as int),
        decreases rel@.len() - i,
    {
        dir.push(rel[i]);
        i = i + 1;
        assert(dir@ =~= head + rel@.subrange(0, i as int));
    }
    assert(rel@.subrange(0, i as int) =~= rel@);
    assert(dir@ =~= spec_sysfs_dir(path@));
    Some((vstd::slice::slice_to_vec(name), dir))
}


/// Each readiness event is handled by what it comes from: stdin (the tag of
/// all ones) is read when readable and otherwise left alone, the udev socket
/// (the tag one below) is always drained, and any other tag is a device's
/// session id, which is unplugged, under that id, exactly when it hung up.
pub proof fn events_are_handled_by_their_source(tag: u64, readable: bool, hung_up: bool)
    ensures
        tag == 0xffff_ffff_ffff_ffff ==> spec_loop_action(tag, readable, hung_up) == if readable {
            LoopAction::HandleStdin
        } else {
            LoopAction::Nothing
        },
        tag == 0xffff_ffff_ffff_fffe ==> spec_loop_action(tag, readable, hung_up)
            == LoopAction::DrainUdev,
        tag < 0xffff_ffff_ffff_fffe ==> spec_loop_action(tag, readable, hung_up) == if hung_up {
            LoopAction::Unplug(tag)
        } else {
            LoopAction::Nothing
        },
{
}

} // verus!
