//! The Windows backend's record of devices: which device (by the instance id
//! of the whole device) owns which interface paths, and the session id each
//! device was given when it was first seen.
use vstd::prelude::*;

use std::collections::HashMap;

use crate::blocklists::{is_blocked_device, spec_is_blocked};
use crate::ch9_core::DeviceDescriptor;
use crate::assoc::{
    assoc_map, find_key, has_key, keys_distinct, lemma_assoc_index, lemma_assoc_push,
    lemma_assoc_remove,
};

verus! {

broadcast use vstd::std_specs::hash::group_hash_axioms;

/// What is known about one device.
#[derive(Debug)]
pub struct DeviceState {
    pub session_id: u64,
    /// Map from (primary) interface number (MI_xx) to device _path_
    pub interfaces: HashMap<u8, Vec<u16>>,
}

/// The contents of a [`DeviceState`].
pub struct DeviceStateView {
    pub session_id: u64,
    pub interfaces: Map<u8, Seq<u16>>,
}

/// The contents of a device's state.
pub open spec fn device_view(d: DeviceState) -> DeviceStateView {
    DeviceStateView {
        session_id: d.session_id,
        interfaces: d.interfaces@.map_values(|p: Vec<u16>| p@),
    }
}

/// Every device seen so far and the interface paths that belong to them.
/// Wide strings are kept without their terminating NUL.
#[derive(Debug)]
pub struct WinHotplugDatabase {
    pub next_session_id: u64,
    /// Map from device instance ID (of the "whole" device) to state
    pub devices: Vec<(Vec<u16>, DeviceState)>,
    /// Map from \\?\ paths to device instance IDs
    pub path_to_device_map: Vec<(Vec<u16>, Vec<u16>)>,
}

/// The contents of a [`WinHotplugDatabase`].
pub struct HotplugView {
    pub next_session_id: u64,
    pub devices: Map<Seq<u16>, DeviceStateView>,
    pub paths: Map<Seq<u16>, Seq<u16>>,
}

impl View for WinHotplugDatabase {
    type V = HotplugView;

    open spec fn view(&self) -> HotplugView {
        HotplugView {
            next_session_id: self.next_session_id,
            devices: assoc_map(self.devices@).map_values(|d: DeviceState| device_view(d)),
            paths: assoc_map(self.path_to_device_map@).map_values(|p: Vec<u16>| p@),
        }
    }
}

/// Every device's session id was handed out before the next one.
pub open spec fn sessions_below_next(db: HotplugView) -> bool {
    forall|k: Seq<u16>| #[trigger] db.devices.contains_key(k) ==> db.devices[k].session_id
        < db.next_session_id
}

/// Every device has at least one interface: a device is forgotten with its last one.
pub open spec fn devices_have_interfaces(db: HotplugView) -> bool {
    forall|k: Seq<u16>| #[trigger] db.devices.contains_key(k) ==> !db.devices[k].interfaces.is_empty()
}

/// Registering an interface path of a device: a device not seen before gets
/// the next session id and no interfaces; then the interface number is
/// mapped to the path, and the path to the device. Gives the device's session id.
pub open spec fn spec_register(db: HotplugView, dev: Seq<u16>, iface: u8, path: Seq<u16>) -> (
    HotplugView,
    u64,
) {
    let known = db.devices.contains_key(dev);
    let sid = if known {
        db.devices[dev].session_id
    } else {
        db.next_session_id
    };
    let ifs = if known {
        db.devices[dev].interfaces
    } else {
        Map::empty()
    };
    (
        HotplugView {
            next_session_id: if known {
                db.next_session_id
            } else {
                (db.next_session_id + 1) as u64
            },
            devices: db.devices.insert(
                dev,
                DeviceStateView { session_id: sid, interfaces: ifs.insert(iface, path) },
            ),
            paths: db.paths.insert(path, dev),
        },
        sid,
    )
}

/// `i` is the lowest interface number mapped to `path`.
pub open spec fn is_first_iface_with_path(ifs: Map<u8, Seq<u16>>, path: Seq<u16>, i: u8) -> bool {
    &&& ifs.contains_key(i)
    &&& ifs[i] == path
    &&& forall|j: u8| j < i ==> !(#[trigger] ifs.contains_key(j) && ifs[j] == path)
}

/// The lowest interface number mapped to `path`, if any.
pub open spec fn first_iface_with_path(ifs: Map<u8, Seq<u16>>, path: Seq<u16>) -> Option<u8> {
    if exists|i: u8| is_first_iface_with_path(ifs, path, i) {
        Some(choose|i: u8| is_first_iface_with_path(ifs, path, i))
    } else {
        None
    }
}

/// Removing an interface path: the path must be known, its device too, and
/// one of the device's interface numbers mapped to it (the lowest is taken).
/// That interface is forgotten, the device with it if it was its last, and
/// the path. Gives the device's session id and the interface number; an
/// unknown path, device or interface leaves everything as it was.
pub open spec fn spec_unregister(db: HotplugView, path: Seq<u16>) -> (HotplugView, Option<(u64, u8)>) {
    if !db.paths.contains_key(path) {
        (db, None)
    } else {
        let dev = db.paths[path];
        if !db.devices.contains_key(dev) {
            (db, None)
        } else {
            let st = db.devices[dev];
            match first_iface_with_path(st.interfaces, path) {
                None => (db, None),
                Some(i) => {
                    let ifs = st.interfaces.remove(i);
                    (
                        HotplugView {
                            next_session_id: db.next_session_id,
                            devices: if ifs.is_empty() {
                                db.devices.remove(dev)
                            } else {
                                db.devices.insert(
                                    dev,
                                    DeviceStateView { session_id: st.session_id, interfaces: ifs },
                                )
                            },
                            paths: db.paths.remove(path),
                        },
                        Some((st.session_id, i)),
                    )
                },
            }
        }
    }
}

/// A copy of a wide string.
fn copy_wide(v: &Vec<u16>) -> (r: Vec<u16>)
    ensures
        r@ == v@,
{
    vstd::slice::slice_to_vec(v.as_slice())
}

impl WinHotplugDatabase {
    /// The lists have distinct keys and every session id is below the next one.
    pub open spec fn wf(&self) -> bool {
        &&& keys_distinct(self.devices@)
        &&& keys_distinct(self.path_to_device_map@)
        &&& sessions_below_next(self@)
        &&& devices_have_interfaces(self@)
    }

    /// Nothing seen yet; numbering starts at 0.
    pub fn new() -> (r: Self)
        ensures
            r.wf(),
            r@.next_session_id == 0,
            r@.devices == Map::<Seq<u16>, DeviceStateView>::empty(),
            r@.paths == Map::<Seq<u16>, Seq<u16>>::empty(),
    {
        let r = WinHotplugDatabase {
            next_session_id: 0,
            devices: Vec::new(),
            path_to_device_map: Vec::new(),
        };
        assert(r@.devices =~= Map::<Seq<u16>, DeviceStateView>::empty());
        assert(r@.paths =~= Map::<Seq<u16>, Seq<u16>>::empty());
        r
    }

    /// Whether the device (by its whole-device instance id) was seen before.
    pub fn is_known_device(&self, dev: &[u16]) -> (r: bool)
        ensures
            r == self@.devices.contains_key(dev@),
    {
        find_key(&self.devices, dev).is_some()
    }

    /// Records an interface path of a device; says under which session id the
    /// device is known, and whether the path was already recorded.
    pub fn register_interface(&mut self, dev: Vec<u16>, iface: u8, path: Vec<u16>) -> (r: (
        u64,
        bool,
    ))
        requires
            old(self).wf(),
            !old(self)@.devices.contains_key(dev@) ==> old(self).next_session_id < u64::MAX,
        ensures
            final(self).wf(),
            final(self)@ == spec_register(old(self)@, dev@, iface, path@).0,
            r.0 == spec_register(old(self)@, dev@, iface, path@).1,
            r.1 == old(self)@.paths.contains_key(path@),
    {
        let ghost old_db = self@;
        let ghost old_devs = self.devices@;
        let ghost old_paths = self.path_to_device_map@;
        let ghost expected = spec_register(old_db, dev@, iface, path@).0;
        let sid;
        match find_key(&self.devices, dev.as_slice()) {
            Some(i) => {
                proof {
                    lemma_assoc_index(old_devs, i as int);
                }
                let (k, mut st) = self.devices.remove(i);
                let ghost old_st = st;
                let ghost rest = old_devs.remove(i as int);
                proof {
                    lemma_assoc_remove(old_devs, i as int);
                    assert(!has_key(rest, k@)) by {
                        if has_key(rest, k@) {
                            let j = choose|j: int| 0 <= j < rest.len() && (#[trigger] rest[j].0)@ == k@;
                            assert(assoc_map(rest).contains_key(k@));
                        }
                    }
                }
                st.interfaces.insert(iface, copy_wide(&path));
                sid = st.session_id;
                let ghost new_st = st;
                self.devices.push((k, st));
                proof {
                    lemma_assoc_push(rest, k, new_st);
                    assert(device_view(new_st).interfaces =~= device_view(old_st).interfaces.insert(
                        iface,
                        path@,
                    ));
                    assert(assoc_map(self.devices@) == assoc_map(old_devs).insert(dev@, new_st));
                }
            },
            None => {
                sid = self.next_session_id;
                self.next_session_id = self.next_session_id + 1;
                let mut ifs: HashMap<u8, Vec<u16>> = HashMap::new();
                ifs.insert(iface, copy_wide(&path));
                let st = DeviceState { session_id: sid, interfaces: ifs };
                proof {
                    lemma_assoc_push(old_devs, dev, st);
                    assert(device_view(st).interfaces =~= Map::<u8, Seq<u16>>::empty().insert(
                        iface,
                        path@,
                    ));
                }
                self.devices.push((copy_wide(&dev), st));
                proof {
                    assert(self.devices@ == old_devs.push((self.devices@.last().0, st)));
                    lemma_assoc_push(old_devs, self.devices@.last().0, st);
                }
            },
        }
        assert(self@.devices =~= expected.devices);
        let seen = match find_key(&self.path_to_device_map, path.as_slice()) {
            Some(j) => {
                proof {
                    lemma_assoc_remove(old_paths, j as int);
                }
                self.path_to_device_map.remove(j);
                true
            },
            None => false,
        };
        let ghost mid = self.path_to_device_map@;
        proof {
            assert(!has_key(mid, path@)) by {
                if has_key(mid, path@) {
                    let j = choose|j: int| 0 <= j < mid.len() && (#[trigger] mid[j].0)@ == path@;
                    lemma_assoc_index(mid, j);
                }
            }
            assert(seen == old_db.paths.contains_key(path@));
        }
        let ghost dev_view = dev@;
        self.path_to_device_map.push((path, dev));
        proof {
            let last = self.path_to_device_map@.last();
            assert(self.path_to_device_map@ == mid.push(last));
            lemma_assoc_push(mid, last.0, last.1);
            assert(self@.paths =~= expected.paths);
            assert forall|k: Seq<u16>| #[trigger] self@.devices.contains_key(k) implies self@.devices[k].session_id
                < self.next_session_id && !self@.devices[k].interfaces.is_empty() by {
                if k != dev_view {
                    assert(old_db.devices.contains_key(k));
                } else {
                    assert(self@.devices[k].interfaces.contains_key(iface));
                }
            }
        }
        (sid, seen)
    }
}

/// The lowest interface number of the device mapped to `path`, if any.
fn first_iface_with(st: &DeviceState, path: &[u16]) -> (r: Option<u8>)
    ensures
        r == first_iface_with_path(device_view(*st).interfaces, path@),
{
    let ghost ifs = device_view(*st).interfaces;
    let mut n: u16 = 0;
    while n < 256
        invariant
            n <= 256,
            ifs == device_view(*st).interfaces,
            forall|j: u8| j < n ==> !(#[trigger] ifs.contains_key(j) && ifs[j] == path@),
        decreases 256 - n,
    {
        let i = n as u8;
        match st.interfaces.get(&i) {
            Some(p) => {
                if crate::assoc::wide_eq(p.as_slice(), path) {
                    proof {
                        assert(is_first_iface_with_path(ifs, path@, i));
                        let c = choose|c: u8| is_first_iface_with_path(ifs, path@, c);
                        assert(is_first_iface_with_path(ifs, path@, c));
                        if c < i {
                            assert(!(ifs.contains_key(c) && ifs[c] == path@));
                        } else if c > i {
                            assert(!(ifs.contains_key(i) && ifs[i] == path@));
                        }
                    }
                    return Some(i);
                }
            },
            None => {},
        }
        n = n + 1;
    }
    proof {
        assert(!exists|c: u8| is_first_iface_with_path(ifs, path@, c)) by {
            if exists|c: u8| is_first_iface_with_path(ifs, path@, c) {
                let c = choose|c: u8| is_first_iface_with_path(ifs, path@, c);
                assert(!(ifs.contains_key(c) && ifs[c] == path@));
            }
        }
    }
    None
}

impl WinHotplugDatabase {
    /// Forgets an interface path that went away; says which session and
    /// interface number it was.
    pub fn unregister_interface(&mut self, path: &[u16]) -> (r: Option<(u64, u8)>)
        requires
            old(self).wf(),
        ensures
            final(self).wf(),
            final(self)@ == spec_unregister(old(self)@, path@).0,
            r == spec_unregister(old(self)@, path@).1,
    {
        let ghost old_db = self@;
        let ghost old_devs = self.devices@;
        let ghost old_paths = self.path_to_device_map@;
        let pj = match find_key(&self.path_to_device_map, path) {
            None => {
                proof {
                    assert(!old_db.paths.contains_key(path@));
                }
                return None;
            },
            Some(j) => j,
        };
        proof {
            lemma_assoc_index(old_paths, pj as int);
        }
        let dev = copy_wide(&self.path_to_device_map[pj].1);
        assert(dev@ == old_db.paths[path@]);
        let di = match find_key(&self.devices, dev.as_slice()) {
            None => {
                proof {
                    assert(!old_db.devices.contains_key(dev@));
                }
                return None;
            },
            Some(i) => i,
        };
        proof {
            lemma_assoc_index(old_devs, di as int);
        }
        assert(device_view(self.devices@[di as int].1) == old_db.devices[dev@]);
        let iface = match first_iface_with(&self.devices[di].1, path) {
            None => return None,
            Some(i) => i,
        };
        let (k, mut st) = self.devices.remove(di);
        let ghost rest = old_devs.remove(di as int);
        proof {
            lemma_assoc_remove(old_devs, di as int);
        }
        let ghost old_st = st;
        st.interfaces.remove(&iface);
        let sid = st.session_id;
        let ghost ifs = old_db.devices[dev@].interfaces.remove(iface);
        assert(device_view(st).interfaces =~= ifs);
        if !st.interfaces.is_empty() {
            let ghost new_st = st;
            self.devices.push((k, st));
            proof {
                assert(!has_key(rest, k@)) by {
                    if has_key(rest, k@) {
                        let j = choose|j: int| 0 <= j < rest.len() && (#[trigger] rest[j].0)@ == k@;
                        lemma_assoc_index(rest, j);
                    }
                }
                lemma_assoc_push(rest, k, new_st);
                assert(!ifs.is_empty()) by {
                    assert(ifs.dom() =~= new_st.interfaces@.dom());
                }
            }
        } else {
            proof {
                assert(ifs.is_empty()) by {
                    assert(ifs.dom() =~= st.interfaces@.dom());
                }
            }
        }
        self.path_to_device_map.remove(pj);
        proof {
            lemma_assoc_remove(old_paths, pj as int);
            let expected = spec_unregister(old_db, path@).0;
            assert(self@.paths =~= expected.paths);
            assert(self@.devices =~= expected.devices);
            assert forall|key: Seq<u16>| #[trigger] self@.devices.contains_key(key) implies self@.devices[key].session_id
                < self.next_session_id && !self@.devices[key].interfaces.is_empty() by {
                assert(old_db.devices.contains_key(key));
            }
        }
        Some((sid, iface))
    }
}

/// What becomes of an interface that was found: the session id of its
/// device, whether the device was seen for the first time (so that its
/// descriptors go along with the notification), and whether the path had
/// already been recorded.
#[derive(Clone, Copy, PartialEq, Eq, Structural, Debug)]
pub struct NewInterface {
    pub session_id: u64,
    pub new_device: bool,
    pub path_was_known: bool,
}

/// A device seen for the first time whose descriptor names a blocked product.
pub open spec fn spec_probe_blocked(
    db: HotplugView,
    dev: Seq<u16>,
    dev_desc: Option<DeviceDescriptor>,
) -> bool {
    &&& !db.devices.contains_key(dev)
    &&& dev_desc matches Some(d)
    &&& spec_is_blocked(d.idVendor, d.idProduct)
}

impl WinHotplugDatabase {
    /// Records an interface that was found. `dev_desc` is the device
    /// descriptor read when the device was not known yet (a known device is
    /// not probed again). A new device whose vendor and product are blocked
    /// is not recorded at all and gives `None`; otherwise the interface is
    /// registered as [`register_interface`](Self::register_interface) does.
    pub fn probe_step(
        &mut self,
        dev: Vec<u16>,
        iface: u8,
        path: Vec<u16>,
        dev_desc: Option<DeviceDescriptor>,
    ) -> (r: Option<NewInterface>)
        requires
            old(self).wf(),
            !old(self)@.devices.contains_key(dev@) && !spec_probe_blocked(old(self)@, dev@, dev_desc)
                ==> old(self).next_session_id < u64::MAX,
        ensures
            final(self).wf(),
            spec_probe_blocked(old(self)@, dev@, dev_desc) ==> r is None && final(self)@ == old(
                self,
            )@,
            !spec_probe_blocked(old(self)@, dev@, dev_desc) ==> {
                &&& final(self)@ == spec_register(old(self)@, dev@, iface, path@).0
                &&& r == Some(
                    NewInterface {
                        session_id: spec_register(old(self)@, dev@, iface, path@).1,
                        new_device: !old(self)@.devices.contains_key(dev@),
                        path_was_known: old(self)@.paths.contains_key(path@),
                    },
                )
            },
    {
        let known = self.is_known_device(dev.as_slice());
        if !known {
            if let Some(d) = dev_desc {
                if is_blocked_device(d.idVendor, d.idProduct) {
                    return None;
                }
            }
        }
        let (session_id, path_was_known) = self.register_interface(dev, iface, path);
        Some(NewInterface { session_id, new_device: !known, path_was_known })
    }
}

/// Registering a new interface path of a device and removing it again gives
/// back the devices and paths as they were, and tells that session and
/// interface number: provided the path was not recorded and the device had
/// no interface with that number or with that path.
pub proof fn plug_then_unplug_restores(db: HotplugView, dev: Seq<u16>, iface: u8, path: Seq<u16>)
    requires
        devices_have_interfaces(db),
        !db.paths.contains_key(path),
        db.devices.contains_key(dev) ==> !db.devices[dev].interfaces.contains_key(iface),
        db.devices.contains_key(dev) ==> forall|j: u8|
            #[trigger] db.devices[dev].interfaces.contains_key(j) ==> db.devices[dev].interfaces[j]
                != path,
    ensures
        ({
            let (db1, sid) = spec_register(db, dev, iface, path);
            let (db2, r) = spec_unregister(db1, path);
            &&& r == Some((sid, iface))
            &&& db2.devices == db.devices
            &&& db2.paths == db.paths
        }),
{
    let (db1, sid) = spec_register(db, dev, iface, path);
    let st1 = db1.devices[dev];
    assert(db1.paths[path] == dev);
    assert(is_first_iface_with_path(st1.interfaces, path, iface)) by {
        assert forall|j: u8| j < iface implies !(#[trigger] st1.interfaces.contains_key(j)
            && st1.interfaces[j] == path) by {
            if st1.interfaces.contains_key(j) {
                assert(db.devices.contains_key(dev));
                assert(db.devices[dev].interfaces.contains_key(j));
            }
        }
    }
    let c = choose|c: u8| is_first_iface_with_path(st1.interfaces, path, c);
    assert(is_first_iface_with_path(st1.interfaces, path, c));
    if c < iface {
        assert(!(st1.interfaces.contains_key(c) && st1.interfaces[c] == path));
    } else if c > iface {
        assert(!(st1.interfaces.contains_key(iface) && st1.interfaces[iface] == path));
    }
    let (db2, r) = spec_unregister(db1, path);
    let ifs = st1.interfaces.remove(iface);
    if db.devices.contains_key(dev) {
        assert(ifs =~= db.devices[dev].interfaces);
        assert(!ifs.is_empty());
        let st0 = DeviceStateView { session_id: sid, interfaces: ifs };
        assert(st0 == db.devices[dev]);
        assert(db2.devices =~= db.devices.insert(dev, st0));
        assert(db.devices.insert(dev, st0) =~= db.devices);
    } else {
        assert(ifs.dom() =~= Set::<u8>::empty());
        assert(db2.devices =~= db.devices);
    }
    assert(db2.paths =~= db.paths);
}

/// A device seen for the first time gets a session id that no known device has.
pub proof fn new_devices_get_fresh_sessions(db: HotplugView, dev: Seq<u16>, iface: u8, path: Seq<u16>)
    requires
        sessions_below_next(db),
        !db.devices.contains_key(dev),
        db.next_session_id < u64::MAX,
    ensures
        forall|k: Seq<u16>| #[trigger] db.devices.contains_key(k) ==> db.devices[k].session_id
            != spec_register(db, dev, iface, path).1,
        sessions_below_next(spec_register(db, dev, iface, path).0),
{
}

} // verus!
