//! Where the configurations reported for a device come from: every reported
//! configuration, interface and endpoint carries the fields of a descriptor
//! in the device's descriptor sets.
use vstd::prelude::*;

use crate::descriptor_set::{spec_descriptors, DescriptorView};
use crate::device::{
    spec_all_configs, spec_reformat_all, spec_reformat_descs, spec_reformat_step, ReformatState,
    USBInterfaceState,
};
use crate::protocol::{DeviceConfigurationView, DeviceEndpoint, DeviceInterfaceView};

verus! {

/// `d` is one of the descriptors of one of the sets.
pub open spec fn desc_in(blobs: Seq<Seq<u8>>, d: DescriptorView) -> bool {
    exists|k: int, j: int|
        0 <= k < blobs.len() && 0 <= j < spec_descriptors(blobs[k]).len() && #[trigger] spec_descriptors(
            blobs[k],
        )[j] == d
}

/// The value and string index of a configuration descriptor.
pub open spec fn config_fields_of(d: DescriptorView) -> Option<(u8, u8)> {
    match d {
        DescriptorView::Config(x) => Some((x.bConfigurationValue, x.iConfiguration)),
        _ => None,
    }
}

/// The number, alternate setting, class, subclass, protocol and string index
/// of an interface descriptor.
pub open spec fn interface_fields_of(d: DescriptorView) -> Option<(u8, u8, u8, u8, u8, u8)> {
    match d {
        DescriptorView::Interface(x) => Some(
            (
                x.bInterfaceNumber,
                x.bAlternateSetting,
                x.bInterfaceClass,
                x.bInterfaceSubClass,
                x.bInterfaceProtocol,
                x.iInterface,
            ),
        ),
        _ => None,
    }
}

/// The address, attributes and maximum packet size of an endpoint descriptor.
pub open spec fn endpoint_of(d: DescriptorView) -> Option<DeviceEndpoint> {
    match d {
        DescriptorView::Endpoint(x) => Some(
            DeviceEndpoint {
                bEndpointAddress: x.bEndpointAddress,
                bmAttributes: x.bmAttributes,
                wMaxPacketSize: x.wMaxPacketSize,
            },
        ),
        _ => None,
    }
}

/// The same fields of a reported interface.
pub open spec fn reported_interface_fields(iv: DeviceInterfaceView) -> (u8, u8, u8, u8, u8, u8) {
    (
        iv.bInterfaceNumber,
        iv.bAlternateSetting,
        iv.bInterfaceClass,
        iv.bInterfaceSubClass,
        iv.bInterfaceProtocol,
        iv.iInterface,
    )
}

/// Some configuration descriptor of the sets has this value and string
/// index, or both are 0 (what a set without one is reported as).
pub open spec fn config_from(blobs: Seq<Seq<u8>>, value: u8, index: u8) -> bool {
    (value == 0 && index == 0) || exists|d: DescriptorView|
        desc_in(blobs, d) && #[trigger] config_fields_of(d) == Some((value, index))
}

/// Some interface descriptor of the sets has these fields.
pub open spec fn interface_from(blobs: Seq<Seq<u8>>, f: (u8, u8, u8, u8, u8, u8)) -> bool {
    exists|d: DescriptorView| desc_in(blobs, d) && #[trigger] interface_fields_of(d) == Some(f)
}

/// Some endpoint descriptor of the sets has these fields.
pub open spec fn endpoint_from(blobs: Seq<Seq<u8>>, ev: DeviceEndpoint) -> bool {
    exists|d: DescriptorView| desc_in(blobs, d) && #[trigger] endpoint_of(d) == Some(ev)
}

/// The alternate setting reported as current for an interface of a
/// configuration: the one the device uses when the configuration is active
/// and the interface's state is known, else 0.
pub open spec fn expected_alt(
    config_value: u8,
    iface: u8,
    current_config: u8,
    if_state: Map<u8, USBInterfaceState>,
) -> u8 {
    if config_value == current_config && if_state.contains_key(iface) {
        if_state[iface].alt_setting
    } else {
        0
    }
}

/// A reported interface of a configuration with value `config_value` comes
/// from an interface descriptor, reports the current alternate setting, and
/// its endpoints come from endpoint descriptors.
pub open spec fn iface_sourced(
    blobs: Seq<Seq<u8>>,
    config_value: u8,
    current_config: u8,
    if_state: Map<u8, USBInterfaceState>,
    iv: DeviceInterfaceView,
) -> bool {
    &&& interface_from(blobs, reported_interface_fields(iv))
    &&& iv.current_alt_setting == expected_alt(
        config_value,
        iv.bInterfaceNumber,
        current_config,
        if_state,
    )
    &&& forall|e: int| 0 <= e < iv.endpoints.len() ==> endpoint_from(blobs, #[trigger] iv.endpoints[e])
}

/// A reported configuration comes from a configuration descriptor and all
/// its interfaces from interface descriptors.
pub open spec fn config_sourced(
    blobs: Seq<Seq<u8>>,
    current_config: u8,
    if_state: Map<u8, USBInterfaceState>,
    cv: DeviceConfigurationView,
) -> bool {
    &&& config_from(blobs, cv.bConfigurationValue, cv.iConfiguration)
    &&& forall|i: int|
        0 <= i < cv.interfaces.len() ==> iface_sourced(
            blobs,
            cv.bConfigurationValue,
            current_config,
            if_state,
            #[trigger] cv.interfaces[i],
        )
}

/// Every configuration of the list is sourced.
pub open spec fn all_sourced(
    blobs: Seq<Seq<u8>>,
    current_config: u8,
    if_state: Map<u8, USBInterfaceState>,
    cfgs: Seq<DeviceConfigurationView>,
) -> bool {
    forall|c: int|
        0 <= c < cfgs.len() ==> config_sourced(blobs, current_config, if_state, #[trigger] cfgs[c])
}

/// One descriptor of the sets keeps everything gathered sourced.
proof fn lemma_step_keeps_sourced(
    blobs: Seq<Seq<u8>>,
    st: ReformatState,
    d: DescriptorView,
    current_config: u8,
    if_state: Map<u8, USBInterfaceState>,
    concatenated: bool,
)
    requires
        all_sourced(blobs, current_config, if_state, spec_all_configs(st)),
        desc_in(blobs, d),
    ensures
        all_sourced(
            blobs,
            current_config,
            if_state,
            spec_all_configs(spec_reformat_step(st, d, current_config, if_state, concatenated)),
        ),
{
    let st2 = spec_reformat_step(st, d, current_config, if_state, concatenated);
    let a = spec_all_configs(st);
    let b = spec_all_configs(st2);
    let lc = st.configs.len() as int;
    match d {
        DescriptorView::Config(x) => {
            assert(config_fields_of(d) == Some((x.bConfigurationValue, x.iConfiguration)));
            assert(config_from(blobs, x.bConfigurationValue, x.iConfiguration));
            assert forall|c: int| 0 <= c < b.len() implies config_sourced(
                blobs,
                current_config,
                if_state,
                #[trigger] b[c],
            ) by {
                if c < a.len() && b[c] == a[c] {
                } else {
                    assert(b[c].interfaces.len() == 0);
                    assert(b[c].bConfigurationValue == x.bConfigurationValue);
                    assert(b[c].iConfiguration == x.iConfiguration);
                }
            }
        },
        DescriptorView::Interface(x) => {
            if let Some(cur) = st.current {
                let cur2 = st2.current.unwrap();
                let n = cur.interfaces.len() as int;
                let iv = cur2.interfaces[n];
                assert(interface_fields_of(d) == Some(reported_interface_fields(iv)));
                assert(interface_from(blobs, reported_interface_fields(iv)));
                assert(iv.endpoints.len() == 0);
                assert(iface_sourced(blobs, cur2.bConfigurationValue, current_config, if_state, iv));
                assert(config_sourced(blobs, current_config, if_state, a[lc]));
                assert forall|i: int| 0 <= i < cur2.interfaces.len() implies iface_sourced(
                    blobs,
                    cur2.bConfigurationValue,
                    current_config,
                    if_state,
                    #[trigger] cur2.interfaces[i],
                ) by {
                    if i < n {
                        assert(cur2.interfaces[i] == cur.interfaces[i]);
                        assert(a[lc].interfaces[i] == cur.interfaces[i]);
                    }
                }
                assert(config_sourced(blobs, current_config, if_state, cur2));
                assert forall|c: int| 0 <= c < b.len() implies config_sourced(
                    blobs,
                    current_config,
                    if_state,
                    #[trigger] b[c],
                ) by {
                    if c < lc {
                        assert(b[c] == a[c]);
                    }
                }
            }
        },
        DescriptorView::Endpoint(x) => {
            if let Some(cur) = st.current {
                if cur.interfaces.len() > 0 {
                    let cur2 = st2.current.unwrap();
                    let li = cur.interfaces.len() - 1;
                    let last = cur.interfaces[li];
                    let new_last = cur2.interfaces[li];
                    let ep = DeviceEndpoint {
                        bEndpointAddress: x.bEndpointAddress,
                        bmAttributes: x.bmAttributes,
                        wMaxPacketSize: x.wMaxPacketSize,
                    };
                    assert(endpoint_of(d) == Some(ep));
                    assert(endpoint_from(blobs, ep));
                    assert(config_sourced(blobs, current_config, if_state, a[lc]));
                    assert(a[lc].interfaces[li] == last);
                    assert(iface_sourced(blobs, cur.bConfigurationValue, current_config, if_state, last));
                    assert(new_last.endpoints == last.endpoints.push(ep));
                    assert(reported_interface_fields(new_last) == reported_interface_fields(last));
                    assert forall|e: int| 0 <= e < new_last.endpoints.len() implies endpoint_from(
                        blobs,
                        #[trigger] new_last.endpoints[e],
                    ) by {
                        if e < last.endpoints.len() {
                            assert(new_last.endpoints[e] == last.endpoints[e]);
                        }
                    }
                    assert(iface_sourced(blobs, cur2.bConfigurationValue, current_config, if_state, new_last));
                    assert forall|i: int| 0 <= i < cur2.interfaces.len() implies iface_sourced(
                        blobs,
                        cur2.bConfigurationValue,
                        current_config,
                        if_state,
                        #[trigger] cur2.interfaces[i],
                    ) by {
                        if i < li {
                            assert(cur2.interfaces[i] == cur.interfaces[i]);
                            assert(a[lc].interfaces[i] == cur.interfaces[i]);
                        }
                    }
                    assert(config_sourced(blobs, current_config, if_state, cur2));
                    assert forall|c: int| 0 <= c < b.len() implies config_sourced(
                        blobs,
                        current_config,
                        if_state,
                        #[trigger] b[c],
                    ) by {
                        if c < lc {
                            assert(b[c] == a[c]);
                        }
                    }
                }
            }
        },
        _ => {},
    }
}

/// Walking descriptors of the sets keeps everything gathered sourced.
proof fn lemma_descs_keep_sourced(
    blobs: Seq<Seq<u8>>,
    st: ReformatState,
    ds: Seq<DescriptorView>,
    current_config: u8,
    if_state: Map<u8, USBInterfaceState>,
    concatenated: bool,
)
    requires
        all_sourced(blobs, current_config, if_state, spec_all_configs(st)),
        forall|j: int| 0 <= j < ds.len() ==> desc_in(blobs, #[trigger] ds[j]),
    ensures
        all_sourced(
            blobs,
            current_config,
            if_state,
            spec_all_configs(spec_reformat_descs(st, ds, current_config, if_state, concatenated)),
        ),
    decreases ds.len(),
{
    if ds.len() > 0 {
        let p = ds.drop_last();
        assert forall|j: int| 0 <= j < p.len() implies desc_in(blobs, #[trigger] p[j]) by {
            assert(p[j] == ds[j]);
        }
        lemma_descs_keep_sourced(blobs, st, p, current_config, if_state, concatenated);
        assert(desc_in(blobs, ds[ds.len() - 1]));
        lemma_step_keeps_sourced(
            blobs,
            spec_reformat_descs(st, p, current_config, if_state, concatenated),
            ds.last(),
            current_config,
            if_state,
            concatenated,
        );
    }
}

/// What is sourced from some of the sets is sourced from more of them.
proof fn lemma_sourced_grow(
    a: Seq<Seq<u8>>,
    b: Seq<Seq<u8>>,
    current_config: u8,
    if_state: Map<u8, USBInterfaceState>,
    cfgs: Seq<DeviceConfigurationView>,
)
    requires
        all_sourced(a, current_config, if_state, cfgs),
        a.len() <= b.len(),
        forall|k: int| 0 <= k < a.len() ==> b[k] == a[k],
    ensures
        all_sourced(b, current_config, if_state, cfgs),
{
    assert forall|d: DescriptorView| desc_in(a, d) implies desc_in(b, d) by {
        let (k, j) = choose|k: int, j: int|
            0 <= k < a.len() && 0 <= j < spec_descriptors(a[k]).len() && #[trigger] spec_descriptors(
                a[k],
            )[j] == d;
        assert(b[k] == a[k]);
        assert(spec_descriptors(b[k])[j] == d);
    }
    assert forall|c: int| 0 <= c < cfgs.len() implies config_sourced(
        b,
        current_config,
        if_state,
        #[trigger] cfgs[c],
    ) by {
        let cv = cfgs[c];
        assert(config_sourced(a, current_config, if_state, cv));
        if !(cv.bConfigurationValue == 0 && cv.iConfiguration == 0) {
            let d = choose|d: DescriptorView|
                desc_in(a, d) && #[trigger] config_fields_of(d) == Some(
                    (cv.bConfigurationValue, cv.iConfiguration),
                );
            assert(desc_in(b, d));
        }
        assert forall|i: int| 0 <= i < cv.interfaces.len() implies iface_sourced(
            b,
            cv.bConfigurationValue,
            current_config,
            if_state,
            #[trigger] cv.interfaces[i],
        ) by {
            let iv = cv.interfaces[i];
            assert(iface_sourced(a, cv.bConfigurationValue, current_config, if_state, iv));
            let d = choose|d: DescriptorView|
                desc_in(a, d) && #[trigger] interface_fields_of(d) == Some(reported_interface_fields(iv));
            assert(desc_in(b, d));
            assert forall|e: int| 0 <= e < iv.endpoints.len() implies endpoint_from(
                b,
                #[trigger] iv.endpoints[e],
            ) by {
                assert(endpoint_from(a, iv.endpoints[e]));
                let d2 = choose|d2: DescriptorView|
                    desc_in(a, d2) && #[trigger] endpoint_of(d2) == Some(iv.endpoints[e]);
                assert(desc_in(b, d2));
            }
        }
    }
}

/// Every configuration reported for a device comes from its descriptor sets:
/// its value and string index are those of a configuration descriptor of the
/// sets (or both 0 for a set that holds none); each of its interfaces has the
/// number, alternate setting, class, subclass, protocol and string index of an
/// interface descriptor of the sets, and reports as current the alternate
/// setting the device uses when the configuration is active and the
/// interface's state is known, else 0; each endpoint of an interface has the
/// address, attributes and maximum packet size of an endpoint descriptor of
/// the sets.
pub proof fn reported_configurations_come_from_descriptors(
    blobs: Seq<Seq<u8>>,
    current_config: u8,
    if_state: Map<u8, USBInterfaceState>,
    concatenated: bool,
)
    ensures
        all_sourced(
            blobs,
            current_config,
            if_state,
            spec_reformat_all(blobs, current_config, if_state, concatenated).0,
        ),
    decreases blobs.len(),
{
    if blobs.len() > 0 {
        let pre = blobs.drop_last();
        let prev = spec_reformat_all(pre, current_config, if_state, concatenated);
        reported_configurations_come_from_descriptors(pre, current_config, if_state, concatenated);
        lemma_sourced_grow(pre, blobs, current_config, if_state, prev.0);
        let st0 = ReformatState { configs: prev.0, current: None, eps: prev.1 };
        assert(spec_all_configs(st0) == prev.0);
        let k = blobs.len() - 1;
        let ds = spec_descriptors(blobs[k]);
        assert forall|j: int| 0 <= j < ds.len() implies desc_in(blobs, #[trigger] ds[j]) by {
            assert(spec_descriptors(blobs[k])[j] == ds[j]);
        }
        lemma_descs_keep_sourced(blobs, st0, ds, current_config, if_state, concatenated);
        let st = spec_reformat_descs(st0, ds, current_config, if_state, concatenated);
        let out = spec_reformat_all(blobs, current_config, if_state, concatenated).0;
        let all = spec_all_configs(st);
        assert forall|c: int| 0 <= c < out.len() implies config_sourced(
            blobs,
            current_config,
            if_state,
            #[trigger] out[c],
        ) by {
            if c < st.configs.len() {
                assert(out[c] == all[c]);
            } else if st.current is Some {
                assert(out[c] == all[c]);
            } else {
                assert(out[c].interfaces.len() == 0);
                assert(out[c].bConfigurationValue == 0 && out[c].iConfiguration == 0);
            }
        }
    }
}

} // verus!
