//! Devices that must never be handed to web pages.
use vstd::prelude::*;

verus! {

/// The (vendor id, product id) pairs of security keys that are blocked, as
/// the browser blocklists list them.
pub open spec fn spec_blocklist() -> Seq<(u16, u16)> {
    seq![
        (0x096eu16, 0x0850u16),  // KEY-ID
        (0x096eu16, 0x0852u16),  // Feitian
        (0x096eu16, 0x0853u16),  // Feitian
        (0x096eu16, 0x0854u16),  // Feitian
        (0x096eu16, 0x0856u16),  // Feitian
        (0x096eu16, 0x0858u16),  // Feitian USB+NFC
        (0x096eu16, 0x085au16),  // Feitian
        (0x096eu16, 0x085bu16),  // Feitian
        (0x096eu16, 0x0880u16),  // HyperFIDO
        (0x09c3u16, 0x0023u16),  // HID Global BlueTrust Token
        (0x1050u16, 0x0010u16),
        (0x1050u16, 0x0018u16),
        (0x1050u16, 0x0030u16),
        (0x1050u16, 0x0110u16),
        (0x1050u16, 0x0111u16),
        (0x1050u16, 0x0112u16),
        (0x1050u16, 0x0113u16),
        (0x1050u16, 0x0114u16),
        (0x1050u16, 0x0115u16),
        (0x1050u16, 0x0116u16),
        (0x1050u16, 0x0120u16),
        (0x1050u16, 0x0200u16),
        (0x1050u16, 0x0211u16),
        (0x1050u16, 0x0401u16),
        (0x1050u16, 0x0402u16),
        (0x1050u16, 0x0403u16),
        (0x1050u16, 0x0404u16),
        (0x1050u16, 0x0405u16),
        (0x1050u16, 0x0406u16),
        (0x1050u16, 0x0407u16),
        (0x1050u16, 0x0410u16),
        (0x10c4u16, 0x8acfu16),  // U2F Zero
        (0x18d1u16, 0x5026u16),  // Titan
        (0x1a44u16, 0x00bbu16),  // VASCO
        (0x1d50u16, 0x60fcu16),  // OnlyKey
        (0x1e0du16, 0xf1aeu16),  // Keydo AES
        (0x1e0du16, 0xf1d0u16),  // Neowave Keydo
        (0x1ea8u16, 0xf025u16),  // Thetis
        (0x20a0u16, 0x4287u16),  // Nitrokey
        (0x24dcu16, 0x0101u16),  // JaCarta
        (0x2581u16, 0xf1d0u16),  // Happlink
        (0x2abeu16, 0x1002u16),  // Bluink
        (0x2ccfu16, 0x0880u16),  // Feitian USB:HyperFIDO
    ]
}

/// Whether a device is on the blocklist.
pub open spec fn spec_is_blocked(vid: u16, pid: u16) -> bool {
    spec_blocklist().contains((vid, pid))
}

pub fn is_blocked_device(vid: u16, pid: u16) -> (r: bool)
    ensures
        r == spec_is_blocked(vid, pid),
{
    // this doesn't support bcdDevice filtering, because there are no such examples
    let r = match (vid, pid) {
        (0x096e, 0x0850) |  // KEY-ID
        (0x096e, 0x0852) |  // Feitian
        (0x096e, 0x0853) |  // Feitian
        (0x096e, 0x0854) |  // Feitian
        (0x096e, 0x0856) |  // Feitian
        (0x096e, 0x0858) |  // Feitian USB+NFC
        (0x096e, 0x085a) |  // Feitian
        (0x096e, 0x085b) |  // Feitian
        (0x096e, 0x0880) |  // HyperFIDO
        (0x09c3, 0x0023) |  // HID Global BlueTrust Token
        (0x1050, 0x0010) |
        (0x1050, 0x0018) |
        (0x1050, 0x0030) |
        (0x1050, 0x0110) |
        (0x1050, 0x0111) |
        (0x1050, 0x0112) |
        (0x1050, 0x0113) |
        (0x1050, 0x0114) |
        (0x1050, 0x0115) |
        (0x1050, 0x0116) |
        (0x1050, 0x0120) |
        (0x1050, 0x0200) |
        (0x1050, 0x0211) |
        (0x1050, 0x0401) |
        (0x1050, 0x0402) |
        (0x1050, 0x0403) |
        (0x1050, 0x0404) |
        (0x1050, 0x0405) |
        (0x1050, 0x0406) |
        (0x1050, 0x0407) |
        (0x1050, 0x0410) |
        (0x10c4, 0x8acf) |  // U2F Zero
        (0x18d1, 0x5026) |  // Titan
        (0x1a44, 0x00bb) |  // VASCO
        (0x1d50, 0x60fc) |  // OnlyKey
        (0x1e0d, 0xf1ae) |  // Keydo AES
        (0x1e0d, 0xf1d0) |  // Neowave Keydo
        (0x1ea8, 0xf025) |  // Thetis
        (0x20a0, 0x4287) |  // Nitrokey
        (0x24dc, 0x0101) |  // JaCarta
        (0x2581, 0xf1d0) |  // Happlink
        (0x2abe, 0x1002) |  // Bluink
        (0x2ccf, 0x0880) => true,  // Feitian USB:HyperFIDO
        _ => false,
    };
    proof {
        let l = spec_blocklist();
        assert(l[0] == (0x096eu16, 0x0850u16));
        assert(l[1] == (0x096eu16, 0x0852u16));
        assert(l[2] == (0x096eu16, 0x0853u16));
        assert(l[3] == (0x096eu16, 0x0854u16));
        assert(l[4] == (0x096eu16, 0x0856u16));
        assert(l[5] == (0x096eu16, 0x0858u16));
        assert(l[6] == (0x096eu16, 0x085au16));
        assert(l[7] == (0x096eu16, 0x085bu16));
        assert(l[8] == (0x096eu16, 0x0880u16));
        assert(l[9] == (0x09c3u16, 0x0023u16));
        assert(l[10] == (0x1050u16, 0x0010u16));
        assert(l[11] == (0x1050u16, 0x0018u16));
        assert(l[12] == (0x1050u16, 0x0030u16));
        assert(l[13] == (0x1050u16, 0x0110u16));
        assert(l[14] == (0x1050u16, 0x0111u16));
        assert(l[15] == (0x1050u16, 0x0112u16));
        assert(l[16] == (0x1050u16, 0x0113u16));
        assert(l[17] == (0x1050u16, 0x0114u16));
        assert(l[18] == (0x1050u16, 0x0115u16));
        assert(l[19] == (0x1050u16, 0x0116u16));
        assert(l[20] == (0x1050u16, 0x0120u16));
        assert(l[21] == (0x1050u16, 0x0200u16));
        assert(l[22] == (0x1050u16, 0x0211u16));
        assert(l[23] == (0x1050u16, 0x0401u16));
        assert(l[24] == (0x1050u16, 0x0402u16));
        assert(l[25] == (0x1050u16, 0x0403u16));
        assert(l[26] == (0x1050u16, 0x0404u16));
        assert(l[27] == (0x1050u16, 0x0405u16));
        assert(l[28] == (0x1050u16, 0x0406u16));
        assert(l[29] == (0x1050u16, 0x0407u16));
        assert(l[30] == (0x1050u16, 0x0410u16));
        assert(l[31] == (0x10c4u16, 0x8acfu16));
        assert(l[32] == (0x18d1u16, 0x5026u16));
        assert(l[33] == (0x1a44u16, 0x00bbu16));
        assert(l[34] == (0x1d50u16, 0x60fcu16));
        assert(l[35] == (0x1e0du16, 0xf1aeu16));
        assert(l[36] == (0x1e0du16, 0xf1d0u16));
        assert(l[37] == (0x1ea8u16, 0xf025u16));
        assert(l[38] == (0x20a0u16, 0x4287u16));
        assert(l[39] == (0x24dcu16, 0x0101u16));
        assert(l[40] == (0x2581u16, 0xf1d0u16));
        assert(l[41] == (0x2abeu16, 0x1002u16));
        assert(l[42] == (0x2ccfu16, 0x0880u16));
        if !r {
            assert forall|k: int| 0 <= k < l.len() implies l[k] != (vid, pid) by {}
        }
    }
    r
}

} // verus!
