//! Messages of the udev netlink multicast group: the `feedcafe` header that
//! libudev puts in front of each device event, its property list, and the
//! MurmurHash2 variant that udev uses to hash subsystem and device type names.
use vstd::prelude::*;

use crate::host::{host_is_little_endian, read32, read_u32, swap_bytes32, swap_u32};
use crate::seqs::{find_byte, first_index, lemma_split_start, lemma_split_step, split_seq};

verus! {

/// The multiplier of MurmurHash2.
pub open spec fn murmur_m() -> u32 {
    0x5bd1e995u32
}

/// Mixing one 4-byte block `k` into the running hash `h`.
pub open spec fn murmur_block(h: u32, k: u32) -> u32 {
    let k1 = k.wrapping_mul(murmur_m());
    let k2 = k1 ^ (k1 >> 24u32);
    let k3 = k2.wrapping_mul(murmur_m());
    h.wrapping_mul(murmur_m()) ^ k3
}

/// The running hash after mixing in the blocks `words`, in order.
pub open spec fn murmur_blocks(h: u32, words: Seq<u32>) -> u32
    decreases words.len(),
{
    if words.len() == 0 {
        h
    } else {
        murmur_block(murmur_blocks(h, words.drop_last()), words.last())
    }
}

/// Mixing in the (up to three) bytes that follow the last whole block. The
/// final multiplication happens whether or not there are such bytes.
pub open spec fn murmur_tail(h: u32, tail: Seq<u8>) -> u32 {
    let h1 = if tail.len() >= 3 { h ^ ((tail[2] as u32) << 16u32) } else { h };
    let h2 = if tail.len() >= 2 { h1 ^ ((tail[1] as u32) << 8u32) } else { h1 };
    let h3 = if tail.len() >= 1 { h2 ^ (tail[0] as u32) } else { h2 };
    h3.wrapping_mul(murmur_m())
}

/// The final avalanche.
pub open spec fn murmur_finish(h: u32) -> u32 {
    let h1 = h ^ (h >> 13u32);
    let h2 = h1.wrapping_mul(murmur_m());
    h2 ^ (h2 >> 15u32)
}

/// The whole 4-byte blocks of `key`, in order, each read as a 32-bit
/// number little-endian when `le`, else big-endian.
pub open spec fn words_in_order(key: Seq<u8>, le: bool) -> Seq<u32> {
    Seq::new(
        key.len() / 4,
        |i: int| read32(key[4 * i], key[4 * i + 1], key[4 * i + 2], key[4 * i + 3], le),
    )
}

/// The hash of `key` with `seed`, given the values `words` of its blocks.
pub open spec fn murmur_hash_of_blocks(key: Seq<u8>, seed: u32, words: Seq<u32>) -> u32 {
    let start = seed ^ (key.len() as u32);
    let tail = key.subrange(4 * (key.len() / 4) as int, key.len() as int);
    murmur_finish(murmur_tail(murmur_blocks(start, words), tail))
}

/// MurmurHash2 of `key` with `seed`, as udev computes it.
///
/// The blocks are read in the host's byte order, so the result depends on the
/// machine: it is the hash of the key's blocks all read in one order, the
/// host's.
pub fn murmur_hash_2(key: &[u8], seed: u32) -> (r: u32)
    ensures
        exists|le: bool| r == murmur_hash_of_blocks(key@, seed, words_in_order(key@, le)),
{
    let le = host_is_little_endian();
    let len = key.len();
    let mut h: u32 = seed ^ (len as u32);
    let ghost start = h;
    let mut i: usize = 0;
    let ghost mut words: Seq<u32> = Seq::empty();
    while len - i >= 4
        invariant
            len == key@.len(),
            i <= len,
            i == 4 * words.len(),
            start == seed ^ (len as u32),
            h == murmur_blocks(start, words),
            words == words_in_order(key@, le).subrange(0, words.len() as int),
        decreases len - i,
    {
        let mut k = read_u32(key[i], key[i + 1], key[i + 2], key[i + 3], le);
        proof {
            let w = k;
            assert(words.push(w).drop_last() == words);
            words = words.push(w);
            assert(words =~= words_in_order(key@, le).subrange(0, words.len() as int));
        }
        k = k.wrapping_mul(0x5bd1e995);
        k ^= k >> 24u32;
        k = k.wrapping_mul(0x5bd1e995);
        h = h.wrapping_mul(0x5bd1e995);
        h ^= k;
        i = i + 4;
    }
    let rest = len - i;
    assert(i == 4 * (len / 4)) by {
        assert(len - 4 * words.len() < 4);
    }
    let ghost tail = key@.subrange(i as int, len as int);
    if rest >= 3 {
        h ^= (key[i + 2] as u32) << 16u32;
    }
    if rest >= 2 {
        h ^= (key[i + 1] as u32) << 8u32;
    }
    if rest >= 1 {
        h ^= key[i] as u32;
    }
    assert(tail.len() == rest);
    h = h.wrapping_mul(0x5bd1e995);
    h ^= h >> 13u32;
    h = h.wrapping_mul(0x5bd1e995);
    h ^= h >> 15u32;
    assert(words =~= words_in_order(key@, le));
    h
}

/// The fixed-size header of a udev event, with its fields as they lie in memory.
#[derive(Debug)]
pub struct UdevFeedcafeMessageHeader {
    pub libudev_magic: [u8; 8],
    pub version_magic: u32,
    pub header_sz: u32,
    pub properties_off: u32,
    pub properties_len: u32,
    pub subsystem_hash: u32,
    pub devtype_hash: u32,
    pub tag_bloom_hi: u32,
    pub tag_bloom_lo: u32,
}

/// The size of the header in bytes.
pub const UDEV_HEADER_SIZE: usize = 40;

/// The bytes `libudev\0` that open every event.
pub open spec fn spec_udev_magic() -> Seq<u8> {
    seq![0x6cu8, 0x69u8, 0x62u8, 0x75u8, 0x64u8, 0x65u8, 0x76u8, 0x00u8]
}

/// The version marker, once read in big-endian order.
pub const UDEV_VERSION_MAGIC: u32 = 0xfeedcafe;

/// The eight numbers of a header as they lie in `pkt`, each read in the
/// same byte order: little-endian when `le`, else big-endian.
pub open spec fn header_fields_read(pkt: Seq<u8>, le: bool, h: UdevFeedcafeMessageHeader) -> bool {
    &&& h.version_magic == read32(pkt[8], pkt[9], pkt[10], pkt[11], le)
    &&& h.header_sz == read32(pkt[12], pkt[13], pkt[14], pkt[15], le)
    &&& h.properties_off == read32(pkt[16], pkt[17], pkt[18], pkt[19], le)
    &&& h.properties_len == read32(pkt[20], pkt[21], pkt[22], pkt[23], le)
    &&& h.subsystem_hash == read32(pkt[24], pkt[25], pkt[26], pkt[27], le)
    &&& h.devtype_hash == read32(pkt[28], pkt[29], pkt[30], pkt[31], le)
    &&& h.tag_bloom_hi == read32(pkt[32], pkt[33], pkt[34], pkt[35], le)
    &&& h.tag_bloom_lo == read32(pkt[36], pkt[37], pkt[38], pkt[39], le)
}

/// `v` converted from big-endian order into the host's: its bytes swapped
/// on a little-endian host (`le`), unchanged on a big-endian one.
pub open spec fn from_be(v: u32, le: bool) -> u32 {
    if le {
        swap_bytes32(v)
    } else {
        v
    }
}

/// Converts `v` from big-endian order into the order `le` names.
fn from_be_in(v: u32, le: bool) -> (r: u32)
    ensures
        r == from_be(v, le),
{
    if le {
        swap_u32(v)
    } else {
        v
    }
}

/// One `KEY=value` entry of an event's property list. An entry without `=`
/// has no value.
#[derive(Debug)]
pub struct UdevProperty<'a> {
    pub key: &'a [u8],
    pub val: Option<&'a [u8]>,
}

/// The contents of a [`UdevProperty`].
pub struct UdevPropertyView {
    pub key: Seq<u8>,
    pub val: Option<Seq<u8>>,
}

impl<'a> View for UdevProperty<'a> {
    type V = UdevPropertyView;

    open spec fn view(&self) -> UdevPropertyView {
        UdevPropertyView {
            key: self.key@,
            val: match self.val {
                Some(v) => Some(v@),
                None => None,
            },
        }
    }
}

/// An entry split at its first `=` into key and value.
pub open spec fn spec_property(entry: Seq<u8>) -> UdevPropertyView {
    let k = first_index(entry, 0x3du8);
    if k < entry.len() {
        UdevPropertyView {
            key: entry.subrange(0, k),
            val: Some(entry.subrange(k + 1, entry.len() as int)),
        }
    } else {
        UdevPropertyView { key: entry, val: None }
    }
}

/// `s` without its last byte, where that byte is NUL.
pub open spec fn strip_trailing_nul(s: Seq<u8>) -> Seq<u8> {
    if s.len() > 0 && s.last() == 0 {
        s.drop_last()
    } else {
        s
    }
}

/// One entry of the property list split at its first `=`.
pub fn parse_property<'a>(entry: &'a [u8]) -> (p: UdevProperty<'a>)
    ensures
        p@ == spec_property(entry@),
{
    let k = find_byte(entry, 0, entry.len(), 0x3d);
    assert(entry@.subrange(0, entry@.len() as int) == entry@);
    if k < entry.len() {
        UdevProperty {
            key: vstd::slice::slice_subrange(entry, 0, k),
            val: Some(vstd::slice::slice_subrange(entry, k + 1, entry.len())),
        }
    } else {
        UdevProperty { key: entry, val: None }
    }
}

/// A udev event: the header and the bytes that follow it.
#[derive(Debug)]
pub struct UdevFeedCafeMessage {
    pub hdr: UdevFeedcafeMessageHeader,
    pub payload: Vec<u8>,
}

impl UdevFeedCafeMessage {
    /// The header fields that say where the property list lies fit the
    /// payload, so that it can be cut out.
    pub open spec fn spec_properties_in_range(&self) -> bool {
        &&& self.hdr.properties_off >= UDEV_HEADER_SIZE
        &&& self.hdr.properties_off - UDEV_HEADER_SIZE <= self.hdr.properties_len
        &&& self.hdr.properties_len <= self.payload@.len()
    }

    /// The property list: the payload from `properties_off` (counted from the
    /// start of the header) up to the index `properties_len` of the payload.
    pub open spec fn spec_property_bytes(&self) -> Seq<u8> {
        self.payload@.subrange(
            self.hdr.properties_off - UDEV_HEADER_SIZE,
            self.hdr.properties_len as int,
        )
    }

    /// The entries of the property list.
    pub open spec fn spec_properties(&self) -> Seq<UdevPropertyView> {
        split_seq(strip_trailing_nul(self.spec_property_bytes()), 0u8).map_values(
            |e: Seq<u8>| spec_property(e),
        )
    }

    /// A received packet taken apart as it lies in memory: the magic, the
    /// eight numbers in the host's byte order, and the rest as payload.
    /// A packet shorter than the header is refused.
    pub fn from_packet(pkt: &[u8]) -> (r: Option<Self>)
        ensures
            pkt@.len() < UDEV_HEADER_SIZE <==> r is None,
            r matches Some(m) ==> {
                &&& m.hdr.libudev_magic@ == pkt@.subrange(0, 8)
                &&& exists|le: bool| #[trigger] header_fields_read(pkt@, le, m.hdr)
                &&& m.payload@ == pkt@.subrange(UDEV_HEADER_SIZE as int, pkt@.len() as int)
            },
    {
        if pkt.len() < UDEV_HEADER_SIZE {
            return None;
        }
        let le = host_is_little_endian();
        let magic: [u8; 8] = [pkt[0], pkt[1], pkt[2], pkt[3], pkt[4], pkt[5], pkt[6], pkt[7]];
        let hdr = UdevFeedcafeMessageHeader {
            libudev_magic: magic,
            version_magic: read_u32(pkt[8], pkt[9], pkt[10], pkt[11], le),
            header_sz: read_u32(pkt[12], pkt[13], pkt[14], pkt[15], le),
            properties_off: read_u32(pkt[16], pkt[17], pkt[18], pkt[19], le),
            properties_len: read_u32(pkt[20], pkt[21], pkt[22], pkt[23], le),
            subsystem_hash: read_u32(pkt[24], pkt[25], pkt[26], pkt[27], le),
            devtype_hash: read_u32(pkt[28], pkt[29], pkt[30], pkt[31], le),
            tag_bloom_hi: read_u32(pkt[32], pkt[33], pkt[34], pkt[35], le),
            tag_bloom_lo: read_u32(pkt[36], pkt[37], pkt[38], pkt[39], le),
        };
        let mut payload: Vec<u8> = Vec::new();
        let mut i: usize = UDEV_HEADER_SIZE;
        while i < pkt.len()
            invariant
                UDEV_HEADER_SIZE <= i <= pkt@.len(),
                payload@ == pkt@.subrange(UDEV_HEADER_SIZE as int, i as int),
            decreases pkt@.len() - i,
        {
            payload.push(pkt[i]);
            i = i + 1;
        }
        assert(magic@ == pkt@.subrange(0, 8));
        let msg = UdevFeedCafeMessage { hdr, payload };
        assert(header_fields_read(pkt@, le, msg.hdr));
        assert(exists|l: bool| #[trigger] header_fields_read(pkt@, l, msg.hdr));
        Some(msg)
    }

    /// Checks the magic, converts the big-endian fields to the host's order,
    /// and checks that the version marker is right and that the property list
    /// lies inside the payload.
    ///
    /// A message with the wrong magic is refused untouched. The sizes and the
    /// offset are not converted. A property offset past the end of the
    /// payload is refused too.
    pub fn mangle_and_validate(&mut self) -> (r: Result<(), ()>)
        ensures
            old(self).hdr.libudev_magic@ != spec_udev_magic() ==> r is Err && *final(self)
                == *old(self),
            old(self).hdr.libudev_magic@ == spec_udev_magic() ==> {
                let h0 = old(self).hdr;
                let h1 = final(self).hdr;
                &&& final(self).payload@ == old(self).payload@
                &&& h1.libudev_magic == h0.libudev_magic
                &&& h1.header_sz == h0.header_sz
                &&& h1.properties_off == h0.properties_off
                &&& h1.properties_len == h0.properties_len
                &&& exists|le: bool|
                    {
                        &&& h1.version_magic == from_be(h0.version_magic, le)
                        &&& h1.subsystem_hash == from_be(h0.subsystem_hash, le)
                        &&& h1.devtype_hash == from_be(h0.devtype_hash, le)
                        &&& h1.tag_bloom_hi == from_be(h0.tag_bloom_hi, le)
                        &&& h1.tag_bloom_lo == from_be(h0.tag_bloom_lo, le)
                    }
                &&& (r is Ok <==> {
                    &&& h1.version_magic == UDEV_VERSION_MAGIC
                    &&& h0.header_sz >= UDEV_HEADER_SIZE
                    &&& h0.properties_off >= UDEV_HEADER_SIZE
                    &&& h0.properties_off - UDEV_HEADER_SIZE <= old(self).payload@.len()
                    &&& h0.properties_len <= old(self).payload@.len() - (h0.properties_off
                        - UDEV_HEADER_SIZE)
                })
            },
    {
        let m = self.hdr.libudev_magic;
        if !(m[0] == 0x6c && m[1] == 0x69 && m[2] == 0x62 && m[3] == 0x75 && m[4] == 0x64 && m[5]
            == 0x65 && m[6] == 0x76 && m[7] == 0x00) {
            assert(m@ != spec_udev_magic()) by {
                if m@ == spec_udev_magic() {
                    assert(m@[0] == spec_udev_magic()[0]);
                    assert(m@[1] == spec_udev_magic()[1]);
                    assert(m@[2] == spec_udev_magic()[2]);
                    assert(m@[3] == spec_udev_magic()[3]);
                    assert(m@[4] == spec_udev_magic()[4]);
                    assert(m@[5] == spec_udev_magic()[5]);
                    assert(m@[6] == spec_udev_magic()[6]);
                    assert(m@[7] == spec_udev_magic()[7]);
                }
            }
            return Err(());
        }
        assert(m@ =~= spec_udev_magic());
        let le = host_is_little_endian();
        self.hdr.version_magic = from_be_in(self.hdr.version_magic, le);
        self.hdr.subsystem_hash = from_be_in(self.hdr.subsystem_hash, le);
        self.hdr.devtype_hash = from_be_in(self.hdr.devtype_hash, le);
        self.hdr.tag_bloom_hi = from_be_in(self.hdr.tag_bloom_hi, le);
        self.hdr.tag_bloom_lo = from_be_in(self.hdr.tag_bloom_lo, le);

        if self.hdr.version_magic != UDEV_VERSION_MAGIC {
            return Err(());
        }
        if (self.hdr.header_sz as usize) < UDEV_HEADER_SIZE || (self.hdr.properties_off as usize)
            < UDEV_HEADER_SIZE {
            return Err(());
        }
        let actual_payload_off = (self.hdr.properties_off as usize) - UDEV_HEADER_SIZE;
        if actual_payload_off > self.payload.len() {
            return Err(());
        }
        let actual_payload_len = self.payload.len() - actual_payload_off;
        if (self.hdr.properties_len as usize) > actual_payload_len {
            return Err(());
        }
        Ok(())
    }

    /// The entries of the property list: a trailing NUL is dropped, the rest
    /// is split at each NUL, and each piece is split at its first `=`.
    pub fn properties(&self) -> (r: Vec<UdevProperty<'_>>)
        requires
            self.spec_properties_in_range(),
        ensures
            r@.len() == self.spec_properties().len(),
            forall|i: int| 0 <= i < r@.len() ==> (#[trigger] r@[i])@ == self.spec_properties()[i],
    {
        let start = (self.hdr.properties_off as usize) - UDEV_HEADER_SIZE;
        let end = self.hdr.properties_len as usize;
        let all = self.payload.as_slice();
        let mut props = vstd::slice::slice_subrange(all, start, end);
        if props.len() > 0 && props[props.len() - 1] == 0 {
            props = vstd::slice::slice_subrange(props, 0, props.len() - 1);
        }
        let ghost s = props@;
        assert(s == strip_trailing_nul(self.spec_property_bytes()));
        let mut out: Vec<UdevProperty<'_>> = Vec::new();
        let ghost mut done: Seq<Seq<u8>> = Seq::empty();
        let mut piece_start: usize = 0;
        let mut j: usize = 0;
        proof {
            lemma_split_start(s, 0u8);
        }
        while j < props.len()
            invariant
                props@ == s,
                piece_start <= j <= s.len(),
                split_seq(s.subrange(0, j as int), 0u8) == done.push(
                    s.subrange(piece_start as int, j as int),
                ),
                out@.len() == done.len(),
                forall|i: int| 0 <= i < out@.len() ==> (#[trigger] out@[i])@ == spec_property(done[i]),
            decreases s.len() - j,
        {
            proof {
                lemma_split_step(s, 0u8, done, piece_start as int, j as int);
            }
            if props[j] == 0 {
                let piece = vstd::slice::slice_subrange(props, piece_start, j);
                let prop = parse_property(piece);
                proof {
                    done = done.push(piece@);
                }
                out.push(prop);
                piece_start = j + 1;
            }
            j = j + 1;
        }
        let last = vstd::slice::slice_subrange(props, piece_start, props.len());
        let prop = parse_property(last);
        out.push(prop);
        proof {
            assert(s.subrange(0, s.len() as int) == s);
            done = done.push(last@);
        }
        assert(done == split_seq(s, 0u8));
        out
    }
}


/// The first `c` in `s` is found by scanning from position `n`, where none
/// was before it.
proof fn lemma_first_index_scan(s: Seq<u8>, c: u8, n: int)
    requires
        0 <= n <= s.len(),
        forall|m: int| 0 <= m < n ==> s[m] != c,
    ensures
        0 <= first_index(s, c) <= s.len(),
        first_index(s, c) < s.len() ==> s[first_index(s, c)] == c,
        forall|m: int| 0 <= m < first_index(s, c) ==> s[m] != c,
    decreases s.len() - n,
{
    if n == s.len() || s[n] == c {
        crate::seqs::lemma_first_index(s, c, n);
    } else {
        lemma_first_index_scan(s, c, n + 1);
    }
}

/// Each entry of a property list is its key, then, where it has a value, `=`
/// and the value: the key holds no `=`, and an entry has a value exactly
/// when it holds a `=`.
pub proof fn properties_split_at_the_first_equals(entry: Seq<u8>)
    ensures
        ({
            let p = spec_property(entry);
            &&& forall|i: int| 0 <= i < p.key.len() ==> #[trigger] p.key[i] != 0x3du8
            &&& (p.val is None <==> !entry.contains(0x3du8))
            &&& entry == match p.val {
                Some(v) => p.key + seq![0x3du8] + v,
                None => p.key,
            }
        }),
{
    lemma_first_index_scan(entry, 0x3du8, 0);
    let k = first_index(entry, 0x3du8);
    let p = spec_property(entry);
    if k < entry.len() {
        assert(entry =~= p.key + seq![0x3du8] + p.val.unwrap());
        assert(entry.contains(0x3du8)) by {
            assert(entry[k] == 0x3du8);
        }
    } else {
        assert(!entry.contains(0x3du8)) by {
            if entry.contains(0x3du8) {
                let m = choose|m: int| 0 <= m < entry.len() && entry[m] == 0x3du8;
                assert(entry[m] != 0x3du8);
            }
        }
    }
}

} // verus!
