//! Assets embedded in a binary: a fixed-size record that starts with a marker, and the
//! search that finds such records again in a binary's bytes.
use vstd::prelude::*;

verus! {

/// The size in bytes of an encoded asset record.
pub const ENCODED_ASSET_SIZE: usize = 2048;

/// The key that the stored marker is scrambled with.
pub const PREFIX_KEY: u8 = 0xA7;

/// `TOPCOAT_ASSET`, each byte XOR'd with [`PREFIX_KEY`]. Storing the scrambled form means the
/// plain marker only appears in binaries that actually carry an asset record, not in every
/// binary that links this crate.
pub const SCRAMBLED_PREFIX: [u8; 13] = [
    0xF3u8, 0xE8u8, 0xF7u8, 0xE4u8, 0xE8u8, 0xE6u8, 0xF3u8, 0xF8u8, 0xE6u8, 0xF4u8, 0xF4u8, 0xE2u8, 0xF3u8,
];

/// The marker that starts every asset record: the bytes of `TOPCOAT_ASSET`.
pub open spec fn asset_marker() -> Seq<u8> {
    seq![0x54u8, 0x4Fu8, 0x50u8, 0x43u8, 0x4Fu8, 0x41u8, 0x54u8, 0x5Fu8, 0x41u8, 0x53u8, 0x53u8, 0x45u8, 0x54u8]
}

/// The marker, unscrambled.
pub fn asset_prefix() -> (r: [u8; 13])
    ensures
        r@ == asset_marker(),
{
    let mut out = [0u8; 13];
    let mut i: usize = 0;
    while i < 13
        invariant
            i <= 13,
            out@.len() == 13,
            forall|k: int| 0 <= k < i ==> out@[k] == asset_marker()[k],
        decreases 13 - i,
    {
        let s = SCRAMBLED_PREFIX[i];
        let v = s ^ PREFIX_KEY;
        proof {
            let m = asset_marker()[i as int];
            assert(SCRAMBLED_PREFIX@[i as int] == m ^ 0xA7u8) by {
                assert(0x54u8 ^ 0xA7u8 == 0xF3u8) by (bit_vector);
                assert(0x4Fu8 ^ 0xA7u8 == 0xE8u8) by (bit_vector);
                assert(0x50u8 ^ 0xA7u8 == 0xF7u8) by (bit_vector);
                assert(0x43u8 ^ 0xA7u8 == 0xE4u8) by (bit_vector);
                assert(0x41u8 ^ 0xA7u8 == 0xE6u8) by (bit_vector);
                assert(0x5Fu8 ^ 0xA7u8 == 0xF8u8) by (bit_vector);
                assert(0x53u8 ^ 0xA7u8 == 0xF4u8) by (bit_vector);
                assert(0x45u8 ^ 0xA7u8 == 0xE2u8) by (bit_vector);
            }
            assert((m ^ 0xA7u8) ^ 0xA7u8 == m) by (bit_vector);
        }
        out[i] = v;
        i = i + 1;
    }
    assert(out@ =~= asset_marker());
    out
}


/// The FNV-1a offset basis for 64-bit hashes.
pub const FNV_OFFSET_BASIS: u64 = 0xcbf2_9ce4_8422_2325;

/// The FNV-1a prime for 64-bit hashes.
pub const FNV_PRIME: u64 = 0x0000_0100_0000_01b3;

/// One FNV-1a step: XOR in the byte, then multiply by the prime modulo 2^64.
pub open spec fn fnv1a_step(h: u64, b: u8) -> u64 {
    (((h ^ (b as u64)) as nat * FNV_PRIME as nat) % 0x1_0000_0000_0000_0000nat) as u64
}

/// The FNV-1a hash state after feeding `bytes` to the state `h`.
pub open spec fn fnv1a_from(h: u64, bytes: Seq<u8>) -> u64
    decreases bytes.len(),
{
    if bytes.len() == 0 {
        h
    } else {
        fnv1a_from(fnv1a_step(h, bytes[0]), bytes.drop_first())
    }
}

/// The 64-bit FNV-1a hash of `bytes`.
pub open spec fn fnv1a_spec(bytes: Seq<u8>) -> u64 {
    fnv1a_from(FNV_OFFSET_BASIS, bytes)
}

/// Feeding the first `i + 1` bytes is feeding the first `i` and then one more.
proof fn lemma_fnv1a_push(h: u64, bytes: Seq<u8>, b: u8)
    ensures
        fnv1a_from(h, bytes.push(b)) == fnv1a_step(fnv1a_from(h, bytes), b),
    decreases bytes.len(),
{
    if bytes.len() > 0 {
        assert(bytes.push(b).drop_first() =~= bytes.drop_first().push(b));
        assert(bytes.push(b)[0] == bytes[0]);
        lemma_fnv1a_push(fnv1a_step(h, bytes[0]), bytes.drop_first(), b);
    } else {
        assert(bytes.push(b).drop_first() =~= Seq::<u8>::empty());
        assert(bytes.push(b)[0] == b);
        assert(fnv1a_from(fnv1a_step(h, b), Seq::<u8>::empty()) == fnv1a_step(h, b));
    }
}

/// The 64-bit FNV-1a hash of `bytes`.
pub fn fnv1a(bytes: &[u8]) -> (r: u64)
    ensures
        r == fnv1a_spec(bytes@),
{
    let mut h: u64 = FNV_OFFSET_BASIS;
    let mut i: usize = 0;
    while i < bytes.len()
        invariant
            i <= bytes@.len(),
            h == fnv1a_from(FNV_OFFSET_BASIS, bytes@.subrange(0, i as int)),
        decreases bytes@.len() - i,
    {
        proof {
            lemma_fnv1a_push(FNV_OFFSET_BASIS, bytes@.subrange(0, i as int), bytes@[i as int]);
            assert(bytes@.subrange(0, i as int).push(bytes@[i as int]) =~= bytes@.subrange(0, i + 1));
        }
        h = (h ^ (bytes[i] as u64)).wrapping_mul(FNV_PRIME);
        i = i + 1;
    }
    assert(bytes@.subrange(0, i as int) =~= bytes@);
    h
}

/// Identifies an asset by the hash of its path.
#[derive(Clone, Copy, Debug, PartialEq, Eq, Structural)]
pub struct AssetId(u64);

impl View for AssetId {
    type V = u64;

    closed spec fn view(&self) -> u64 {
        self.0
    }
}

impl AssetId {
    /// The id of the asset at `path`: the FNV-1a hash of the path's bytes.
    pub fn from_path(path: &str) -> (r: Self)
        ensures
            r@ == fnv1a_spec(vstd::utf8::encode_utf8(path@)),
    {
        AssetId(fnv1a(path.as_bytes()))
    }

    /// The id with the hash `value`.
    pub fn from_raw(value: u64) -> (r: Self)
        ensures
            r@ == value,
    {
        AssetId(value)
    }

    /// The hash this id holds.
    pub fn raw(&self) -> (r: u64)
        ensures
            r == self@,
    {
        self.0
    }
}


/// The record of one string: its byte length as two little-endian bytes, then its bytes.
pub open spec fn field_bytes(s: Seq<char>) -> Seq<u8> {
    vstd::bytes::spec_u16_to_le_bytes(vstd::utf8::encode_utf8(s).len() as u16) + vstd::utf8::encode_utf8(s)
}

/// What an asset record holds, as plain values.
pub struct AssetSpec {
    pub id: u64,
    pub path: Seq<char>,
    pub crate_name: Seq<char>,
    pub manifest_dir: Seq<char>,
    pub source_file: Seq<char>,
}

/// The meaningful bytes of an asset record: the marker, the id as eight little-endian
/// bytes, then the path, crate name, manifest directory and source file.
pub open spec fn record_payload(a: AssetSpec) -> Seq<u8> {
    asset_marker() + vstd::bytes::spec_u64_to_le_bytes(a.id) + field_bytes(a.path) + field_bytes(a.crate_name)
        + field_bytes(a.manifest_dir) + field_bytes(a.source_file)
}

/// The full record of `a`: its payload, padded with zero bytes to [`ENCODED_ASSET_SIZE`].
pub open spec fn encoded_record(a: AssetSpec) -> Seq<u8> {
    record_payload(a) + Seq::new((ENCODED_ASSET_SIZE - record_payload(a).len()) as nat, |i: int| 0u8)
}

/// The outcome of reading one string record from the front of `b`: the string (where the
/// length fits and the bytes are UTF-8) and the bytes after the record.
pub open spec fn read_str_spec(b: Seq<u8>) -> Option<(Seq<char>, Seq<u8>)> {
    if b.len() < 2 {
        None
    } else {
        let len = vstd::bytes::spec_u16_from_le_bytes(b.subrange(0, 2)) as int;
        if b.len() - 2 < len {
            None
        } else {
            let bytes = b.subrange(2, 2 + len);
            if vstd::utf8::valid_utf8(bytes) {
                Some((vstd::utf8::decode_utf8(bytes), b.subrange(2 + len, b.len() as int)))
            } else {
                None
            }
        }
    }
}

/// The asset that decoding `b` yields: the record starts after the first 13 bytes (where
/// the marker stands), with the id and then four string records.
pub open spec fn decode_spec(b: Seq<u8>) -> Option<AssetSpec> {
    if b.len() < 13 + 8 {
        None
    } else {
        let id = vstd::bytes::spec_u64_from_le_bytes(b.subrange(13, 21));
        let rest = b.subrange(21, b.len() as int);
        match read_str_spec(rest) {
            None => None,
            Some((path, rest)) => match read_str_spec(rest) {
                None => None,
                Some((crate_name, rest)) => match read_str_spec(rest) {
                    None => None,
                    Some((manifest_dir, rest)) => match read_str_spec(rest) {
                        None => None,
                        Some((source_file, _)) => Some(
                            AssetSpec { id, path, crate_name, manifest_dir, source_file },
                        ),
                    },
                },
            },
        }
    }
}

/// Calls `std::str::from_utf8`. The contract claims what its documentation says: it
/// succeeds exactly when the bytes are UTF-8, and then the string's bytes are the input.
#[verifier::external_body]
fn utf8_to_str(v: &[u8]) -> (r: Option<&str>)
    ensures
        r is Some <==> vstd::utf8::valid_utf8(v@),
        r matches Some(s) ==> vstd::utf8::encode_utf8(s@) == v@,
{
    std::str::from_utf8(v).ok()
}

/// Reads one string record from the front of `cur` and moves `cur` past it. Where the
/// record is cut short or not UTF-8, returns `None` and leaves `cur` as it was.
pub fn read_str(cur: &mut &[u8]) -> (r: Option<String>)
    ensures
        match read_str_spec(old(cur)@) {
            Some((s, rest)) => r matches Some(t) && t@ == s && final(cur)@ == rest,
            None => r is None && final(cur)@ == old(cur)@,
        },
{
    let b: &[u8] = *cur;
    if b.len() < 2 {
        return None;
    }
    let len_bytes = vstd::slice::slice_subrange(b, 0, 2);
    let len = vstd::bytes::u16_from_le_bytes(len_bytes) as usize;
    if b.len() - 2 < len {
        return None;
    }
    let bytes = vstd::slice::slice_subrange(b, 2, 2 + len);
    match utf8_to_str(bytes) {
        None => None,
        Some(s) => {
            proof {
                vstd::utf8::encode_utf8_decode_utf8(s@);
            }
            let owned = s.to_owned();
            *cur = vstd::slice::slice_subrange(b, 2 + len, b.len());
            Some(owned)
        },
    }
}

/// An asset as a binary carries it: its id, path, crate and where it was declared.
#[derive(Debug, Clone)]
pub struct Asset {
    id: AssetId,
    path: String,
    crate_name: String,
    manifest_dir: String,
    source_file: String,
}

impl View for Asset {
    type V = AssetSpec;

    closed spec fn view(&self) -> AssetSpec {
        AssetSpec {
            id: self.id@,
            path: self.path@,
            crate_name: self.crate_name@,
            manifest_dir: self.manifest_dir@,
            source_file: self.source_file@,
        }
    }
}

/// A byte buffer of [`ENCODED_ASSET_SIZE`] bytes, filled from the front.
struct ConstWriter {
    buf: [u8; 2048],
    pos: usize,
}

impl ConstWriter {
    /// Copies `bytes` into the buffer at the current position and moves past them.
    fn write_bytes(&mut self, bytes: &[u8])
        requires
            old(self).pos + bytes@.len() <= 2048,
        ensures
            final(self).pos == old(self).pos + bytes@.len(),
            final(self).buf@ == old(self).buf@.subrange(0, old(self).pos as int) + bytes@
                + old(self).buf@.subrange(old(self).pos + bytes@.len(), 2048),
    {
        let mut i: usize = 0;
        while i < bytes.len()
            invariant
                i <= bytes@.len(),
                old(self).pos + bytes@.len() <= 2048,
                self.pos == old(self).pos + i,
                self.buf@.len() == 2048,
                self.buf@ == old(self).buf@.subrange(0, old(self).pos as int) + bytes@.subrange(0, i as int)
                    + old(self).buf@.subrange(old(self).pos + i, 2048),
            decreases bytes@.len() - i,
        {
            let p = self.pos;
            self.buf[p] = bytes[i];
            self.pos = p + 1;
            i = i + 1;
            assert(self.buf@ =~= old(self).buf@.subrange(0, old(self).pos as int) + bytes@.subrange(0, i as int)
                + old(self).buf@.subrange(old(self).pos + i, 2048));
        }
        assert(bytes@.subrange(0, i as int) =~= bytes@);
    }

    /// Writes the string record of `s`: its byte length, then its bytes.
    fn write_str(&mut self, s: &str)
        requires
            old(self).pos + field_bytes(s@).len() <= 2048,
        ensures
            final(self).pos == old(self).pos + field_bytes(s@).len(),
            final(self).buf@ == old(self).buf@.subrange(0, old(self).pos as int) + field_bytes(s@)
                + old(self).buf@.subrange(old(self).pos + field_bytes(s@).len(), 2048),
    {
        let bytes = s.as_bytes();
        proof {
            vstd::bytes::lemma_auto_spec_u16_to_from_le_bytes();
        }
        let len = bytes.len() as u16;
        let len_bytes = vstd::bytes::u16_to_le_bytes(len);
        let ghost before = self.buf@;
        let ghost p0 = self.pos;
        self.write_bytes(len_bytes.as_slice());
        self.write_bytes(bytes);
        assert(self.buf@ =~= before.subrange(0, p0 as int) + field_bytes(s@)
            + before.subrange(p0 + field_bytes(s@).len(), 2048));
    }
}

/// Reading the record of `s` from the front of `field_bytes(s) + tail` yields `s` and `tail`,
/// where the string's bytes fit a two-byte length.
proof fn lemma_read_field(s: Seq<char>, tail: Seq<u8>)
    requires
        vstd::utf8::encode_utf8(s).len() < 0x10000,
    ensures
        read_str_spec(field_bytes(s) + tail) == Some((s, tail)),
{
    let e = vstd::utf8::encode_utf8(s);
    let b = field_bytes(s) + tail;
    vstd::bytes::lemma_auto_spec_u16_to_from_le_bytes();
    assert(b.subrange(0, 2) =~= vstd::bytes::spec_u16_to_le_bytes(e.len() as u16));
    assert(b.subrange(2, 2 + e.len() as int) =~= e);
    assert(b.subrange(2 + e.len() as int, b.len() as int) =~= tail);
    vstd::utf8::encode_utf8_valid_utf8(s);
    vstd::utf8::encode_utf8_decode_utf8(s);
}

/// Decoding the record that encoding `a` yields, followed by any bytes `y`, gives `a`
/// back, whenever the record fits: decoding reads nothing past the record.
proof fn lemma_decode_record_then(a: AssetSpec, y: Seq<u8>)
    requires
        record_payload(a).len() <= ENCODED_ASSET_SIZE,
    ensures
        decode_spec(encoded_record(a) + y) == Some(a),
{
    let b = encoded_record(a) + y;
    let zeros = Seq::new((ENCODED_ASSET_SIZE - record_payload(a).len()) as nat, |i: int| 0u8);
    let f1 = field_bytes(a.path);
    let f2 = field_bytes(a.crate_name);
    let f3 = field_bytes(a.manifest_dir);
    let f4 = field_bytes(a.source_file);
    let tail = zeros + y;
    vstd::bytes::lemma_auto_spec_u64_to_from_le_bytes();
    let idb = vstd::bytes::spec_u64_to_le_bytes(a.id);
    assert(b =~= asset_marker() + idb + f1 + f2 + f3 + f4 + tail);
    assert(b.subrange(13, 21) =~= idb);
    let r1 = f2 + f3 + f4 + tail;
    let r2 = f3 + f4 + tail;
    let r3 = f4 + tail;
    assert(b.subrange(21, b.len() as int) =~= f1 + r1);
    assert(f1 + r1 =~= field_bytes(a.path) + r1);
    assert(r1 =~= f2 + r2);
    assert(r2 =~= f3 + r3);
    lemma_read_field(a.path, r1);
    lemma_read_field(a.crate_name, r2);
    lemma_read_field(a.manifest_dir, r3);
    lemma_read_field(a.source_file, tail);
}

/// Decoding the record that encoding `a` yields gives `a` back, whenever the record fits.
pub proof fn lemma_decode_encode(a: AssetSpec)
    requires
        record_payload(a).len() <= ENCODED_ASSET_SIZE,
    ensures
        decode_spec(encoded_record(a)) == Some(a),
{
    lemma_decode_record_then(a, Seq::empty());
    assert(encoded_record(a) + Seq::<u8>::empty() =~= encoded_record(a));
}

impl Asset {
    /// The record of an asset: the marker, the id, then the path, crate name, manifest
    /// directory and source file, each as a two-byte length and its bytes, padded with zero
    /// bytes to [`ENCODED_ASSET_SIZE`]. The fields must fit in the record.
    pub fn encode(
        id: AssetId,
        path: &str,
        crate_name: &str,
        manifest_dir: &str,
        source_file: &str,
    ) -> (r: [u8; 2048])
        requires
            record_payload(AssetSpec { id: id@, path: path@, crate_name: crate_name@, manifest_dir: manifest_dir@, source_file: source_file@ }).len() <= ENCODED_ASSET_SIZE,
        ensures
            r@ == encoded_record(AssetSpec { id: id@, path: path@, crate_name: crate_name@, manifest_dir: manifest_dir@, source_file: source_file@ }),
    {
        let ghost a = AssetSpec { id: id@, path: path@, crate_name: crate_name@, manifest_dir: manifest_dir@, source_file: source_file@ };
        let mut w = ConstWriter { buf: [0u8; 2048], pos: 0 };
        assert(w.buf@ =~= Seq::new(2048, |i: int| 0u8));
        let prefix = asset_prefix();
        w.write_bytes(prefix.as_slice());
        let id_bytes = vstd::bytes::u64_to_le_bytes(id.0);
        proof {
            vstd::bytes::lemma_auto_spec_u64_to_from_le_bytes();
        }
        w.write_bytes(id_bytes.as_slice());
        w.write_str(path);
        w.write_str(crate_name);
        w.write_str(manifest_dir);
        w.write_str(source_file);
        let ghost payload = record_payload(a);
        assert(w.buf@ =~= payload + Seq::new((ENCODED_ASSET_SIZE - payload.len()) as nat, |i: int| 0u8));
        w.buf
    }

    /// Decodes the record at the front of `buffer`: skips the 13 marker bytes, then reads the
    /// id and the four strings. Returns `None` where the record is cut short or a string is
    /// not UTF-8.
    pub fn decode(buffer: &[u8]) -> (r: Option<Self>)
        ensures
            match decode_spec(buffer@) {
                Some(a) => r matches Some(x) && x@ == a,
                None => r is None,
            },
    {
        if buffer.len() < 21 {
            return None;
        }
        let id_bytes = vstd::slice::slice_subrange(buffer, 13, 21);
        let id = AssetId(vstd::bytes::u64_from_le_bytes(id_bytes));
        let mut cur = vstd::slice::slice_subrange(buffer, 21, buffer.len());
        let path = match read_str(&mut cur) {
            Some(s) => s,
            None => return None,
        };
        let crate_name = match read_str(&mut cur) {
            Some(s) => s,
            None => return None,
        };
        let manifest_dir = match read_str(&mut cur) {
            Some(s) => s,
            None => return None,
        };
        let source_file = match read_str(&mut cur) {
            Some(s) => s,
            None => return None,
        };
        Some(Asset { id, path, crate_name, manifest_dir, source_file })
    }

    /// The asset's id.
    pub fn id(&self) -> (r: AssetId)
        ensures
            r@ == self@.id,
    {
        self.id
    }

    /// The asset's path, as written where it was declared.
    pub fn path(&self) -> (r: &str)
        ensures
            r@ == self@.path,
    {
        self.path.as_str()
    }

    /// The name of the crate that declared the asset.
    pub fn crate_name(&self) -> (r: &str)
        ensures
            r@ == self@.crate_name,
    {
        self.crate_name.as_str()
    }

    /// The manifest directory of the crate that declared the asset.
    pub fn manifest_dir(&self) -> (r: &str)
        ensures
            r@ == self@.manifest_dir,
    {
        self.manifest_dir.as_str()
    }

    /// The source file that declared the asset.
    pub fn source_file(&self) -> (r: &str)
        ensures
            r@ == self@.source_file,
    {
        self.source_file.as_str()
    }
}


/// `needle` occurs in `hay` at `i`.
pub open spec fn occurs_at(hay: Seq<u8>, needle: Seq<u8>, i: int) -> bool {
    0 <= i && i + needle.len() <= hay.len() && hay.subrange(i, i + needle.len()) == needle
}

/// The positions of the non-overlapping occurrences of `needle` in `hay` at or after `i`,
/// found from left to right, each search resuming after the previous occurrence.
pub open spec fn occurrences_from(hay: Seq<u8>, needle: Seq<u8>, i: int) -> Seq<usize>
    recommends
        needle.len() > 0,
    decreases hay.len() - i,
{
    if needle.len() == 0 || i < 0 || i + needle.len() > hay.len() {
        Seq::empty()
    } else if occurs_at(hay, needle, i) {
        seq![i as usize] + occurrences_from(hay, needle, i + needle.len())
    } else {
        occurrences_from(hay, needle, i + 1)
    }
}

/// Calls memchr's `memmem::find_iter` and collects the positions it yields. The contract
/// claims what its documentation says: the positions of all non-overlapping occurrences of
/// `needle` in `hay`, from left to right.
#[verifier::external_body]
fn find_occurrences(hay: &[u8], needle: &[u8]) -> (r: Vec<usize>)
    requires
        needle@.len() > 0,
    ensures
        r@ == occurrences_from(hay@, needle@, 0),
{
    memchr::memmem::find_iter(hay, needle).collect()
}

/// The assets that decoding at each of `positions` in `b` yields, in order, skipping the
/// positions where decoding fails.
pub open spec fn decoded_at(b: Seq<u8>, positions: Seq<usize>) -> Seq<AssetSpec>
    decreases positions.len(),
{
    if positions.len() == 0 {
        Seq::empty()
    } else {
        let rest = decoded_at(b, positions.drop_last());
        let p = positions.last() as int;
        match decode_spec(b.subrange(if p <= b.len() { p } else { b.len() as int }, b.len() as int)) {
            Some(a) => rest.push(a),
            None => rest,
        }
    }
}

impl Asset {
    /// Every asset record in `binary`: each occurrence of the marker (non-overlapping, from
    /// left to right) that a record decodes from.
    pub fn find_in_binary(binary: &[u8]) -> (r: Vec<Self>)
        ensures
            r@.map_values(|a: Asset| a@) == decoded_at(binary@, occurrences_from(binary@, asset_marker(), 0)),
    {
        let prefix = asset_prefix();
        let positions = find_occurrences(binary, prefix.as_slice());
        let ghost ps = positions@;
        let mut out: Vec<Asset> = Vec::new();
        let mut i: usize = 0;
        while i < positions.len()
            invariant
                i <= positions@.len(),
                ps == positions@,
                out@.map_values(|a: Asset| a@) == decoded_at(binary@, ps.subrange(0, i as int)),
            decreases positions@.len() - i,
        {
            let p = positions[i];
            let start = if p <= binary.len() { p } else { binary.len() };
            let tail = vstd::slice::slice_subrange(binary, start, binary.len());
            assert(ps.subrange(0, i + 1).drop_last() =~= ps.subrange(0, i as int));
            let ghost before = out@;
            match Asset::decode(tail) {
                Some(a) => {
                    out.push(a);
                    assert(out@.map_values(|a: Asset| a@) =~= before.map_values(|a: Asset| a@).push(a@));
                },
                None => {},
            }
            i = i + 1;
        }
        assert(ps.subrange(0, i as int) =~= ps);
        out
    }
}

/// Where `needle` occurs nowhere in `hay` at or after `i`, no occurrence is found there.
proof fn lemma_occurrences_none(hay: Seq<u8>, needle: Seq<u8>, i: int)
    requires
        needle.len() > 0,
        forall|j: int| j >= i ==> !occurs_at(hay, needle, j),
    ensures
        occurrences_from(hay, needle, i) == Seq::<usize>::empty(),
    decreases hay.len() - i,
{
    if !(i < 0 || i + needle.len() > hay.len()) {
        assert(!occurs_at(hay, needle, i));
        lemma_occurrences_none(hay, needle, i + 1);
    }
}

/// Where `needle` occurs in `hay` at or after `i` only at `p`, that is the one occurrence found.
proof fn lemma_occurrences_single(hay: Seq<u8>, needle: Seq<u8>, i: int, p: int)
    requires
        needle.len() > 0,
        0 <= i <= p,
        p <= usize::MAX,
        occurs_at(hay, needle, p),
        forall|j: int| j >= i && j != p ==> !occurs_at(hay, needle, j),
    ensures
        occurrences_from(hay, needle, i) == seq![p as usize],
    decreases p - i,
{
    if i == p {
        lemma_occurrences_none(hay, needle, i + needle.len());
        assert(seq![p as usize] + Seq::<usize>::empty() =~= seq![p as usize]);
    } else {
        assert(!occurs_at(hay, needle, i));
        lemma_occurrences_single(hay, needle, i + 1, p);
    }
}

/// A binary that holds the record of `a` between `x` and `y`, with the marker nowhere else,
/// yields `a` and nothing more: [`Asset::find_in_binary`] finds exactly that asset.
pub proof fn lemma_find_single_record(x: Seq<u8>, a: AssetSpec, y: Seq<u8>)
    requires
        record_payload(a).len() <= ENCODED_ASSET_SIZE,
        x.len() <= usize::MAX,
        forall|j: int| j != x.len() ==> !occurs_at(#[trigger] (x + encoded_record(a) + y), asset_marker(), j),
    ensures
        decoded_at(x + encoded_record(a) + y, occurrences_from(x + encoded_record(a) + y, asset_marker(), 0))
            == seq![a],
{
    let e = encoded_record(a);
    let b = x + e + y;
    let p = x.len() as int;
    assert(b.subrange(p, p + 13) =~= asset_marker());
    assert(occurs_at(b, asset_marker(), p));
    assert forall|j: int| j >= 0 && j != p implies !occurs_at(b, asset_marker(), j) by {}
    lemma_occurrences_single(b, asset_marker(), 0, p);
    assert(b.subrange(p, b.len() as int) =~= e + y);
    lemma_decode_record_then(a, y);
    let ps = seq![p as usize];
    assert(ps.drop_last() =~= Seq::<usize>::empty());
    assert(ps.last() as int == p);
    assert(p <= b.len());
    assert(decode_spec(b.subrange(p, b.len() as int)) == Some(a));
    assert(decoded_at(b, ps.drop_last()) == Seq::<AssetSpec>::empty());
    assert(decoded_at(b, ps) == Seq::<AssetSpec>::empty().push(a));
    assert(decoded_at(b, ps) =~= seq![a]);
}

} // verus!
