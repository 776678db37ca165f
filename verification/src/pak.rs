//! The asset pack format.
//!
//! A pack is the compressed files one after another, then an index, then a
//! twenty-byte footer: the magic `BPAK`, the format version (1) as a
//! little-endian `u32`, the index's offset as a `u64` and the number of
//! entries as a `u32`.  An index entry is the path's byte length (`u32`),
//! the path, and the file's offset, compressed size and size (`u64` each).
use vstd::prelude::*;
use vstd::utf8::{decode_utf8, encode_utf8, encode_utf8_decode_utf8, encode_utf8_valid_utf8, valid_utf8};
use crate::strmap::StrMap;
use crate::text::{
    byte_len, chars_of, concat, find_char, find_char_spec, lemma_find_char_from_bound, slice_of, starts_with,
    starts_with_spec, string_of, tail, trim_start_matches_spec, trim_start_matches_str, u64_chars,
};

verus! {

// ------------------------------------------------------------------
// Little-endian numbers
// ------------------------------------------------------------------

/// The little-endian `u32` at `p`.
pub open spec fn le_u32(d: Seq<u8>, p: int) -> int {
    d[p] as int + d[p + 1] as int * 0x100 + d[p + 2] as int * 0x1_0000 + d[p + 3] as int * 0x100_0000
}

/// The little-endian `u64` at `p`.
pub open spec fn le_u64(d: Seq<u8>, p: int) -> int {
    le_u32(d, p) + le_u32(d, p + 4) * 0x1_0000_0000
}

/// The four little-endian bytes of `v`.
#[verifier::opaque]
pub open spec fn u32_bytes(v: int) -> Seq<u8> {
    seq![(v % 0x100) as u8, ((v / 0x100) % 0x100) as u8, ((v / 0x1_0000) % 0x100) as u8, ((v / 0x100_0000) % 0x100) as u8]
}

/// The eight little-endian bytes of `v`.
#[verifier::opaque]
pub open spec fn u64_bytes(v: int) -> Seq<u8> {
    u32_bytes(v % 0x1_0000_0000) + u32_bytes(v / 0x1_0000_0000)
}

/// The four bytes of a `u32` read back as its value.
pub proof fn lemma_u32_bytes(v: int)
    requires
        0 <= v < 0x1_0000_0000,
    ensures
        u32_bytes(v).len() == 4,
        le_u32(u32_bytes(v), 0) == v,
{
    reveal(u32_bytes);
    let b = u32_bytes(v);
    assert(b[0] as int == v % 0x100);
    assert(b[1] as int == (v / 0x100) % 0x100);
    assert(b[2] as int == (v / 0x1_0000) % 0x100);
    assert(b[3] as int == (v / 0x100_0000) % 0x100);
    assert(v % 0x100 + ((v / 0x100) % 0x100) * 0x100 + ((v / 0x1_0000) % 0x100) * 0x1_0000
        + ((v / 0x100_0000) % 0x100) * 0x100_0000 == v) by (nonlinear_arith)
        requires
            0 <= v < 0x1_0000_0000,
    ;
}

/// The eight bytes of a `u64` read back as its value.
pub proof fn lemma_u64_bytes(v: int)
    requires
        0 <= v < 0x1_0000_0000_0000_0000,
    ensures
        u64_bytes(v).len() == 8,
        le_u64(u64_bytes(v), 0) == v,
{
    let lo = v % 0x1_0000_0000;
    let hi = v / 0x1_0000_0000;
    assert(0 <= lo < 0x1_0000_0000 && 0 <= hi < 0x1_0000_0000 && lo + hi * 0x1_0000_0000 == v) by (nonlinear_arith)
        requires
            0 <= v < 0x1_0000_0000_0000_0000,
            lo == v % 0x1_0000_0000,
            hi == v / 0x1_0000_0000,
    ;
    lemma_u32_bytes(lo);
    lemma_u32_bytes(hi);
    reveal(u64_bytes);
    let b = u64_bytes(v);
    assert(b.subrange(0, 4) =~= u32_bytes(lo));
    assert(b.subrange(4, 8) =~= u32_bytes(hi));
    assert(le_u32(b, 0) == le_u32(u32_bytes(lo), 0));
    assert(le_u32(b, 4) == le_u32(u32_bytes(hi), 0));
}

fn u32_at(d: &[u8], p: usize) -> (r: u32)
    requires
        p + 4 <= d@.len(),
    ensures
        r as int == le_u32(d@, p as int),
{
    (d[p] as u32) + (d[p + 1] as u32) * 0x100 + (d[p + 2] as u32) * 0x1_0000 + (d[p + 3] as u32) * 0x100_0000
}

fn u64_at(d: &[u8], p: usize) -> (r: u64)
    requires
        p + 8 <= d@.len(),
    ensures
        r as int == le_u64(d@, p as int),
{
    let n = d.len();
    let lo = u32_at(d, p) as u64;
    let hi = u32_at(d, p + 4) as u64;
    lo + hi * 0x1_0000_0000
}

pub(crate) fn push_u32(v: &mut Vec<u8>, x: u32)
    ensures
        final(v)@ == old(v)@ + u32_bytes(x as int),
{
    v.push((x % 0x100) as u8);
    v.push(((x / 0x100) % 0x100) as u8);
    v.push(((x / 0x1_0000) % 0x100) as u8);
    v.push(((x / 0x100_0000) % 0x100) as u8);
    reveal(u32_bytes);
    assert(v@ =~= old(v)@ + u32_bytes(x as int));
}

fn push_u64(v: &mut Vec<u8>, x: u64)
    ensures
        final(v)@ == old(v)@ + u64_bytes(x as int),
{
    push_u32(v, (x % 0x1_0000_0000) as u32);
    push_u32(v, (x / 0x1_0000_0000) as u32);
    reveal(u64_bytes);
    assert(v@ =~= old(v)@ + u64_bytes(x as int));
}

pub(crate) fn push_bytes(v: &mut Vec<u8>, b: &[u8])
    ensures
        final(v)@ == old(v)@ + b@,
{
    let mut i: usize = 0;
    let ghost start = v@;
    while i < b.len()
        invariant
            i <= b@.len(),
            v@ == start + b@.subrange(0, i as int),
        decreases b@.len() - i,
    {
        v.push(b[i]);
        i = i + 1;
        assert(v@ =~= start + b@.subrange(0, i as int));
    }
    assert(b@.subrange(0, b@.len() as int) =~= b@);
}

// ------------------------------------------------------------------
// Reading the index
// ------------------------------------------------------------------

/// Where a file lies in a pack.
#[derive(Clone, Copy, Debug, PartialEq, Eq, Structural)]
pub struct PakEntry {
    pub offset: u64,
    pub compressed_size: u64,
    pub uncompressed_size: u64,
}

/// Why bytes are not a pack.
#[derive(Clone, Copy, Debug, PartialEq, Eq, Structural)]
pub enum PakError {
    /// Fewer than twenty bytes.
    TooSmall,
    /// The footer does not start with `BPAK`; the four bytes found.
    InvalidMagic(u8, u8, u8, u8),
    /// The footer names another format version.
    UnsupportedVersion(u32),
}

/// What lossy UTF-8 decoding (std's `String::from_utf8_lossy`) makes of
/// bytes that are not valid UTF-8: each invalid sequence becomes U+FFFD.
pub uninterp spec fn utf8_lossy(b: Seq<u8>) -> Seq<char>;

/// The text of a path's bytes.
pub open spec fn path_text(b: Seq<u8>) -> Seq<char> {
    if valid_utf8(b) {
        decode_utf8(b)
    } else {
        utf8_lossy(b)
    }
}

/// Decodes bytes as UTF-8, replacing invalid sequences (std's
/// `String::from_utf8_lossy`): valid bytes give the characters they
/// encode; what other bytes give is left to the name `utf8_lossy`.
#[verifier::external_body]
fn lossy_string(b: &[u8]) -> (r: String)
    ensures
        valid_utf8(b@) ==> r@ == decode_utf8(b@),
        !valid_utf8(b@) ==> r@ == utf8_lossy(b@),
{
    String::from_utf8_lossy(b).to_string()
}

/// The footer: the index's offset (as a `usize`) and the number of
/// entries.
pub open spec fn footer_spec(d: Seq<u8>) -> Result<(int, int), PakError> {
    if d.len() < 20 {
        Err(PakError::TooSmall)
    } else {
        let f = d.len() - 20;
        if !(d[f] == 0x42 && d[f + 1] == 0x50 && d[f + 2] == 0x41 && d[f + 3] == 0x4B) {
            Err(PakError::InvalidMagic(d[f], d[f + 1], d[f + 2], d[f + 3]))
        } else if le_u32(d, f + 4) != 1 {
            Err(PakError::UnsupportedVersion(le_u32(d, f + 4) as u32))
        } else {
            Ok(((le_u64(d, f + 8) as usize) as int, le_u32(d, f + 16)))
        }
    }
}

/// The index entry at `c`: its path, where the file lies, and where the
/// next entry starts; `None` where the entry runs past the end.
pub open spec fn entry_at(d: Seq<u8>, c: int) -> Option<(Seq<char>, PakEntry, int)> {
    if !(0 <= c && c + 4 <= d.len()) {
        None
    } else {
        let pl = le_u32(d, c);
        let c1 = c + 4;
        if c1 + pl + 24 > d.len() {
            None
        } else {
            Some((
                path_text(d.subrange(c1, c1 + pl)),
                PakEntry {
                    offset: le_u64(d, c1 + pl) as u64,
                    compressed_size: le_u64(d, c1 + pl + 8) as u64,
                    uncompressed_size: le_u64(d, c1 + pl + 16) as u64,
                },
                c1 + pl + 24,
            ))
        }
    }
}

/// The map after reading `k` entries from `c`; a later entry for a path
/// replaces an earlier one.
pub open spec fn index_fold(d: Seq<u8>, c: int, k: nat, acc: Map<Seq<char>, PakEntry>) -> Option<Map<Seq<char>, PakEntry>>
    decreases k,
{
    if k == 0 {
        Some(acc)
    } else {
        match entry_at(d, c) {
            None => None,
            Some((p, e, c2)) => index_fold(d, c2, (k - 1) as nat, acc.insert(p, e)),
        }
    }
}

/// The entries of a pack, by path; `None` where an entry runs past the end
/// of the bytes.
pub open spec fn pak_entries_spec(d: Seq<u8>) -> Option<Result<Map<Seq<char>, PakEntry>, PakError>> {
    match footer_spec(d) {
        Err(e) => Some(Err(e)),
        Ok((off, n)) => match index_fold(d, off, n as nat, Map::empty()) {
            None => None,
            Some(m) => Some(Ok(m)),
        },
    }
}

fn entry_at_exec(d: &[u8], c: usize) -> (r: Option<(String, PakEntry, usize)>)
    ensures
        match r {
            None => entry_at(d@, c as int) is None,
            Some((p, e, c2)) => entry_at(d@, c as int) == Some((p@, e, c2 as int)),
        },
{
    let n = d.len();
    if c > n || n - c < 4 {
        return None;
    }
    let pl = u32_at(d, c) as usize;
    let c1 = c + 4;
    if n - c1 < pl || n - c1 - pl < 24 {
        return None;
    }
    let mut path: Vec<u8> = Vec::new();
    let mut i = c1;
    let end = c1 + pl;
    while i < end
        invariant
            end == c1 + pl,
            c1 <= i <= end <= d@.len(),
            path@ == d@.subrange(c1 as int, i as int),
        decreases end - i,
    {
        path.push(d[i]);
        i = i + 1;
        assert(path@ =~= d@.subrange(c1 as int, i as int));
    }
    let p = lossy_string(path.as_slice());
    let q = c1 + pl;
    let e = PakEntry { offset: u64_at(d, q), compressed_size: u64_at(d, q + 8), uncompressed_size: u64_at(d, q + 16) };
    Some((p, e, q + 24))
}

/// Reads the entries of a pack; `None` where an entry runs past the end of
/// the bytes.
pub fn try_parse_pak_entries(data: &[u8]) -> (r: Option<Result<StrMap<PakEntry>, PakError>>)
    ensures
        match r {
            None => pak_entries_spec(data@) is None,
            Some(Ok(m)) => m.wf() && pak_entries_spec(data@) == Some(Ok::<Map<Seq<char>, PakEntry>, PakError>(m.view())),
            Some(Err(e)) => pak_entries_spec(data@) == Some(Err::<Map<Seq<char>, PakEntry>, PakError>(e)),
        },
{
    let n = data.len();
    if n < 20 {
        return Some(Err(PakError::TooSmall));
    }
    let f = n - 20;
    if !(data[f] == 0x42 && data[f + 1] == 0x50 && data[f + 2] == 0x41 && data[f + 3] == 0x4B) {
        return Some(Err(PakError::InvalidMagic(data[f], data[f + 1], data[f + 2], data[f + 3])));
    }
    let version = u32_at(data, f + 4);
    if version != 1 {
        return Some(Err(PakError::UnsupportedVersion(version)));
    }
    let off64 = u64_at(data, f + 8);
    let index_offset = off64 as usize;
    let count = u32_at(data, f + 16);
    assert(footer_spec(data@) == Ok::<(int, int), PakError>((index_offset as int, count as int)));
    let mut m: StrMap<PakEntry> = StrMap::new();
    let mut cursor = index_offset;
    let mut k: u32 = 0;
    while k < count
        invariant
            k <= count,
            m.wf(),
            footer_spec(data@) == Ok::<(int, int), PakError>((index_offset as int, count as int)),
            index_fold(data@, index_offset as int, count as nat, Map::empty())
                == index_fold(data@, cursor as int, (count - k) as nat, m.view()),
        decreases count - k,
    {
        match entry_at_exec(data, cursor) {
            None => return None,
            Some((p, e, c2)) => {
                let pk = chars_of(p.as_str());
                m.insert(&pk, e);
                cursor = c2;
            },
        }
        k = k + 1;
    }
    Some(Ok(m))
}

/// Reads the entries of a pack.
pub fn parse_pak_entries(data: &[u8]) -> (r: Result<StrMap<PakEntry>, PakError>)
    requires
        pak_entries_spec(data@) is Some,
    ensures
        match r {
            Ok(m) => m.wf() && pak_entries_spec(data@) == Some(Ok::<Map<Seq<char>, PakEntry>, PakError>(m.view())),
            Err(e) => pak_entries_spec(data@) == Some(Err::<Map<Seq<char>, PakEntry>, PakError>(e)),
        },
{
    match try_parse_pak_entries(data) {
        Some(r) => r,
        None => Err(PakError::TooSmall),
    }
}

// ------------------------------------------------------------------
// Writing a pack
// ------------------------------------------------------------------

/// An entry of a pack's index: a path and where its file lies.
pub struct IndexEntry {
    pub path: String,
    pub offset: u64,
    pub compressed_size: u64,
    pub uncompressed_size: u64,
}

pub open spec fn index_view(v: Seq<IndexEntry>) -> Seq<(Seq<char>, PakEntry)> {
    v.map_values(|e: IndexEntry| (e.path@, PakEntry { offset: e.offset, compressed_size: e.compressed_size, uncompressed_size: e.uncompressed_size }))
}

/// The bytes of one index entry.
pub open spec fn index_entry_bytes(path: Seq<char>, e: PakEntry) -> Seq<u8> {
    u32_bytes((byte_len(path) as u32) as int) + encode_utf8(path) + u64_bytes(e.offset as int) + u64_bytes(e.compressed_size as int)
        + u64_bytes(e.uncompressed_size as int)
}

/// The bytes of an index.
pub open spec fn index_bytes(ix: Seq<(Seq<char>, PakEntry)>) -> Seq<u8>
    decreases ix.len(),
{
    if ix.len() == 0 {
        Seq::empty()
    } else {
        index_bytes(ix.drop_last()) + index_entry_bytes(ix.last().0, ix.last().1)
    }
}

/// The footer of a pack whose index starts at `index_offset`.
pub open spec fn footer_bytes(index_offset: int, count: int) -> Seq<u8> {
    seq![0x42u8, 0x50u8, 0x41u8, 0x4Bu8] + u32_bytes(1) + u64_bytes(index_offset) + u32_bytes(count)
}

/// A whole pack: the data, the index and the footer.
pub open spec fn pak_bytes(data: Seq<u8>, ix: Seq<(Seq<char>, PakEntry)>) -> Seq<u8> {
    data + index_bytes(ix) + footer_bytes(data.len() as int, (ix.len() as u32) as int)
}

/// Every path's byte length fits a `u32`.
pub open spec fn paths_fit(ix: Seq<(Seq<char>, PakEntry)>) -> bool {
    forall|i: int| 0 <= i < ix.len() ==> byte_len(#[trigger] ix[i].0) <= u32::MAX
}

fn push_index_entry(pak: &mut Vec<u8>, e: &IndexEntry)
    ensures
        final(pak)@ == old(pak)@ + index_entry_bytes(e.path@, PakEntry {
            offset: e.offset,
            compressed_size: e.compressed_size,
            uncompressed_size: e.uncompressed_size,
        }),
{
    let pb = e.path.as_str().as_bytes();
    push_u32(pak, pb.len() as u32);
    push_bytes(pak, pb);
    push_u64(pak, e.offset);
    push_u64(pak, e.compressed_size);
    push_u64(pak, e.uncompressed_size);
    assert(pak@ =~= old(pak)@ + index_entry_bytes(e.path@, PakEntry {
        offset: e.offset,
        compressed_size: e.compressed_size,
        uncompressed_size: e.uncompressed_size,
    }));
}

fn push_footer(pak: &mut Vec<u8>, index_offset: u64, count: u32)
    ensures
        final(pak)@ == old(pak)@ + footer_bytes(index_offset as int, count as int),
{
    pak.push(0x42);
    pak.push(0x50);
    pak.push(0x41);
    pak.push(0x4B);
    push_u32(pak, 1);
    push_u64(pak, index_offset);
    push_u32(pak, count);
    assert(pak@ =~= old(pak)@ + footer_bytes(index_offset as int, count as int));
}

/// Lays out a pack: the data section, then the index, then the footer.
/// Path lengths and the entry count are written as `u32`, cut to 32 bits.
pub fn write_pak(data_section: &Vec<u8>, index: &Vec<IndexEntry>) -> (pak: Vec<u8>)
    ensures
        pak@ == pak_bytes(data_section@, index_view(index@)),
{
    let mut pak: Vec<u8> = Vec::new();
    push_bytes(&mut pak, data_section.as_slice());
    let index_offset = pak.len() as u64;
    assert(pak@ =~= data_section@);
    let ghost ixv = index_view(index@);
    let mut i: usize = 0;
    assert(ixv.take(0) =~= Seq::<(Seq<char>, PakEntry)>::empty());
    assert(pak@ =~= data_section@ + index_bytes(ixv.take(0)));
    while i < index.len()
        invariant
            i <= index@.len(),
            ixv == index_view(index@),
            pak@ == data_section@ + index_bytes(ixv.take(i as int)),
        decreases index@.len() - i,
    {
        let e = &index[i];
        assert(ixv[i as int].0 == e.path@);
        let ghost before = pak@;
        push_index_entry(&mut pak, e);
        assert(ixv.take(i + 1).drop_last() =~= ixv.take(i as int));
        assert(ixv.take(i + 1).last() == ixv[i as int]);
        assert(pak@ =~= data_section@ + index_bytes(ixv.take(i + 1)));
        i = i + 1;
    }
    assert(ixv.take(index@.len() as int) =~= ixv);
    push_footer(&mut pak, index_offset, index.len() as u32);
    pak
}

// ------------------------------------------------------------------
// Reading back what was written
// ------------------------------------------------------------------

/// The entries of an index, by path; a later entry for a path replaces an
/// earlier one.
pub open spec fn index_map(ix: Seq<(Seq<char>, PakEntry)>) -> Map<Seq<char>, PakEntry>
    decreases ix.len(),
{
    if ix.len() == 0 {
        Map::empty()
    } else {
        index_map(ix.drop_last()).insert(ix.last().0, ix.last().1)
    }
}

proof fn lemma_le_u32_sub(b: Seq<u8>, c: int, x: Seq<u8>, p: int)
    requires
        0 <= c,
        c + x.len() <= b.len(),
        b.subrange(c, c + x.len()) == x,
        0 <= p,
        p + 4 <= x.len(),
    ensures
        le_u32(b, c + p) == le_u32(x, p),
{
    assert(b[c + p] == x[p]);
    assert(b[c + p + 1] == x[p + 1]);
    assert(b[c + p + 2] == x[p + 2]);
    assert(b[c + p + 3] == x[p + 3]);
}

proof fn lemma_le_u64_sub(b: Seq<u8>, c: int, x: Seq<u8>, p: int)
    requires
        0 <= c,
        c + x.len() <= b.len(),
        b.subrange(c, c + x.len()) == x,
        0 <= p,
        p + 8 <= x.len(),
    ensures
        le_u64(b, c + p) == le_u64(x, p),
{
    lemma_le_u32_sub(b, c, x, p);
    lemma_le_u32_sub(b, c, x, p + 4);
}

proof fn lemma_sub_sub(b: Seq<u8>, c: int, x: Seq<u8>, lo: int, hi: int)
    requires
        0 <= c,
        c + x.len() <= b.len(),
        b.subrange(c, c + x.len()) == x,
        0 <= lo <= hi <= x.len(),
    ensures
        b.subrange(c + lo, c + hi) == x.subrange(lo, hi),
{
    assert(b.subrange(c + lo, c + hi) =~= x.subrange(lo, hi)) by {
        assert forall|i: int| 0 <= i < hi - lo implies b.subrange(c + lo, c + hi)[i] == x.subrange(lo, hi)[i] by {
            assert(b.subrange(c, c + x.len())[lo + i] == b[c + lo + i]);
        }
    }
}

/// The index of a prefix of the entries is a prefix of the index.
proof fn lemma_index_prefix(ix: Seq<(Seq<char>, PakEntry)>, k: int)
    requires
        0 <= k <= ix.len(),
    ensures
        index_bytes(ix.take(k)).len() <= index_bytes(ix).len(),
        index_bytes(ix).subrange(0, index_bytes(ix.take(k)).len() as int) == index_bytes(ix.take(k)),
    decreases ix.len() - k,
{
    if k == ix.len() {
        assert(ix.take(k) =~= ix);
        assert(index_bytes(ix).subrange(0, index_bytes(ix).len() as int) =~= index_bytes(ix));
    } else {
        lemma_index_prefix(ix, k + 1);
        let t1 = ix.take(k + 1);
        assert(t1.drop_last() =~= ix.take(k));
        let a = index_bytes(ix.take(k));
        let a1 = index_bytes(t1);
        assert(a1 == a + index_entry_bytes(t1.last().0, t1.last().1));
        assert(index_bytes(ix).subrange(0, a.len() as int) =~= a1.subrange(0, a.len() as int));
        assert(a1.subrange(0, a.len() as int) =~= a);
    }
}

/// An entry's bytes, wherever they stand, read back as the entry.
#[verifier::rlimit(40)]
proof fn lemma_entry_bytes_read(b: Seq<u8>, c: int, path: Seq<char>, e: PakEntry)
    requires
        0 <= c,
        c + index_entry_bytes(path, e).len() <= b.len(),
        b.subrange(c, c + index_entry_bytes(path, e).len()) == index_entry_bytes(path, e),
        byte_len(path) <= u32::MAX,
    ensures
        entry_at(b, c) == Some((path, e, c + index_entry_bytes(path, e).len())),
{
    let eb = index_entry_bytes(path, e);
    let enc = encode_utf8(path);
    let pl = byte_len(path) as int;
    assert((byte_len(path) as u32) as int == pl);
    lemma_u32_bytes(pl);
    lemma_u64_bytes(e.offset as int);
    lemma_u64_bytes(e.compressed_size as int);
    lemma_u64_bytes(e.uncompressed_size as int);
    assert(eb.subrange(0, 4) =~= u32_bytes(pl));
    assert(eb.subrange(4, 4 + pl) =~= enc);
    assert(eb.subrange(4 + pl, 12 + pl) =~= u64_bytes(e.offset as int));
    assert(eb.subrange(12 + pl, 20 + pl) =~= u64_bytes(e.compressed_size as int));
    assert(eb.subrange(20 + pl, 28 + pl) =~= u64_bytes(e.uncompressed_size as int));
    lemma_le_u32_sub(eb, 0, u32_bytes(pl), 0);
    lemma_le_u64_sub(eb, 4 + pl, u64_bytes(e.offset as int), 0);
    lemma_le_u64_sub(eb, 12 + pl, u64_bytes(e.compressed_size as int), 0);
    lemma_le_u64_sub(eb, 20 + pl, u64_bytes(e.uncompressed_size as int), 0);
    lemma_le_u32_sub(b, c, eb, 0);
    lemma_le_u64_sub(b, c, eb, 4 + pl);
    lemma_le_u64_sub(b, c, eb, 12 + pl);
    lemma_le_u64_sub(b, c, eb, 20 + pl);
    lemma_sub_sub(b, c, eb, 4, 4 + pl);
    encode_utf8_valid_utf8(path);
    encode_utf8_decode_utf8(path);
}

/// Entry `k` of the index stands right after the data and the entries
/// before it.
#[verifier::rlimit(40)]
proof fn lemma_entry_place(data: Seq<u8>, ix: Seq<(Seq<char>, PakEntry)>, k: int)
    requires
        0 <= k < ix.len(),
    ensures
        ({
            let b = pak_bytes(data, ix);
            let c = (data.len() + index_bytes(ix.take(k)).len()) as int;
            let eb = index_entry_bytes(ix[k].0, ix[k].1);
            &&& c + eb.len() <= b.len()
            &&& b.subrange(c, c + eb.len()) == eb
            &&& data.len() + index_bytes(ix.take(k + 1)).len() == c + eb.len()
        }),
{
    let b = pak_bytes(data, ix);
    let ib = index_bytes(ix);
    let t1 = ix.take(k + 1);
    assert(t1.drop_last() =~= ix.take(k));
    assert(t1.last() == ix[k]);
    let eb = index_entry_bytes(ix[k].0, ix[k].1);
    let a = index_bytes(ix.take(k));
    assert(index_bytes(t1) == a + eb);
    lemma_index_prefix(ix, k + 1);
    let c = (data.len() + a.len()) as int;
    assert(b.subrange(c, c + eb.len()) =~= eb) by {
        assert forall|i: int| 0 <= i < eb.len() implies b.subrange(c, c + eb.len())[i] == eb[i] by {
            assert(b[c + i] == ib[a.len() + i]);
            assert(ib.subrange(0, index_bytes(t1).len() as int)[a.len() + i] == index_bytes(t1)[a.len() + i]);
        }
    }
}

/// The entry at the place where entry `k` was written reads back as entry
/// `k`, and the next one starts right after it.
proof fn lemma_entry_reads_back(data: Seq<u8>, ix: Seq<(Seq<char>, PakEntry)>, k: int)
    requires
        0 <= k < ix.len(),
        paths_fit(ix),
    ensures
        ({
            let b = pak_bytes(data, ix);
            let c = (data.len() + index_bytes(ix.take(k)).len()) as int;
            let c2 = (data.len() + index_bytes(ix.take(k + 1)).len()) as int;
            entry_at(b, c) == Some((ix[k].0, ix[k].1, c2))
        }),
{
    lemma_entry_place(data, ix, k);
    let b = pak_bytes(data, ix);
    let c = (data.len() + index_bytes(ix.take(k)).len()) as int;
    assert(byte_len(ix[k].0) <= u32::MAX);
    lemma_entry_bytes_read(b, c, ix[k].0, ix[k].1);
}

proof fn lemma_fold_reads_back(data: Seq<u8>, ix: Seq<(Seq<char>, PakEntry)>, k: int)
    requires
        0 <= k <= ix.len(),
        paths_fit(ix),
    ensures
        index_fold(
            pak_bytes(data, ix),
            (data.len() + index_bytes(ix.take(k)).len()) as int,
            (ix.len() - k) as nat,
            index_map(ix.take(k)),
        ) == Some(index_map(ix)),
    decreases ix.len() - k,
{
    if k == ix.len() {
        assert(ix.take(k) =~= ix);
    } else {
        lemma_entry_reads_back(data, ix, k);
        lemma_fold_reads_back(data, ix, k + 1);
        let t1 = ix.take(k + 1);
        assert(t1.drop_last() =~= ix.take(k));
        assert(t1.last() == ix[k]);
    }
}

/// A pack is refused by its footer: fewer than twenty bytes, a footer that
/// does not start with `BPAK`, or a format version other than 1 is an
/// error, whatever the rest holds.
pub proof fn law_pak_rejects_bad_footer(d: Seq<u8>)
    ensures
        d.len() < 20 ==> pak_entries_spec(d) == Some(Err::<Map<Seq<char>, PakEntry>, PakError>(PakError::TooSmall)),
        d.len() >= 20 && !(d[d.len() - 20] == 0x42 && d[d.len() - 19] == 0x50 && d[d.len() - 18] == 0x41
            && d[d.len() - 17] == 0x4B) ==> pak_entries_spec(d) is Some && pak_entries_spec(d).unwrap() matches Err(PakError::InvalidMagic(..)),
        d.len() >= 20 && d[d.len() - 20] == 0x42 && d[d.len() - 19] == 0x50 && d[d.len() - 18] == 0x41
            && d[d.len() - 17] == 0x4B && le_u32(d, d.len() - 16) != 1 ==> pak_entries_spec(d) == Some(
            Err::<Map<Seq<char>, PakEntry>, PakError>(PakError::UnsupportedVersion(le_u32(d, d.len() - 16) as u32)),
        ),
{
}

/// Reading a pack gives back the index it was written with: each path maps
/// to where its file lies (the last entry wins for a path written twice).
/// The pack is one that can be written at all: its bytes fit in memory,
/// and the entry count and each path's length fit the index's 32-bit
/// fields.
pub proof fn law_pak_roundtrip(data: Seq<u8>, ix: Seq<(Seq<char>, PakEntry)>)
    requires
        data.len() <= usize::MAX,
        ix.len() <= u32::MAX,
        paths_fit(ix),
    ensures
        pak_entries_spec(pak_bytes(data, ix)) == Some(Ok::<Map<Seq<char>, PakEntry>, PakError>(index_map(ix))),
{
    let b = pak_bytes(data, ix);
    let ib = index_bytes(ix);
    assert((ix.len() as u32) as int == ix.len());
    let fb = footer_bytes(data.len() as int, ix.len() as int);
    let f = b.len() - 20;
    assert(fb.len() == 20) by {
        lemma_u32_bytes(1);
        lemma_u64_bytes(data.len() as int);
        lemma_u32_bytes(ix.len() as int);
    }
    assert(b.subrange(f, f + 20) =~= fb);
    lemma_u32_bytes(1);
    lemma_u64_bytes(data.len() as int);
    lemma_u32_bytes(ix.len() as int);
    assert(fb.subrange(4, 8) =~= u32_bytes(1));
    assert(fb.subrange(8, 16) =~= u64_bytes(data.len() as int));
    assert(fb.subrange(16, 20) =~= u32_bytes(ix.len() as int));
    lemma_le_u32_sub(fb, 4, u32_bytes(1), 0);
    lemma_le_u64_sub(fb, 8, u64_bytes(data.len() as int), 0);
    lemma_le_u32_sub(fb, 16, u32_bytes(ix.len() as int), 0);
    lemma_le_u32_sub(b, f, fb, 4);
    lemma_le_u64_sub(b, f, fb, 8);
    lemma_le_u32_sub(b, f, fb, 16);
    assert(b[f] == 0x42 && b[f + 1] == 0x50 && b[f + 2] == 0x41 && b[f + 3] == 0x4B);
    assert(footer_spec(b) == Ok::<(int, int), PakError>((data.len() as int, ix.len() as int)));
    lemma_fold_reads_back(data, ix, 0);
    assert(ix.take(0) =~= Seq::<(Seq<char>, PakEntry)>::empty());
}

// ------------------------------------------------------------------
// Reading assets out of several packs
// ------------------------------------------------------------------

/// An entry and the pack it lies in.
#[derive(Clone, Copy, Debug, PartialEq, Eq, Structural)]
pub struct LocatedEntry {
    pub source_index: usize,
    pub inner: PakEntry,
}

/// The entries of several packs, by path.  The packs' bytes stay with the
/// caller, in the order in which they were loaded.
pub struct PakAssetReader {
    pub entries: StrMap<LocatedEntry>,
}

/// The entries after adding those of pack `idx`: a path already present
/// keeps the pack it came from.
pub open spec fn merge_spec(acc: Map<Seq<char>, LocatedEntry>, idx: usize, m: Map<Seq<char>, PakEntry>) -> Map<Seq<char>, LocatedEntry> {
    Map::new(
        |k: Seq<char>| acc.dom().contains(k) || m.dom().contains(k),
        |k: Seq<char>| if acc.dom().contains(k) { acc[k] } else { LocatedEntry { source_index: idx, inner: m[k] } },
    )
}

/// The entries of packs `0..n`, merged in order.
pub open spec fn merge_all(ms: Seq<Map<Seq<char>, PakEntry>>, n: int) -> Map<Seq<char>, LocatedEntry>
    decreases n,
{
    if n <= 0 {
        Map::empty()
    } else {
        merge_spec(merge_all(ms, n - 1), (n - 1) as usize, ms[n - 1])
    }
}

impl PakAssetReader {
    pub open spec fn wf(&self) -> bool {
        self.entries.wf()
    }

    pub open spec fn view(&self) -> Map<Seq<char>, LocatedEntry> {
        self.entries.view()
    }

    /// A reader with no packs.
    pub fn new() -> (r: PakAssetReader)
        ensures
            r.wf(),
            r.view() == Map::<Seq<char>, LocatedEntry>::empty(),
    {
        PakAssetReader { entries: StrMap::new() }
    }

    /// Adds the entries of pack `source_index`; a path already present
    /// keeps the pack it came from.
    pub fn add_source(&mut self, source_index: usize, entries: &StrMap<PakEntry>)
        requires
            old(self).wf(),
            entries.wf(),
        ensures
            final(self).wf(),
            final(self).view() == merge_spec(old(self).view(), source_index, entries.view()),
    {
        proof {
            entries.lemma_dom();
        }
        let ghost acc0 = self.view();
        let ghost keys = entries.key_order();
        let n = entries.len();
        let mut i: usize = 0;
        while i < n
            invariant
                self.wf(),
                entries.wf(),
                n == keys.len(),
                keys == entries.key_order(),
                keys.no_duplicates(),
                entries.view().dom() == keys.to_set(),
                forall|j: int| 0 <= j < keys.len() ==> #[trigger] entries.view()[keys[j]] == entries.val_order()[j],
                i <= n,
                self.view() == merge_spec(acc0, source_index, Map::new(
                    |k: Seq<char>| exists|j: int| 0 <= j < i && keys[j] == k,
                    |k: Seq<char>| entries.view()[k],
                )),
            decreases n - i,
        {
            let k = entries.key_at(i);
            let v = *entries.val_at(i);
            let ghost before = self.view();
            if !self.entries.contains_key(k) {
                self.entries.insert(k, LocatedEntry { source_index, inner: v });
            }
            proof {
                let mi = Map::new(
                    |kk: Seq<char>| exists|j: int| 0 <= j < i && keys[j] == kk,
                    |kk: Seq<char>| entries.view()[kk],
                );
                let mi1 = Map::new(
                    |kk: Seq<char>| exists|j: int| 0 <= j < i + 1 && keys[j] == kk,
                    |kk: Seq<char>| entries.view()[kk],
                );
                assert(entries.view()[keys[i as int]] == v);
                assert forall|kk: Seq<char>| #[trigger] mi1.dom().contains(kk) <==> (mi.dom().contains(kk) || kk == keys[i as int]) by {
                    if mi1.dom().contains(kk) {
                        let j = choose|j: int| 0 <= j < i + 1 && keys[j] == kk;
                        if j < i {
                            assert(mi.dom().contains(kk));
                        }
                    }
                    if mi.dom().contains(kk) {
                        let j = choose|j: int| 0 <= j < i && keys[j] == kk;
                        assert(mi1.dom().contains(kk));
                    }
                    if kk == keys[i as int] {
                        assert(mi1.dom().contains(kk));
                    }
                }
                assert(self.view() =~= merge_spec(acc0, source_index, mi1));
            }
            i = i + 1;
        }
        proof {
            let mi = Map::new(
                |k: Seq<char>| exists|j: int| 0 <= j < n && keys[j] == k,
                |k: Seq<char>| entries.view()[k],
            );
            assert forall|k: Seq<char>| #[trigger] mi.dom().contains(k) <==> entries.view().dom().contains(k) by {
                if entries.view().dom().contains(k) {
                    assert(keys.to_set().contains(k));
                    let j = choose|j: int| 0 <= j < keys.len() && keys[j] == k;
                    assert(mi.dom().contains(k));
                }
            }
            assert(mi =~= entries.view());
        }
    }

    /// Loads the entries of packs given by their bytes, the first pack
    /// first; a path found in several packs is read from the first.
    pub fn load_many(paks: &Vec<Vec<u8>>) -> (r: Result<PakAssetReader, PakError>)
        requires
            forall|i: int| 0 <= i < paks@.len() ==> pak_entries_spec((#[trigger] paks@[i])@) is Some,
        ensures
            match r {
                Ok(reader) => reader.wf() && (exists|ms: Seq<Map<Seq<char>, PakEntry>>| {
                    &&& ms.len() == paks@.len()
                    &&& forall|i: int| 0 <= i < ms.len() ==> pak_entries_spec(paks@[i]@) == Some(Ok::<Map<Seq<char>, PakEntry>, PakError>(#[trigger] ms[i]))
                    &&& reader.view() == merge_all(ms, ms.len() as int)
                }),
                Err(e) => exists|i: int| 0 <= i < paks@.len() && pak_entries_spec(paks@[i]@) == Some(Err::<Map<Seq<char>, PakEntry>, PakError>(e))
                    && forall|j: int| 0 <= j < i ==> pak_entries_spec((#[trigger] paks@[j])@) matches Some(Ok(_)),
            },
    {
        let mut reader = PakAssetReader::new();
        let ghost mut ms: Seq<Map<Seq<char>, PakEntry>> = Seq::empty();
        let mut i: usize = 0;
        while i < paks.len()
            invariant
                forall|j: int| 0 <= j < paks@.len() ==> pak_entries_spec((#[trigger] paks@[j])@) is Some,
                i <= paks@.len(),
                reader.wf(),
                ms.len() == i,
                forall|j: int| 0 <= j < i ==> pak_entries_spec(paks@[j]@) == Some(Ok::<Map<Seq<char>, PakEntry>, PakError>(#[trigger] ms[j])),
                reader.view() == merge_all(ms, i as int),
            decreases paks@.len() - i,
        {
            match parse_pak_entries(paks[i].as_slice()) {
                Ok(m) => {
                    reader.add_source(i, &m);
                    proof {
                        let ms0 = ms;
                        ms = ms.push(m.view());
                        assert(ms.drop_last() =~= ms0);
                        assert forall|j: int| 0 <= j < i + 1 implies pak_entries_spec(paks@[j]@) == Some(Ok::<Map<Seq<char>, PakEntry>, PakError>(#[trigger] ms[j])) by {
                            if j < i {
                                assert(ms[j] == ms0[j]);
                            }
                        }
                        assert(ms[i as int] == m.view());
                        lemma_merge_all_prefix(ms0, ms, i as int);
                        assert(merge_all(ms, i + 1) == merge_spec(merge_all(ms, i as int), i, m.view()));
                        assert(reader.view() == merge_all(ms, i + 1));
                    }
                },
                Err(e) => {
                    proof {
                        assert forall|j: int| 0 <= j < i implies pak_entries_spec((#[trigger] paks@[j])@) matches Some(Ok(_)) by {
                            assert(pak_entries_spec(paks@[j]@) == Some(Ok::<Map<Seq<char>, PakEntry>, PakError>(ms[j])));
                        }
                    }
                    return Err(e);
                },
            }
            i = i + 1;
        }
        Ok(reader)
    }

    /// The entry of an asset path; a leading `/` is ignored.
    pub fn get_entry(&self, path: &str) -> (r: Option<&LocatedEntry>)
        requires
            self.wf(),
        ensures
            ({
                let key = trim_start_matches_spec(path@, "/"@);
                match r {
                    Some(e) => self.view().dom().contains(key) && self.view()[key] == *e,
                    None => !self.view().dom().contains(key),
                }
            }),
    {
        let key = trim_start_matches_str(&chars_of(path), "/");
        self.entries.get(&key)
    }

    /// Whether an asset path names a directory: some entry lies under it
    /// (every entry does for the empty path).
    pub fn is_directory(&self, path: &str) -> (b: bool)
        requires
            self.wf(),
        ensures
            b == (exists|k: Seq<char>| self.view().dom().contains(k) && starts_with_spec(k, dir_prefix(path@))),
    {
        let prefix = dir_prefix_exec(path);
        proof {
            self.entries.lemma_dom();
        }
        let n = self.entries.len();
        let mut i: usize = 0;
        while i < n
            invariant
                self.wf(),
                n == self.entries.key_order().len(),
                self.view().dom() == self.entries.key_order().to_set(),
                prefix@ == dir_prefix(path@),
                i <= n,
                forall|j: int| 0 <= j < i ==> !starts_with_spec(#[trigger] self.entries.key_order()[j], prefix@),
            decreases n - i,
        {
            if starts_with(self.entries.key_at(i), &prefix) {
                assert(self.entries.key_order().to_set().contains(self.entries.key_order()[i as int]));
                return true;
            }
            i = i + 1;
        }
        proof {
            assert forall|k: Seq<char>| self.view().dom().contains(k) implies !starts_with_spec(k, prefix@) by {
                assert(self.entries.key_order().to_set().contains(k));
                let j = choose|j: int| 0 <= j < self.entries.key_order().len() && self.entries.key_order()[j] == k;
            }
        }
        false
    }
}

proof fn lemma_merge_all_prefix(a: Seq<Map<Seq<char>, PakEntry>>, b: Seq<Map<Seq<char>, PakEntry>>, n: int)
    requires
        0 <= n <= a.len(),
        n <= b.len(),
        forall|j: int| 0 <= j < n ==> a[j] == b[j],
    ensures
        merge_all(a, n) == merge_all(b, n),
    decreases n,
{
    if n > 0 {
        lemma_merge_all_prefix(a, b, n - 1);
    }
}

/// The prefix that the paths under a directory start with: the path
/// without leading `/`, then `/`; empty for the empty path.
pub open spec fn dir_prefix(path: Seq<char>) -> Seq<char> {
    if path.len() == 0 {
        Seq::empty()
    } else {
        trim_start_matches_spec(path, "/"@).push('/')
    }
}

fn dir_prefix_exec(path: &str) -> (r: Vec<char>)
    ensures
        r@ == dir_prefix(path@),
{
    let p = chars_of(path);
    if p.len() == 0 {
        return p;
    }
    let mut r = trim_start_matches_str(&p, "/");
    r.push('/');
    r
}

/// A path found in several packs is read from the first of them.
pub proof fn law_first_pack_wins(ms: Seq<Map<Seq<char>, PakEntry>>, n: int, i: int, k: Seq<char>)
    requires
        0 <= i < n <= ms.len(),
        ms[i].dom().contains(k),
        forall|j: int| 0 <= j < i ==> !(#[trigger] ms[j]).dom().contains(k),
    ensures
        merge_all(ms, n).dom().contains(k),
        merge_all(ms, n)[k] == (LocatedEntry { source_index: i as usize, inner: ms[i][k] }),
    decreases n,
{
    if n - 1 > i {
        law_first_pack_wins(ms, n - 1, i, k);
    } else {
        lemma_merge_all_absent(ms, i, k);
    }
}

/// What was packed reads back: where no earlier pack holds the path, the
/// merged entries send a read of it to pack `i`, whose bytes there
/// decompress to the packed file.
pub proof fn law_packed_file_reads_back(paks: Seq<Seq<u8>>, ms: Seq<Map<Seq<char>, PakEntry>>, i: int, path: Seq<char>, raw: Seq<u8>)
    requires
        ms.len() == paks.len(),
        paks.len() <= usize::MAX,
        0 <= i < ms.len(),
        forall|j: int| 0 <= j < ms.len() ==> pak_entries_spec(#[trigger] paks[j]) == Some(Ok::<Map<Seq<char>, PakEntry>, PakError>(ms[j])),
        reads_back(paks[i], path, raw),
        forall|j: int| 0 <= j < i ==> !(#[trigger] ms[j]).dom().contains(path),
    ensures
        ({
            let v = merge_all(ms, ms.len() as int);
            &&& v.dom().contains(path)
            &&& v[path].source_index == i
            &&& entry_fits(paks[i], v[path].inner)
            &&& zstd_decoded(entry_range(paks[v[path].source_index as int], v[path].inner)) == Some(raw)
        }),
{
    assert(pak_entries_spec(paks[i]) == Some(Ok::<Map<Seq<char>, PakEntry>, PakError>(ms[i])));
    law_first_pack_wins(ms, ms.len() as int, i, path);
}

proof fn lemma_merge_all_absent(ms: Seq<Map<Seq<char>, PakEntry>>, n: int, k: Seq<char>)
    requires
        0 <= n <= ms.len(),
        forall|j: int| 0 <= j < n ==> !(#[trigger] ms[j]).dom().contains(k),
    ensures
        !merge_all(ms, n).dom().contains(k),
    decreases n,
{
    if n > 0 {
        lemma_merge_all_absent(ms, n - 1, k);
    }
}

/// Loads the entries of packs given by their bytes; `None` where one of
/// them has an entry that runs past its end.
pub fn try_load_many(paks: &Vec<Vec<u8>>) -> (r: Option<Result<PakAssetReader, PakError>>)
    ensures
        r is None <==> exists|i: int| 0 <= i < paks@.len() && pak_entries_spec((#[trigger] paks@[i])@) is None,
        r matches Some(Ok(reader)) ==> reader.wf() && (exists|ms: Seq<Map<Seq<char>, PakEntry>>| {
            &&& ms.len() == paks@.len()
            &&& forall|i: int| 0 <= i < ms.len() ==> pak_entries_spec(paks@[i]@) == Some(Ok::<Map<Seq<char>, PakEntry>, PakError>(#[trigger] ms[i]))
            &&& reader.view() == merge_all(ms, ms.len() as int)
        }),
        r matches Some(Err(e)) ==> exists|i: int| 0 <= i < paks@.len() && pak_entries_spec(paks@[i]@) == Some(Err::<Map<Seq<char>, PakEntry>, PakError>(e))
            && forall|j: int| 0 <= j < i ==> pak_entries_spec((#[trigger] paks@[j])@) matches Some(Ok(_)),
{
    let mut i: usize = 0;
    while i < paks.len()
        invariant
            i <= paks@.len(),
            forall|j: int| 0 <= j < i ==> pak_entries_spec((#[trigger] paks@[j])@) is Some,
        decreases paks@.len() - i,
    {
        if try_parse_pak_entries(paks[i].as_slice()).is_none() {
            return None;
        }
        i = i + 1;
    }
    Some(PakAssetReader::load_many(paks))
}

/// What zstd makes of compressed bytes: the bytes they decompress to, or
/// `None` where they are not a zstd stream.
pub uninterp spec fn zstd_decoded(data: Seq<u8>) -> Option<Seq<u8>>;

/// Decompresses a zstd stream (zstd's `stream::read::Decoder`, read to the
/// end).  The result is named, not described: `zstd_decoded`.
#[verifier::external_body]
fn zstd_decode(data: &[u8]) -> (r: Option<Vec<u8>>)
    ensures
        match r {
            Some(v) => zstd_decoded(data@) == Some(v@),
            None => zstd_decoded(data@) is None,
        },
{
    let mut out: Vec<u8> = Vec::new();
    let mut decoder = zstd::stream::read::Decoder::new(std::io::Cursor::new(data)).ok()?;
    std::io::Read::read_to_end(&mut decoder, &mut out).ok()?;
    Some(out)
}

/// The compressed bytes of an entry inside its pack.
pub open spec fn entry_range(source: Seq<u8>, e: PakEntry) -> Seq<u8> {
    source.subrange((e.offset as usize) as int, (e.offset as usize) + (e.compressed_size as usize))
}

/// Whether an entry lies inside its pack's bytes.
pub open spec fn entry_fits(source: Seq<u8>, e: PakEntry) -> bool {
    (e.offset as usize) + (e.compressed_size as usize) <= source.len()
}

/// Why an asset could not be read.
#[derive(Clone, Copy, Debug, PartialEq, Eq, Structural)]
pub enum AssetError {
    /// No pack holds the path.
    NotFound,
    /// The stored bytes do not decompress.
    Io,
}

impl PakAssetReader {
    /// Decompresses an entry's file out of its pack's bytes.
    pub fn decompress(source: &[u8], entry: &LocatedEntry) -> (r: Result<Vec<u8>, AssetError>)
        requires
            entry_fits(source@, entry.inner),
        ensures
            match r {
                Ok(v) => zstd_decoded(entry_range(source@, entry.inner)) == Some(v@),
                Err(e) => e == AssetError::Io && zstd_decoded(entry_range(source@, entry.inner)) is None,
            },
    {
        let n = source.len();
        let start = entry.inner.offset as usize;
        let end = start + entry.inner.compressed_size as usize;
        let mut compressed: Vec<u8> = Vec::new();
        let mut i = start;
        while i < end
            invariant
                start <= i <= end <= source@.len(),
                compressed@ == source@.subrange(start as int, i as int),
            decreases end - i,
        {
            compressed.push(source[i]);
            i = i + 1;
            assert(compressed@ =~= source@.subrange(start as int, i as int));
        }
        match zstd_decode(compressed.as_slice()) {
            Some(v) => Ok(v),
            None => Err(AssetError::Io),
        }
    }

    /// Reads an asset: finds its entry and decompresses it out of the pack
    /// it lies in.
    pub fn read(&self, paks: &Vec<Vec<u8>>, path: &str) -> (r: Result<Vec<u8>, AssetError>)
        requires
            self.wf(),
            ({
                let key = trim_start_matches_spec(path@, "/"@);
                self.view().dom().contains(key) ==> {
                    &&& self.view()[key].source_index < paks@.len()
                    &&& entry_fits(paks@[self.view()[key].source_index as int]@, self.view()[key].inner)
                }
            }),
        ensures
            ({
                let key = trim_start_matches_spec(path@, "/"@);
                if self.view().dom().contains(key) {
                    let e = self.view()[key];
                    match r {
                        Ok(v) => zstd_decoded(entry_range(paks@[e.source_index as int]@, e.inner)) == Some(v@),
                        Err(err) => err == AssetError::Io && zstd_decoded(entry_range(paks@[e.source_index as int]@, e.inner)) is None,
                    }
                } else {
                    r == Err::<Vec<u8>, AssetError>(AssetError::NotFound)
                }
            }),
    {
        match self.get_entry(path) {
            None => Err(AssetError::NotFound),
            Some(e) => {
                let ghost key = trim_start_matches_spec(path@, "/"@);
                assert(self.view().dom().contains(key));
                PakAssetReader::decompress(paks[e.source_index].as_slice(), e)
            },
        }
    }
}

// ------------------------------------------------------------------
// Packing
// ------------------------------------------------------------------

/// A bundle: a pack and the path prefixes of the files it takes.
pub struct BundleDef {
    pub name: String,
    pub includes: Vec<String>,
}

pub open spec fn includes_view(b: BundleDef) -> Seq<Seq<char>> {
    b.includes@.map_values(|s: String| s@)
}

pub open spec fn bundles_view(v: Seq<BundleDef>) -> Seq<Seq<Seq<char>>> {
    v.map_values(|b: BundleDef| includes_view(b))
}

/// Whether a path starts with one of the prefixes.
pub open spec fn matches_any(rel: Seq<char>, inc: Seq<Seq<char>>) -> bool {
    exists|j: int| 0 <= j < inc.len() && starts_with_spec(rel, #[trigger] inc[j])
}

/// The first bundle from `i` on that takes the path.
pub open spec fn bundle_from(rel: Seq<char>, bs: Seq<Seq<Seq<char>>>, i: int) -> Option<int>
    decreases bs.len() - i,
{
    if i < 0 || i >= bs.len() {
        None
    } else if matches_any(rel, bs[i]) {
        Some(i)
    } else {
        bundle_from(rel, bs, i + 1)
    }
}

/// The bundle a file goes to: the first that takes its path.
pub open spec fn bundle_of(rel: Seq<char>, bs: Seq<Seq<Seq<char>>>) -> Option<int> {
    bundle_from(rel, bs, 0)
}

/// The files among the first `n` that go to bundle `b` (`None`: to no
/// bundle), in order.
pub open spec fn files_for(rels: Seq<Seq<char>>, bs: Seq<Seq<Seq<char>>>, b: Option<int>, n: int) -> Seq<int>
    decreases n,
{
    if n <= 0 {
        Seq::empty()
    } else if bundle_of(rels[n - 1], bs) == b {
        files_for(rels, bs, b, n - 1).push(n - 1)
    } else {
        files_for(rels, bs, b, n - 1)
    }
}

pub open spec fn idx_view(v: Seq<usize>) -> Seq<int> {
    v.map_values(|i: usize| i as int)
}

fn matches_any_exec(rel: &Vec<char>, inc: &Vec<String>) -> (r: bool)
    ensures
        r == matches_any(rel@, inc@.map_values(|s: String| s@)),
{
    let ghost iv = inc@.map_values(|s: String| s@);
    let mut j: usize = 0;
    while j < inc.len()
        invariant
            j <= inc@.len(),
            iv == inc@.map_values(|s: String| s@),
            forall|k: int| 0 <= k < j ==> !starts_with_spec(rel@, #[trigger] iv[k]),
        decreases inc@.len() - j,
    {
        let p = chars_of(inc[j].as_str());
        if starts_with(rel, &p) {
            assert(iv[j as int] == p@);
            return true;
        }
        j = j + 1;
    }
    false
}

fn bundle_of_exec(rel: &Vec<char>, bundles: &Vec<BundleDef>) -> (r: Option<usize>)
    ensures
        (match r { Some(i) => Some(i as int), None => None }) == bundle_of(rel@, bundles_view(bundles@)),
{
    let ghost bs = bundles_view(bundles@);
    let mut i: usize = 0;
    while i < bundles.len()
        invariant
            i <= bundles@.len(),
            bs == bundles_view(bundles@),
            bundle_of(rel@, bs) == bundle_from(rel@, bs, i as int),
        decreases bundles@.len() - i,
    {
        assert(bs[i as int] == includes_view(bundles@[i as int]));
        if matches_any_exec(rel, &bundles[i].includes) {
            return Some(i);
        }
        i = i + 1;
    }
    None
}

/// Sorts files into bundles: each file goes to the first bundle that takes
/// its path.  Returns, for each bundle, its files' positions in order, and
/// the positions of the files no bundle takes.
pub fn assign_bundles(paths: &Vec<String>, bundles: &Vec<BundleDef>) -> (r: (Vec<Vec<usize>>, Vec<usize>))
    ensures
        r.0@.len() == bundles@.len(),
        forall|b: int| 0 <= b < r.0@.len() ==> idx_view((#[trigger] r.0@[b])@)
            == files_for(paths@.map_values(|s: String| s@), bundles_view(bundles@), Some(b), paths@.len() as int),
        idx_view(r.1@) == files_for(paths@.map_values(|s: String| s@), bundles_view(bundles@), None, paths@.len() as int),
{
    let ghost rels = paths@.map_values(|s: String| s@);
    let ghost bs = bundles_view(bundles@);
    let mut per: Vec<Vec<usize>> = Vec::new();
    let mut k: usize = 0;
    while k < bundles.len()
        invariant
            k <= bundles@.len(),
            per@.len() == k,
            forall|b: int| 0 <= b < k ==> (#[trigger] per@[b])@.len() == 0,
        decreases bundles@.len() - k,
    {
        per.push(Vec::new());
        k = k + 1;
    }
    let mut unmatched: Vec<usize> = Vec::new();
    let mut i: usize = 0;
    proof {
        assert forall|b: int| 0 <= b < per@.len() implies idx_view((#[trigger] per@[b])@) == files_for(rels, bs, Some(b), 0) by {
            assert(idx_view(per@[b]@) =~= Seq::<int>::empty());
        }
        assert(idx_view(unmatched@) =~= Seq::<int>::empty());
    }
    while i < paths.len()
        invariant
            i <= paths@.len(),
            rels == paths@.map_values(|s: String| s@),
            bs == bundles_view(bundles@),
            per@.len() == bundles@.len(),
            forall|b: int| 0 <= b < per@.len() ==> idx_view((#[trigger] per@[b])@) == files_for(rels, bs, Some(b), i as int),
            idx_view(unmatched@) == files_for(rels, bs, None, i as int),
        decreases paths@.len() - i,
    {
        let rel = chars_of(paths[i].as_str());
        assert(rels[i as int] == rel@);
        match bundle_of_exec(&rel, bundles) {
            Some(b) => {
                proof {
                    lemma_bundle_from_bound(rel@, bs, 0);
                }
                let mut list: Vec<usize> = Vec::new();
                std::mem::swap(&mut list, &mut per[b]);
                let ghost old_list = idx_view(list@);
                list.push(i);
                assert(idx_view(list@) =~= old_list.push(i as int));
                let ghost before = per@;
                per.set(b, list);
                proof {
                    assert forall|bb: int| 0 <= bb < per@.len() implies idx_view((#[trigger] per@[bb])@) == files_for(rels, bs, Some(bb), i + 1) by {
                        if bb != b as int {
                            assert(per@[bb] == before[bb]);
                        }
                    }
                }
                assert(idx_view(unmatched@) == files_for(rels, bs, None, i + 1));
            },
            None => {
                let ghost old_u = idx_view(unmatched@);
                unmatched.push(i);
                assert(idx_view(unmatched@) =~= old_u.push(i as int));
            },
        }
        i = i + 1;
    }
    (per, unmatched)
}

proof fn lemma_bundle_from_bound(rel: Seq<char>, bs: Seq<Seq<Seq<char>>>, i: int)
    requires
        0 <= i,
    ensures
        bundle_from(rel, bs, i) matches Some(b) ==> i <= b < bs.len(),
    decreases bs.len() - i,
{
    if 0 <= i < bs.len() && !matches_any(rel, bs[i]) {
        lemma_bundle_from_bound(rel, bs, i + 1);
    }
}

/// What zstd makes of bytes at a compression level: a zstd stream, or
/// `None` where compression fails.
pub uninterp spec fn zstd_encoded(data: Seq<u8>, level: i32) -> Option<Seq<u8>>;

/// Compresses bytes (zstd's `encode_all`).  The result is named, not
/// described: `zstd_encoded`.  What it compressed decompresses to the
/// bytes it was given (the crate's own tests check this full cycle).
#[verifier::external_body]
fn zstd_encode(data: &[u8], level: i32) -> (r: Option<Vec<u8>>)
    ensures
        match r {
            Some(v) => zstd_encoded(data@, level) == Some(v@),
            None => zstd_encoded(data@, level) is None,
        },
        r matches Some(v) ==> zstd_decoded(v@) == Some(data@),
{
    zstd::encode_all(std::io::Cursor::new(data), level).ok()
}

pub open spec fn files_view(v: Seq<(String, Vec<u8>)>) -> Seq<(Seq<char>, Seq<u8>)> {
    v.map_values(|f: (String, Vec<u8>)| (f.0@, f.1@))
}

/// Whether every file compresses.
pub open spec fn all_compress(files: Seq<(Seq<char>, Seq<u8>)>, level: i32) -> bool {
    forall|i: int| 0 <= i < files.len() ==> (#[trigger] zstd_encoded(files[i].1, level)) is Some
}

/// The data section and index of a bundle's first `n` files: each file
/// compressed, one after another.
pub open spec fn bundle_layout(files: Seq<(Seq<char>, Seq<u8>)>, level: i32, n: int) -> (Seq<u8>, Seq<(Seq<char>, PakEntry)>)
    decreases n,
{
    if n <= 0 {
        (Seq::empty(), Seq::empty())
    } else {
        let (d, ix) = bundle_layout(files, level, n - 1);
        let c = zstd_encoded(files[n - 1].1, level)->0;
        (
            d + c,
            ix.push((files[n - 1].0, PakEntry {
                offset: d.len() as u64,
                compressed_size: c.len() as u64,
                uncompressed_size: files[n - 1].1.len() as u64,
            })),
        )
    }
}

/// The pack of a bundle.
pub open spec fn bundle_pak(files: Seq<(Seq<char>, Seq<u8>)>, level: i32) -> Seq<u8> {
    let (d, ix) = bundle_layout(files, level, files.len() as int);
    pak_bytes(d, ix)
}

/// A file reads back out of a pack: its path is in the pack's index, its
/// entry lies inside the pack, and the bytes there decompress to the file.
pub open spec fn reads_back(pak: Seq<u8>, path: Seq<char>, raw: Seq<u8>) -> bool {
    match pak_entries_spec(pak) {
        Some(Ok(m)) => m.dom().contains(path) && entry_fits(pak, m[path]) && zstd_decoded(entry_range(pak, m[path])) == Some(raw),
        _ => false,
    }
}

/// No later file of the bundle has the same path.
pub open spec fn last_with_path(files: Seq<(Seq<char>, Seq<u8>)>, i: int) -> bool {
    forall|j: int| i < j < files.len() ==> #[trigger] files[j].0 != files[i].0
}

/// Every path's byte length fits a `u32`.
pub open spec fn file_paths_fit(files: Seq<(Seq<char>, Seq<u8>)>) -> bool {
    forall|i: int| 0 <= i < files.len() ==> byte_len(#[trigger] files[i].0) <= u32::MAX
}

/// The first `n` files decompress back from what they compressed to.
spec fn all_roundtrip(files: Seq<(Seq<char>, Seq<u8>)>, level: i32, n: int) -> bool {
    forall|j: int| 0 <= j < n ==> zstd_decoded(#[trigger] zstd_encoded(files[j].1, level)->0) == Some(files[j].1)
}

proof fn lemma_layout_len(files: Seq<(Seq<char>, Seq<u8>)>, level: i32, n: int)
    requires
        0 <= n,
    ensures
        bundle_layout(files, level, n).1.len() == n,
    decreases n,
{
    if n > 0 {
        lemma_layout_len(files, level, n - 1);
    }
}

proof fn lemma_layout_entry(files: Seq<(Seq<char>, Seq<u8>)>, level: i32, n: int, i: int)
    requires
        0 <= i < n,
    ensures
        ({
            let (dn, ixn) = bundle_layout(files, level, n);
            let di = bundle_layout(files, level, i).0;
            let c = zstd_encoded(files[i].1, level)->0;
            &&& ixn[i] == (files[i].0, PakEntry {
                offset: di.len() as u64,
                compressed_size: c.len() as u64,
                uncompressed_size: files[i].1.len() as u64,
            })
            &&& di.len() + c.len() <= dn.len()
            &&& dn.subrange(di.len() as int, (di.len() + c.len()) as int) == c
        }),
    decreases n,
{
    let (dp, ixp) = bundle_layout(files, level, n - 1);
    lemma_layout_len(files, level, n - 1);
    if n - 1 == i {
        let c = zstd_encoded(files[i].1, level)->0;
        assert((dp + c).subrange(dp.len() as int, (dp.len() + c.len()) as int) =~= c);
    } else {
        lemma_layout_entry(files, level, n - 1, i);
        let di = bundle_layout(files, level, i).0;
        let c = zstd_encoded(files[i].1, level)->0;
        let cn = zstd_encoded(files[n - 1].1, level)->0;
        assert((dp + cn).subrange(di.len() as int, (di.len() + c.len()) as int) =~= dp.subrange(di.len() as int, (di.len() + c.len()) as int));
    }
}

proof fn lemma_index_map_last(ix: Seq<(Seq<char>, PakEntry)>, i: int)
    requires
        0 <= i < ix.len(),
        forall|j: int| i < j < ix.len() ==> #[trigger] ix[j].0 != ix[i].0,
    ensures
        index_map(ix).dom().contains(ix[i].0),
        index_map(ix)[ix[i].0] == ix[i].1,
    decreases ix.len(),
{
    if i < ix.len() - 1 {
        let t = ix.drop_last();
        assert forall|j: int| i < j < t.len() implies #[trigger] t[j].0 != t[i].0 by {
            assert(t[j] == ix[j]);
        }
        lemma_index_map_last(t, i);
        assert(ix.last().0 != ix[i].0);
    }
}

proof fn lemma_bundle_reads_back(files: Seq<(Seq<char>, Seq<u8>)>, level: i32, i: int)
    requires
        0 <= i < files.len(),
        files.len() <= u32::MAX,
        file_paths_fit(files),
        all_roundtrip(files, level, files.len() as int),
        bundle_layout(files, level, files.len() as int).0.len() <= usize::MAX,
        last_with_path(files, i),
    ensures
        reads_back(bundle_pak(files, level), files[i].0, files[i].1),
{
    let n = files.len() as int;
    let (dn, ixn) = bundle_layout(files, level, n);
    lemma_layout_len(files, level, n);
    assert forall|k: int| 0 <= k < ixn.len() implies byte_len(#[trigger] ixn[k].0) <= u32::MAX by {
        lemma_layout_entry(files, level, n, k);
    }
    law_pak_roundtrip(dn, ixn);
    lemma_layout_entry(files, level, n, i);
    assert forall|j: int| i < j < ixn.len() implies #[trigger] ixn[j].0 != ixn[i].0 by {
        lemma_layout_entry(files, level, n, j);
        assert(files[j].0 != files[i].0);
    }
    lemma_index_map_last(ixn, i);
    let pak = bundle_pak(files, level);
    let e = ixn[i].1;
    let di = bundle_layout(files, level, i).0;
    let c = zstd_encoded(files[i].1, level)->0;
    assert((e.offset as usize) as int == di.len());
    assert((e.compressed_size as usize) as int == c.len());
    assert(pak == dn + index_bytes(ixn) + footer_bytes(dn.len() as int, (ixn.len() as u32) as int));
    assert(pak.subrange(di.len() as int, (di.len() + c.len()) as int) =~= dn.subrange(di.len() as int, (di.len() + c.len()) as int));
    assert(entry_range(pak, e) == c);
    assert(zstd_decoded(c) == Some(files[i].1));
}

/// Packs a bundle's files: each is compressed, the compressed files go one
/// after another, and the index records where each lies.  Each file reads
/// back out of the pack (the last one, where several share a path).
pub fn pack_bundle(files: &Vec<(String, Vec<u8>)>, level: i32) -> (pak: Vec<u8>)
    requires
        all_compress(files_view(files@), level),
    ensures
        pak@ == bundle_pak(files_view(files@), level),
        files@.len() <= u32::MAX && file_paths_fit(files_view(files@)) ==> forall|i: int|
            0 <= i < files@.len() && last_with_path(files_view(files@), i)
                ==> reads_back(pak@, files@[i].0@, files@[i].1@),
{
    match try_pack_bundle(files, level) {
        Some(pak) => pak,
        None => {
            proof {
                assert(false);
            }
            Vec::new()
        },
    }
}

/// Packs a bundle's files, as `pack_bundle` does; `None` where a file does
/// not compress.
pub fn try_pack_bundle(files: &Vec<(String, Vec<u8>)>, level: i32) -> (r: Option<Vec<u8>>)
    ensures
        match r {
            Some(pak) => {
                &&& all_compress(files_view(files@), level)
                &&& pak@ == bundle_pak(files_view(files@), level)
                &&& files@.len() <= u32::MAX && file_paths_fit(files_view(files@)) ==> forall|i: int|
                    0 <= i < files@.len() && last_with_path(files_view(files@), i)
                        ==> reads_back(pak@, files@[i].0@, files@[i].1@)
            },
            None => !all_compress(files_view(files@), level),
        },
{
    let ghost fv = files_view(files@);
    let mut data: Vec<u8> = Vec::new();
    let mut index: Vec<IndexEntry> = Vec::new();
    let mut i: usize = 0;
    assert(index_view(index@) =~= Seq::<(Seq<char>, PakEntry)>::empty());
    while i < files.len()
        invariant
            i <= files@.len(),
            fv == files_view(files@),
            forall|j: int| 0 <= j < i ==> (#[trigger] zstd_encoded(fv[j].1, level)) is Some,
            all_roundtrip(fv, level, i as int),
            (data@, index_view(index@)) == bundle_layout(fv, level, i as int),
        decreases files@.len() - i,
    {
        let (path, raw) = (&files[i].0, &files[i].1);
        assert(fv[i as int] == (path@, raw@));
        let compressed = match zstd_encode(raw.as_slice(), level) {
            Some(c) => c,
            None => {
                return None;
            },
        };
        let offset = data.len() as u64;
        let e = IndexEntry {
            path: string_of(&chars_of(path.as_str())),
            offset,
            compressed_size: compressed.len() as u64,
            uncompressed_size: raw.len() as u64,
        };
        push_bytes(&mut data, compressed.as_slice());
        let ghost before = index_view(index@);
        index.push(e);
        assert(index_view(index@) =~= before.push((e.path@, PakEntry {
            offset: e.offset,
            compressed_size: e.compressed_size,
            uncompressed_size: e.uncompressed_size,
        })));
        assert(zstd_decoded(zstd_encoded(fv[i as int].1, level)->0) == Some(fv[i as int].1));
        i = i + 1;
    }
    // A vector's length fits a `usize`, so the data section's does.
    let _data_len = data.len();
    let pak = write_pak(&data, &index);
    proof {
        if files@.len() <= u32::MAX && file_paths_fit(fv) {
            assert forall|k: int| 0 <= k < files@.len() && last_with_path(fv, k) implies reads_back(pak@, files@[k].0@, files@[k].1@) by {
                lemma_bundle_reads_back(fv, level, k);
            }
        }
    }
    Some(pak)
}

// ------------------------------------------------------------------
// Listing a directory
// ------------------------------------------------------------------

/// Lexicographic order by characters (for UTF-8 text the same as byte
/// order, which `String` uses).
pub open spec fn lex_lt(a: Seq<char>, b: Seq<char>) -> bool
    decreases a.len(),
{
    if a.len() == 0 {
        b.len() > 0
    } else if b.len() == 0 {
        false
    } else if (a[0] as u32) < (b[0] as u32) {
        true
    } else if a[0] == b[0] {
        lex_lt(a.drop_first(), b.drop_first())
    } else {
        false
    }
}

/// Lexicographic order is total and strict.
pub proof fn lemma_lex_total(a: Seq<char>, b: Seq<char>)
    ensures
        a == b || lex_lt(a, b) || lex_lt(b, a),
        !(lex_lt(a, b) && lex_lt(b, a)),
        !lex_lt(a, a),
    decreases a.len(),
{
    lemma_lex_irrefl(a);
    if a.len() == 0 && b.len() == 0 {
        assert(a =~= b);
    } else if a.len() > 0 && b.len() > 0 {
        if (a[0] as u32) == (b[0] as u32) {
            vstd::utf8::char_u32_cast(a[0], a[0] as u32);
            vstd::utf8::char_u32_cast(b[0], b[0] as u32);
            assert(a[0] == b[0]);
            lemma_lex_total(a.drop_first(), b.drop_first());
            if a.drop_first() == b.drop_first() {
                assert forall|i: int| 0 <= i < a.len() implies a[i] == b[i] by {
                    if i > 0 {
                        assert(a[i] == a.drop_first()[i - 1]);
                        assert(b[i] == b.drop_first()[i - 1]);
                    }
                }
                assert(a =~= b);
            }
        }
    }
}

proof fn lemma_lex_irrefl(a: Seq<char>)
    ensures
        !lex_lt(a, a),
    decreases a.len(),
{
    if a.len() > 0 {
        lemma_lex_irrefl(a.drop_first());
    }
}

/// Lexicographic order is transitive.
pub proof fn lemma_lex_trans(a: Seq<char>, b: Seq<char>, c: Seq<char>)
    requires
        lex_lt(a, b),
        lex_lt(b, c),
    ensures
        lex_lt(a, c),
    decreases a.len(),
{
    if a.len() > 0 && b.len() > 0 && c.len() > 0 && a[0] == b[0] && b[0] == c[0] {
        lemma_lex_trans(a.drop_first(), b.drop_first(), c.drop_first());
    }
}

pub(crate) fn lex_lt_exec(a: &Vec<char>, b: &Vec<char>) -> (r: bool)
    ensures
        r == lex_lt(a@, b@),
{
    let mut i: usize = 0;
    assert(a@.subrange(0, a@.len() as int) =~= a@);
    assert(b@.subrange(0, b@.len() as int) =~= b@);
    while i < a.len() && i < b.len() && a[i] == b[i]
        invariant
            i <= a@.len(),
            i <= b@.len(),
            lex_lt(a@, b@) == lex_lt(a@.subrange(i as int, a@.len() as int), b@.subrange(i as int, b@.len() as int)),
        decreases a@.len() - i,
    {
        let ghost sa = a@.subrange(i as int, a@.len() as int);
        let ghost sb = b@.subrange(i as int, b@.len() as int);
        assert(sa.drop_first() =~= a@.subrange(i + 1, a@.len() as int));
        assert(sb.drop_first() =~= b@.subrange(i + 1, b@.len() as int));
        i = i + 1;
    }
    let ghost sa = a@.subrange(i as int, a@.len() as int);
    let ghost sb = b@.subrange(i as int, b@.len() as int);
    if i >= a.len() {
        i < b.len()
    } else if i >= b.len() {
        false
    } else {
        assert(sa[0] == a@[i as int] && sb[0] == b@[i as int]);
        (a[i] as u32) < (b[i] as u32)
    }
}

/// Strictly increasing in lexicographic order.
pub open spec fn sorted_strict(v: Seq<Seq<char>>) -> bool {
    forall|i: int, j: int| 0 <= i < j < v.len() ==> lex_lt(#[trigger] v[i], #[trigger] v[j])
}

/// Inserts into a strictly increasing list, unless the text is there.
fn insert_sorted(v: &mut Vec<Vec<char>>, x: Vec<char>)
    requires
        sorted_strict(crate::text::views(old(v)@)),
    ensures
        sorted_strict(crate::text::views(final(v)@)),
        crate::text::views(final(v)@).to_set() == crate::text::views(old(v)@).to_set().insert(x@),
{
    let ghost vs = crate::text::views(v@);
    let mut p: usize = 0;
    while p < v.len() && lex_lt_exec(&v[p], &x)
        invariant
            vs == crate::text::views(v@),
            p <= v@.len(),
            forall|i: int| 0 <= i < p ==> lex_lt(#[trigger] vs[i], x@),
        decreases v@.len() - p,
    {
        assert(vs[p as int] == v@[p as int]@);
        p = p + 1;
    }
    if p < v.len() && crate::text::eq(&v[p], &x) {
        assert(vs[p as int] == x@);
        assert(vs.to_set().insert(x@) =~= vs.to_set());
        return;
    }
    proof {
        if p < vs.len() {
            assert(vs[p as int] == v@[p as int]@);
            lemma_lex_total(vs[p as int], x@);
        }
    }
    let ghost xv = x@;
    v.insert(p, x);
    let ghost ws = crate::text::views(v@);
    assert(ws =~= vs.insert(p as int, xv));
    proof {
        assert forall|i: int, j: int| 0 <= i < j < ws.len() implies lex_lt(#[trigger] ws[i], #[trigger] ws[j]) by {
            if j < p {
            } else if j == p {
            } else if i < p {
                assert(ws[j] == vs[j - 1]);
                if j - 1 == p as int {
                    lemma_lex_trans(ws[i], xv, vs[p as int]);
                } else {
                    lemma_lex_trans(ws[i], xv, vs[p as int]);
                    lemma_lex_trans(ws[i], vs[p as int], vs[j - 1]);
                }
            } else if i == p {
                if j - 1 > p as int {
                    lemma_lex_trans(xv, vs[p as int], vs[j - 1]);
                }
            } else {
                assert(ws[i] == vs[i - 1]);
                assert(ws[j] == vs[j - 1]);
            }
        }
        assert forall|t: Seq<char>| ws.to_set().contains(t) <==> vs.to_set().insert(xv).contains(t) by {
            if ws.to_set().contains(t) {
                let k = choose|k: int| 0 <= k < ws.len() && ws[k] == t;
                if k < p {
                    assert(vs[k] == t);
                } else if k > p {
                    assert(vs[k - 1] == t);
                }
            }
            if vs.to_set().contains(t) {
                let k = choose|k: int| 0 <= k < vs.len() && vs[k] == t;
                if k < p {
                    assert(ws[k] == t);
                } else {
                    assert(ws[k + 1] == t);
                }
            }
            if t == xv {
                assert(ws[p as int] == t);
            }
        }
        assert(ws.to_set() =~= vs.to_set().insert(xv));
    }
}

/// The child that a path under `prefix` shows in a listing of the
/// directory: the subdirectory it lies in (with its `/`), or the path
/// itself where it lies directly in the directory.
pub open spec fn child_entry(key: Seq<char>, prefix: Seq<char>) -> Seq<char> {
    let rem = key.subrange(prefix.len() as int, key.len() as int);
    match find_char_spec(rem, '/') {
        Some(s) => if 0 <= s < rem.len() { prefix + rem.subrange(0, s + 1) } else { key },
        None => key,
    }
}

/// The listing of a directory: the children of the paths under it.
pub open spec fn listing(keys: Set<Seq<char>>, prefix: Seq<char>) -> Set<Seq<char>> {
    Set::new(|c: Seq<char>| exists|k: Seq<char>| keys.contains(k) && starts_with_spec(k, prefix) && c == child_entry(k, prefix))
}

fn child_entry_exec(key: &Vec<char>, prefix: &Vec<char>) -> (r: Vec<char>)
    requires
        starts_with_spec(key@, prefix@),
    ensures
        r@ == child_entry(key@, prefix@),
{
    let rem = tail(key, prefix.len());
    let n = rem.len();
    match find_char(&rem, '/') {
        Some(s) => {
            proof {
                lemma_find_char_from_bound(rem@, '/', 0);
            }
            assert(s < n);
            concat(prefix, &slice_of(&rem, 0, s + 1))
        },
        None => slice_of(key, 0, key.len()),
    }
}

impl PakAssetReader {
    /// Lists a directory: the subdirectories (with their `/`) and the files
    /// directly in it, each once, in order; `None` where nothing lies under
    /// it.
    pub fn read_directory(&self, path: &str) -> (r: Option<Vec<String>>)
        requires
            self.wf(),
        ensures
            match r {
                None => listing(self.view().dom(), dir_prefix(path@)).is_empty(),
                Some(v) => {
                    let vs = v@.map_values(|s: String| s@);
                    &&& sorted_strict(vs)
                    &&& vs.to_set() == listing(self.view().dom(), dir_prefix(path@))
                    &&& vs.len() > 0
                },
            },
    {
        let prefix = dir_prefix_exec(path);
        proof {
            self.entries.lemma_dom();
        }
        let ghost keys = self.entries.key_order();
        let n = self.entries.len();
        let mut items: Vec<Vec<char>> = Vec::new();
        let mut i: usize = 0;
        assert(crate::text::views(items@).to_set() =~= Set::<Seq<char>>::empty());
        while i < n
            invariant
                self.wf(),
                keys == self.entries.key_order(),
                n == keys.len(),
                self.view().dom() == keys.to_set(),
                prefix@ == dir_prefix(path@),
                i <= n,
                sorted_strict(crate::text::views(items@)),
                crate::text::views(items@).to_set() == Set::new(|c: Seq<char>| exists|j: int|
                    0 <= j < i && starts_with_spec(#[trigger] keys[j], prefix@) && c == child_entry(keys[j], prefix@)),
            decreases n - i,
        {
            let k = self.entries.key_at(i);
            let ghost before = crate::text::views(items@).to_set();
            if starts_with(k, &prefix) {
                let c = child_entry_exec(k, &prefix);
                insert_sorted(&mut items, c);
            }
            proof {
                let s1 = Set::new(|c: Seq<char>| exists|j: int|
                    0 <= j < i + 1 && starts_with_spec(#[trigger] keys[j], prefix@) && c == child_entry(keys[j], prefix@));
                assert forall|c: Seq<char>| crate::text::views(items@).to_set().contains(c) <==> s1.contains(c) by {
                    if s1.contains(c) {
                        let j = choose|j: int| 0 <= j < i + 1 && starts_with_spec(#[trigger] keys[j], prefix@) && c == child_entry(keys[j], prefix@);
                        if j < i {
                            assert(before.contains(c));
                        }
                    }
                    if before.contains(c) {
                        let j = choose|j: int| 0 <= j < i && starts_with_spec(#[trigger] keys[j], prefix@) && c == child_entry(keys[j], prefix@);
                        assert(s1.contains(c));
                    }
                }
                assert(crate::text::views(items@).to_set() =~= s1);
            }
            i = i + 1;
        }
        proof {
            let l = listing(self.view().dom(), prefix@);
            assert forall|c: Seq<char>| crate::text::views(items@).to_set().contains(c) <==> l.contains(c) by {
                if l.contains(c) {
                    let k = choose|k: Seq<char>| self.view().dom().contains(k) && starts_with_spec(k, prefix@) && c == child_entry(k, prefix@);
                    assert(keys.to_set().contains(k));
                    let j = choose|j: int| 0 <= j < keys.len() && keys[j] == k;
                    assert(starts_with_spec(keys[j], prefix@));
                }
                if crate::text::views(items@).to_set().contains(c) {
                    let j = choose|j: int| 0 <= j < n && starts_with_spec(#[trigger] keys[j], prefix@) && c == child_entry(keys[j], prefix@);
                    assert(keys.to_set().contains(keys[j]));
                }
            }
            assert(crate::text::views(items@).to_set() =~= l);
        }
        if items.len() == 0 {
            proof {
                assert(crate::text::views(items@) =~= Seq::<Seq<char>>::empty());
                assert(listing(self.view().dom(), prefix@) =~= Set::<Seq<char>>::empty());
            }
            return None;
        }
        let mut out: Vec<String> = Vec::new();
        let mut j: usize = 0;
        while j < items.len()
            invariant
                j <= items@.len(),
                out@.map_values(|s: String| s@) == crate::text::views(items@).subrange(0, j as int),
            decreases items@.len() - j,
        {
            let ghost before = out@.map_values(|s: String| s@);
            let st = string_of(&items[j]);
            out.push(st);
            assert(out@.map_values(|s: String| s@) =~= before.push(items@[j as int]@));
            assert(crate::text::views(items@).subrange(0, j + 1) =~= crate::text::views(items@).subrange(0, j as int).push(items@[j as int]@));
            j = j + 1;
        }
        assert(crate::text::views(items@).subrange(0, items@.len() as int) =~= crate::text::views(items@));
        Some(out)
    }
}

} // verus!
