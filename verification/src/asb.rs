//! The `.asb` binary script format.
//!
//! After the magic `ASB\0\0` comes a little-endian `u32` item count, then
//! the items.  Each item starts with a `u32` type: `1` is a block label (a
//! string), `0` is a command (a tag string, a `u32` line number, a `u32`
//! attribute count and that many key/value string pairs).  A string is a
//! `u32` byte length, that many UTF-8 bytes, and a NUL byte.
use vstd::prelude::*;
use vstd::utf8::{valid_utf8, decode_utf8};
use crate::strmap::StrMap;
use crate::text::{chars_of, utf8_to_string};
use crate::iet::attrs_view;

verus! {


/// A command of a block: its tag and attributes.
pub struct AsbCommand {
    pub tag: String,
    pub attrs: StrMap<String>,
}

/// A labelled run of commands.
pub struct AsbBlock {
    pub label: String,
    pub commands: Vec<AsbCommand>,
}

/// A whole script.
pub struct AsbScript {
    pub blocks: Vec<AsbBlock>,
}

/// Why a file is not an `.asb` script.
#[derive(Clone, Copy, Debug, PartialEq, Eq, Structural)]
pub enum AsbError {
    /// It does not start with `ASB\0\0` followed by a count.
    InvalidMagic,
}

pub struct AsbCommandV {
    pub tag: Seq<char>,
    pub attrs: Map<Seq<char>, Seq<char>>,
}

pub struct AsbBlockV {
    pub label: Seq<char>,
    pub commands: Seq<AsbCommandV>,
}

impl AsbCommand {
    pub open spec fn wf(&self) -> bool {
        self.attrs.wf()
    }

    pub open spec fn view(&self) -> AsbCommandV {
        AsbCommandV { tag: self.tag@, attrs: attrs_view(&self.attrs) }
    }
}

pub open spec fn commands_view(v: Seq<AsbCommand>) -> Seq<AsbCommandV> {
    v.map_values(|c: AsbCommand| c.view())
}

pub open spec fn commands_wf(v: Seq<AsbCommand>) -> bool {
    forall|i: int| 0 <= i < v.len() ==> (#[trigger] v[i]).wf()
}

impl AsbBlock {
    pub open spec fn wf(&self) -> bool {
        commands_wf(self.commands@)
    }

    pub open spec fn view(&self) -> AsbBlockV {
        AsbBlockV { label: self.label@, commands: commands_view(self.commands@) }
    }
}

impl AsbScript {
    pub open spec fn wf(&self) -> bool {
        forall|i: int| 0 <= i < self.blocks@.len() ==> (#[trigger] self.blocks@[i]).wf()
    }

    pub open spec fn view(&self) -> Seq<AsbBlockV> {
        self.blocks@.map_values(|b: AsbBlock| b.view())
    }
}

// ------------------------------------------------------------------
// Specification of the format
// ------------------------------------------------------------------

/// The little-endian `u32` at `p`, if four bytes are there.
pub open spec fn u32_at(d: Seq<u8>, p: int) -> Option<int> {
    if 0 <= p && p + 4 <= d.len() {
        Some(d[p] as int + d[p + 1] as int * 0x100 + d[p + 2] as int * 0x1_0000 + d[p + 3] as int * 0x100_0000)
    } else {
        None
    }
}

/// Reading a `u32`: the value and the position after it; a failed read
/// leaves the position where it was.
pub open spec fn read_u32_spec(d: Seq<u8>, p: int) -> (Option<int>, int) {
    match u32_at(d, p) {
        Some(v) => (Some(v), p + 4),
        None => (None, p),
    }
}

/// Reading a string, with the position after the attempt: past the length
/// once that is read, and past the bytes once they are found to be valid
/// UTF-8.
pub open spec fn read_string_spec(d: Seq<u8>, p: int) -> (Option<Seq<char>>, int) {
    match u32_at(d, p) {
        None => (None, p),
        Some(n) => {
            let s = p + 4;
            if s + n + 1 > d.len() {
                (None, s)
            } else if !valid_utf8(d.subrange(s, s + n)) {
                (None, s)
            } else if d[s + n] != 0 {
                (None, s + n)
            } else {
                (Some(decode_utf8(d.subrange(s, s + n))), s + n + 1)
            }
        },
    }
}

/// The attributes of a command after reading `k` pairs from `p`: the map,
/// the position, and whether a read failed.
pub open spec fn attrs_after(d: Seq<u8>, p: int, k: nat) -> (Map<Seq<char>, Seq<char>>, int, bool)
    decreases k,
{
    if k == 0 {
        (Map::empty(), p, false)
    } else {
        let (m, q, stopped) = attrs_after(d, p, (k - 1) as nat);
        if stopped {
            (m, q, true)
        } else {
            let (key, q1) = read_string_spec(d, q);
            match key {
                None => (m, q1, true),
                Some(kk) => {
                    let (val, q2) = read_string_spec(d, q1);
                    match val {
                        None => (m, q2, true),
                        Some(vv) => (m.insert(kk, vv), q2, false),
                    }
                },
            }
        }
    }
}

/// The reader's state: position, finished blocks, current label, pending
/// commands, and whether reading stopped.
pub struct AsbState {
    pub pos: int,
    pub blocks: Seq<AsbBlockV>,
    pub label: Option<Seq<char>>,
    pub cmds: Seq<AsbCommandV>,
    pub done: bool,
}

/// One item.
pub open spec fn asb_step(d: Seq<u8>, st: AsbState) -> AsbState {
    if st.pos + 4 > d.len() {
        AsbState { done: true, ..st }
    } else {
        let (t, p1) = read_u32_spec(d, st.pos);
        if t == Some(1int) {
            let (name, p2) = read_string_spec(d, p1);
            match name {
                None => AsbState { pos: p2, done: true, ..st },
                Some(n) => match st.label {
                    Some(prev) => AsbState {
                        pos: p2,
                        blocks: st.blocks.push(AsbBlockV { label: prev, commands: st.cmds }),
                        label: Some(n),
                        cmds: Seq::empty(),
                        done: false,
                    },
                    None => AsbState { pos: p2, label: Some(n), ..st },
                },
            }
        } else if t == Some(0int) {
            let (tag, p2) = read_string_spec(d, p1);
            match tag {
                None => AsbState { pos: p2, done: true, ..st },
                Some(tg) => {
                    let (_line, p3) = read_u32_spec(d, p2);
                    let (na, p4) = read_u32_spec(d, p3);
                    let n = match na {
                        Some(v) => v,
                        None => 0,
                    };
                    let (attrs, p5, _stopped) = attrs_after(d, p4, n as nat);
                    AsbState { pos: p5, cmds: st.cmds.push(AsbCommandV { tag: tg, attrs }), ..st }
                },
            }
        } else {
            AsbState { pos: p1, done: true, ..st }
        }
    }
}

pub open spec fn asb_start() -> AsbState {
    AsbState { pos: 9, blocks: Seq::empty(), label: None, cmds: Seq::empty(), done: false }
}

/// The state after `k` items.
pub open spec fn asb_after(d: Seq<u8>, k: nat) -> AsbState
    decreases k,
{
    if k == 0 {
        asb_start()
    } else {
        let s = asb_after(d, (k - 1) as nat);
        if s.done {
            s
        } else {
            asb_step(d, s)
        }
    }
}

pub open spec fn has_magic(d: Seq<u8>) -> bool {
    d.len() >= 9 && d[0] == 0x41 && d[1] == 0x53 && d[2] == 0x42 && d[3] == 0 && d[4] == 0
}

/// The blocks of an `.asb` file: the blocks read before reading stops,
/// and the block still open at that point.
pub open spec fn parse_asb_spec(d: Seq<u8>) -> Result<Seq<AsbBlockV>, AsbError> {
    if !has_magic(d) {
        Err(AsbError::InvalidMagic)
    } else {
        let s = asb_after(d, u32_at(d, 5)->0 as nat);
        match s.label {
            Some(l) => Ok(s.blocks.push(AsbBlockV { label: l, commands: s.cmds })),
            None => Ok(s.blocks),
        }
    }
}

// ------------------------------------------------------------------
// Reader
// ------------------------------------------------------------------

/// Reads the little-endian `u32` at `*pos` and moves past it.
pub fn read_u32_le(data: &[u8], pos: &mut usize) -> (r: Option<u32>)
    ensures
        (match r { Some(v) => Some(v as int), None => None }, *final(pos) as int) == read_u32_spec(data@, *old(pos) as int),
{
    let n = data.len();
    if *pos > n || n - *pos < 4 {
        return None;
    }
    let p = *pos;
    let val = (data[p] as u32) + (data[p + 1] as u32) * 0x100 + (data[p + 2] as u32) * 0x1_0000
        + (data[p + 3] as u32) * 0x100_0000;
    *pos = p + 4;
    Some(val)
}

fn copy_bytes(data: &[u8], lo: usize, hi: usize) -> (r: Vec<u8>)
    requires
        lo <= hi <= data@.len(),
    ensures
        r@ == data@.subrange(lo as int, hi as int),
{
    let mut r: Vec<u8> = Vec::new();
    let mut i = lo;
    while i < hi
        invariant
            lo <= i <= hi <= data@.len(),
            r@ == data@.subrange(lo as int, i as int),
        decreases hi - i,
    {
        r.push(data[i]);
        i = i + 1;
        assert(r@ =~= data@.subrange(lo as int, i as int));
    }
    r
}

/// Reads a length-prefixed, NUL-terminated UTF-8 string at `*pos`.
pub fn read_string(data: &[u8], pos: &mut usize) -> (r: Option<String>)
    ensures
        (match r { Some(s) => Some(s@), None => None }, *final(pos) as int) == read_string_spec(data@, *old(pos) as int),
{
    let n = data.len();
    let len = match read_u32_le(data, pos) {
        Some(l) => l as usize,
        None => return None,
    };
    let s = *pos;
    if (s as u128) + (len as u128) + 1 > n as u128 {
        return None;
    }
    let bytes = copy_bytes(data, s, s + len);
    let text = match utf8_to_string(bytes.as_slice()) {
        Some(t) => t,
        None => return None,
    };
    *pos = s + len;
    if data[*pos] != 0 {
        return None;
    }
    *pos = *pos + 1;
    Some(text)
}

/// Reads the attribute pairs of a command.
fn read_attrs(data: &[u8], pos: &mut usize, count: u32) -> (m: StrMap<String>)
    requires
        *old(pos) <= data@.len(),
    ensures
        m.wf(),
        (attrs_view(&m), *final(pos) as int) == (attrs_after(data@, *old(pos) as int, count as nat).0,
            attrs_after(data@, *old(pos) as int, count as nat).1),
        *final(pos) <= data@.len(),
{
    let mut m: StrMap<String> = StrMap::new();
    assert(attrs_view(&m) =~= Map::<Seq<char>, Seq<char>>::empty());
    let mut k: u32 = 0;
    let ghost p0 = *pos as int;
    while k < count
        invariant
            m.wf(),
            k <= count,
            p0 == *old(pos) as int,
            *pos <= data@.len(),
            attrs_after(data@, p0, k as nat) == (attrs_view(&m), *pos as int, false),
        decreases count - k,
    {
        let ghost q = *pos as int;
        let key = match read_string(data, pos) {
            Some(s) => s,
            None => {
                proof {
                    assert(read_string_spec(data@, q).0 is None);
                    assert(attrs_after(data@, p0, (k + 1) as nat) == (attrs_view(&m), *pos as int, true));
                    lemma_attrs_stop(data@, p0, (k + 1) as nat, count as nat);
                }
                return m;
            },
        };
        let ghost q1 = *pos as int;
        let val = match read_string(data, pos) {
            Some(s) => s,
            None => {
                proof {
                    assert(read_string_spec(data@, q).0 == Some(key@));
                    assert(read_string_spec(data@, q1).0 is None);
                    assert(attrs_after(data@, p0, (k + 1) as nat) == (attrs_view(&m), *pos as int, true));
                    lemma_attrs_stop(data@, p0, (k + 1) as nat, count as nat);
                }
                return m;
            },
        };
        let kc = chars_of(key.as_str());
        let ghost before = attrs_view(&m);
        m.insert(&kc, val);
        assert(attrs_view(&m) =~= before.insert(key@, val@));
        k = k + 1;
    }
    m
}

proof fn lemma_attrs_stop(d: Seq<u8>, p: int, k: nat, n: nat)
    requires
        k <= n,
        attrs_after(d, p, k).2,
    ensures
        attrs_after(d, p, n) == attrs_after(d, p, k),
    decreases n - k,
{
    if k < n {
        lemma_attrs_stop(d, p, k + 1, n);
    }
}

proof fn lemma_asb_done_sticks(d: Seq<u8>, k: nat, n: nat)
    requires
        k <= n,
        asb_after(d, k).done,
    ensures
        asb_after(d, n) == asb_after(d, k),
    decreases n - k,
{
    if k < n {
        lemma_asb_done_sticks(d, k + 1, n);
    }
}

/// Reads the blocks of an `.asb` file.
pub fn parse_asb(data: &[u8]) -> (r: Result<AsbScript, AsbError>)
    ensures
        match r {
            Ok(s) => s.wf() && parse_asb_spec(data@) == Ok::<Seq<AsbBlockV>, AsbError>(s.view()),
            Err(e) => parse_asb_spec(data@) == Err::<Seq<AsbBlockV>, AsbError>(e),
        },
{
    let n = data.len();
    if n < 9 || data[0] != 0x41 || data[1] != 0x53 || data[2] != 0x42 || data[3] != 0 || data[4] != 0 {
        return Err(AsbError::InvalidMagic);
    }
    let mut pos: usize = 5;
    let num_items = match read_u32_le(data, &mut pos) {
        Some(v) => v,
        None => 0,
    };
    let mut blocks: Vec<AsbBlock> = Vec::new();
    let mut current_label: Option<String> = None;
    let mut current_commands: Vec<AsbCommand> = Vec::new();
    let ghost dv = data@;
    assert(blocks@.map_values(|b: AsbBlock| b.view()) =~= Seq::<AsbBlockV>::empty());
    assert(commands_view(current_commands@) =~= Seq::<AsbCommandV>::empty());
    let mut i: u32 = 0;
    let mut stopped = false;
    while i < num_items && !stopped
        invariant
            n == data@.len(),
            dv == data@,
            i <= num_items,
            pos <= n,
            forall|j: int| 0 <= j < blocks@.len() ==> (#[trigger] blocks@[j]).wf(),
            commands_wf(current_commands@),
            ({
                let s = asb_after(dv, i as nat);
                &&& s.done == stopped
                &&& !stopped ==> s.pos == pos as int
                &&& s.blocks == blocks@.map_values(|b: AsbBlock| b.view())
                &&& s.label == (match current_label { Some(l) => Some(l@), None => None::<Seq<char>> })
                &&& s.cmds == commands_view(current_commands@)
            }),
        decreases num_items - i,
    {
        if n - pos < 4 {
            stopped = true;
        } else {
            let item_type = match read_u32_le(data, &mut pos) {
                Some(t) => t,
                None => 2,
            };
            if item_type == 1 {
                match read_string(data, &mut pos) {
                    Some(name) => {
                        let prev = current_label.take();
                        if let Some(p) = prev {
                            let mut cmds: Vec<AsbCommand> = Vec::new();
                            std::mem::swap(&mut cmds, &mut current_commands);
                            let ghost bv = blocks@.map_values(|b: AsbBlock| b.view());
                            let blk = AsbBlock { label: p, commands: cmds };
                            blocks.push(blk);
                            assert(blocks@.map_values(|b: AsbBlock| b.view()) =~= bv.push(blk.view()));
                            assert(commands_view(current_commands@) =~= Seq::<AsbCommandV>::empty());
                        }
                        current_label = Some(name);
                    },
                    None => {
                        stopped = true;
                    },
                }
            } else if item_type == 0 {
                match read_string(data, &mut pos) {
                    Some(tag) => {
                        let _line_number = read_u32_le(data, &mut pos);
                        let num_attrs = match read_u32_le(data, &mut pos) {
                            Some(v) => v,
                            None => 0,
                        };
                        let attrs = read_attrs(data, &mut pos, num_attrs);
                        let ghost cv = commands_view(current_commands@);
                        let cmd = AsbCommand { tag, attrs };
                        current_commands.push(cmd);
                        assert(commands_view(current_commands@) =~= cv.push(cmd.view()));
                    },
                    None => {
                        stopped = true;
                    },
                }
            } else {
                stopped = true;
            }
        }
        i = i + 1;
    }
    proof {
        if stopped {
            lemma_asb_done_sticks(dv, i as nat, num_items as nat);
        }
    }
    if let Some(label) = current_label {
        let ghost bv = blocks@.map_values(|b: AsbBlock| b.view());
        let blk = AsbBlock { label, commands: current_commands };
        blocks.push(blk);
        assert(blocks@.map_values(|b: AsbBlock| b.view()) =~= bv.push(blk.view()));
    }
    Ok(AsbScript { blocks })
}

} // verus!
