//! Rebuilding the scene after a saved game is loaded.
//!
//! The scripts are read backwards from the saved place, then from each
//! place a call will return to: the latest background, the latest CG
//! command and the latest command of each character sprite are what the
//! screen showed.
use vstd::prelude::*;
use crate::script::{CmdV, Pos, ScriptCmd, ScriptEngine, Scripts, cmds_view};
use crate::strmap::StrMap;
use crate::text::{chars_of, string_of};

verus! {

/// What a backwards scan has gathered: the commands found, latest first,
/// and what they already cover.
pub struct ScanV {
    pub out: Seq<CmdV>,
    pub bg: bool,
    pub cg: bool,
    pub sprites: Set<Seq<char>>,
}

pub open spec fn scan_start() -> ScanV {
    ScanV { out: Seq::empty(), bg: false, cg: false, sprites: Set::empty() }
}

/// One command, met going backwards: kept, without its transition, where
/// nothing later covers what it shows.
pub open spec fn scan_one(c: CmdV, st: ScanV) -> ScanV {
    match c {
        CmdV::SetBg { file, .. } => if !st.bg {
            ScanV { out: st.out.push(CmdV::SetBg { file, transition: None, duration: None }), bg: true, ..st }
        } else {
            st
        },
        CmdV::ShowCg { file, .. } => if !st.cg {
            ScanV { out: st.out.push(CmdV::ShowCg { file, transition: None }), cg: true, ..st }
        } else {
            st
        },
        CmdV::HideCg { .. } => if !st.cg {
            ScanV { out: st.out.push(CmdV::HideCg { transition: None }), cg: true, ..st }
        } else {
            st
        },
        CmdV::ShowFg { char_id, expression, position, .. } => if !st.sprites.contains(char_id) {
            ScanV {
                out: st.out.push(CmdV::ShowFg { char_id, expression, position, transition: None }),
                sprites: st.sprites.insert(char_id),
                ..st
            }
        } else {
            st
        },
        CmdV::HideFg { char_id, .. } => if !st.sprites.contains(char_id) {
            ScanV {
                out: st.out.push(CmdV::HideFg { char_id, transition: None }),
                sprites: st.sprites.insert(char_id),
                ..st
            }
        } else {
            st
        },
        _ => st,
    }
}

/// The scan of lines `k - 1` down to `0`.
pub open spec fn scan_back(cmds: Seq<CmdV>, k: int, st: ScanV) -> ScanV
    decreases k,
{
    if k <= 0 {
        st
    } else {
        scan_back(cmds, k - 1, scan_one(cmds[k - 1], st))
    }
}

/// The scan of a script from just before line `up_to`; a script that is
/// not loaded adds nothing.
pub open spec fn scan_script(s: Scripts, name: Seq<char>, up_to: int, st: ScanV) -> ScanV {
    if s.dom().contains(name) {
        let cmds = cmds_view(s[name]);
        let end = if up_to < cmds.len() { up_to } else { cmds.len() as int };
        scan_back(cmds, end, st)
    } else {
        st
    }
}

/// The places to scan from: the current one, then the places the calls
/// return to, innermost first.
pub open spec fn restore_frames(p: Pos) -> Seq<(Seq<char>, int)> {
    seq![(p.0, p.1)] + reversed(p.2)
}

pub open spec fn reversed<A>(s: Seq<A>) -> Seq<A> {
    Seq::new(s.len(), |i: int| s[s.len() - 1 - i])
}

/// The scan of the first `k` places.
pub open spec fn scan_frames(s: Scripts, fr: Seq<(Seq<char>, int)>, k: int) -> ScanV
    decreases k,
{
    if k <= 0 {
        scan_start()
    } else {
        scan_script(s, fr[k - 1].0, fr[k - 1].1, scan_frames(s, fr, k - 1))
    }
}

/// The commands that rebuild the scene at place `p`, earliest first.
pub open spec fn scene_restore_spec(p: Pos, s: Scripts) -> Seq<CmdV> {
    let fr = restore_frames(p);
    reversed(scan_frames(s, fr, fr.len() as int).out)
}

/// The state of an executable scan.
struct Scan {
    out: Vec<ScriptCmd>,
    bg: bool,
    cg: bool,
    sprites: StrMap<()>,
}

impl Scan {
    spec fn wf(&self) -> bool {
        self.sprites.wf()
    }

    spec fn view(&self) -> ScanV {
        ScanV { out: cmds_view(self.out@), bg: self.bg, cg: self.cg, sprites: self.sprites.view().dom() }
    }
}

fn copy_string(s: &String) -> (r: String)
    ensures
        r@ == s@,
{
    string_of(&chars_of(s.as_str()))
}

fn scan_cmd(c: &ScriptCmd, st: &mut Scan)
    requires
        old(st).wf(),
    ensures
        final(st).wf(),
        final(st).view() == scan_one(c@, old(st).view()),
{
    let ghost before = st.view();
    match c {
        ScriptCmd::SetBg { file, .. } => {
            if !st.bg {
                st.out.push(ScriptCmd::SetBg { file: copy_string(file), transition: None, duration: None });
                st.bg = true;
                assert(cmds_view(st.out@) =~= before.out.push(CmdV::SetBg { file: file@, transition: None, duration: None }));
            }
        },
        ScriptCmd::ShowCg { file, .. } => {
            if !st.cg {
                st.out.push(ScriptCmd::ShowCg { file: copy_string(file), transition: None });
                st.cg = true;
                assert(cmds_view(st.out@) =~= before.out.push(CmdV::ShowCg { file: file@, transition: None }));
            }
        },
        ScriptCmd::HideCg { .. } => {
            if !st.cg {
                st.out.push(ScriptCmd::HideCg { transition: None });
                st.cg = true;
                assert(cmds_view(st.out@) =~= before.out.push(CmdV::HideCg { transition: None }));
            }
        },
        ScriptCmd::ShowFg { char_id, expression, position, .. } => {
            let k = chars_of(char_id.as_str());
            if !st.sprites.contains_key(&k) {
                st.out.push(ScriptCmd::ShowFg {
                    char_id: copy_string(char_id),
                    expression: copy_string(expression),
                    position: *position,
                    transition: None,
                });
                st.sprites.insert(&k, ());
                assert(cmds_view(st.out@) =~= before.out.push(CmdV::ShowFg {
                    char_id: char_id@,
                    expression: expression@,
                    position: *position,
                    transition: None,
                }));
                assert(st.sprites.view().dom() =~= before.sprites.insert(char_id@));
            }
        },
        ScriptCmd::HideFg { char_id, .. } => {
            let k = chars_of(char_id.as_str());
            if !st.sprites.contains_key(&k) {
                st.out.push(ScriptCmd::HideFg { char_id: copy_string(char_id), transition: None });
                st.sprites.insert(&k, ());
                assert(cmds_view(st.out@) =~= before.out.push(CmdV::HideFg { char_id: char_id@, transition: None }));
                assert(st.sprites.view().dom() =~= before.sprites.insert(char_id@));
            }
        },
        _ => {},
    }
}

proof fn lemma_scan_back_step(cmds: Seq<CmdV>, k: int, st: ScanV)
    requires
        k > 0,
    ensures
        scan_back(cmds, k, st) == scan_back(cmds, k - 1, scan_one(cmds[k - 1], st)),
{
}

impl ScriptEngine {
    /// Scans the script `name` backwards from just before line `up_to`.
    fn scan_script_backwards(&self, name: &String, up_to: usize, st: &mut Scan)
        requires
            self.wf(),
            old(st).wf(),
        ensures
            final(st).wf(),
            final(st).view() == scan_script(self.script_table(), name@, up_to as int, old(st).view()),
    {
        let k = chars_of(name.as_str());
        let cmds = match self.scripts.get(&k) {
            Some(c) => c,
            None => {
                return;
            },
        };
        let ghost cv = cmds_view(cmds@);
        assert(self.script_table()[name@] == cmds@);
        let n = cmds.len();
        let end = if up_to < n { up_to } else { n };
        let ghost target = scan_back(cv, end as int, st.view());
        let mut i = end;
        while i > 0
            invariant
                i <= end <= cmds@.len(),
                cv == cmds_view(cmds@),
                st.wf(),
                scan_back(cv, i as int, st.view()) == target,
            decreases i,
        {
            proof {
                lemma_scan_back_step(cv, i as int, st.view());
            }
            assert(cv[i - 1] == cmds@[i - 1]@);
            scan_cmd(&cmds[i - 1], st);
            i = i - 1;
        }
    }

    /// The commands that put the scene back as it was at the engine's
    /// place: the latest background, CG command and command of each
    /// character sprite before the place, and before each place a call
    /// returns to, earliest first, without transitions.
    pub fn collect_scene_restore(&self) -> (r: Vec<ScriptCmd>)
        requires
            self.wf(),
        ensures
            cmds_view(r@) == scene_restore_spec(self.pos(), self.script_table()),
    {
        let ghost s = self.script_table();
        let ghost fr = restore_frames(self.pos());
        let mut st = Scan { out: Vec::new(), bg: false, cg: false, sprites: StrMap::new() };
        assert(st.view().out =~= Seq::<CmdV>::empty());
        assert(st.view().sprites =~= Set::<Seq<char>>::empty());
        assert(st.view() == scan_frames(s, fr, 0));
        self.scan_script_backwards(&self.current_script, self.current_line, &mut st);
        assert(fr[0] == (self.current_script@, self.current_line as int));
        assert(st.view() == scan_frames(s, fr, 1));
        let n = self.call_stack.len();
        let mut j = n;
        while j > 0
            invariant
                self.wf(),
                j <= n == self.call_stack@.len(),
                s == self.script_table(),
                fr == restore_frames(self.pos()),
                fr.len() == n + 1,
                st.wf(),
                st.view() == scan_frames(s, fr, (n - j + 1) as int),
            decreases j,
        {
            let (name, line) = (&self.call_stack[j - 1].0, self.call_stack[j - 1].1);
            assert(fr[(n - j + 1) as int] == self.stack_view()[j - 1]);
            self.scan_script_backwards(name, line, &mut st);
            j = j - 1;
        }
        let mut out = st.out;
        let ghost ov = cmds_view(out@);
        assert(ov == scan_frames(s, fr, fr.len() as int).out);
        let m = out.len();
        let mut r: Vec<ScriptCmd> = Vec::new();
        assert(cmds_view(r@) =~= reversed(ov).subrange(0, 0));
        assert(cmds_view(out@) =~= ov.subrange(0, m as int));
        while out.len() > 0
            invariant
                out@.len() <= m == ov.len(),
                cmds_view(out@) == ov.subrange(0, out@.len() as int),
                cmds_view(r@) == reversed(ov).subrange(0, m - out@.len()),
            decreases out@.len(),
        {
            let ghost ob = out@;
            let c = out.pop().unwrap();
            assert(c@ == cmds_view(ob)[ob.len() - 1]);
            assert(c@ == ov[ob.len() - 1]);
            let ghost rb = r@;
            r.push(c);
            assert(reversed(ov)[m - ob.len()] == ov[ob.len() - 1]);
            assert(cmds_view(r@) =~= cmds_view(rb).push(ov[ob.len() - 1]));
            assert(cmds_view(r@) =~= reversed(ov).subrange(0, m - out@.len()));
            assert(cmds_view(out@) =~= ov.subrange(0, out@.len() as int));
        }
        assert(reversed(ov).subrange(0, m as int) =~= reversed(ov));
        r
    }
}

// ------------------------------------------------------------------
// What a restore holds
// ------------------------------------------------------------------

pub open spec fn is_bg_cmd(c: CmdV) -> bool {
    c is SetBg
}

pub open spec fn is_cg_cmd(c: CmdV) -> bool {
    c is ShowCg || c is HideCg
}

/// The character a sprite command is about.
pub open spec fn sprite_of(c: CmdV) -> Option<Seq<char>> {
    match c {
        CmdV::ShowFg { char_id, .. } => Some(char_id),
        CmdV::HideFg { char_id, .. } => Some(char_id),
        _ => None,
    }
}

/// A background, CG or sprite command with no transition.
pub open spec fn plain_scene_cmd(c: CmdV) -> bool {
    match c {
        CmdV::SetBg { transition, duration, .. } => transition is None && duration is None,
        CmdV::ShowCg { transition, .. } => transition is None,
        CmdV::HideCg { transition } => transition is None,
        CmdV::ShowFg { transition, .. } => transition is None,
        CmdV::HideFg { transition, .. } => transition is None,
        _ => false,
    }
}

/// Scene commands without transitions, with at most one background, at
/// most one CG command and at most one command per character.
pub open spec fn scene_unique(out: Seq<CmdV>) -> bool {
    &&& forall|i: int| 0 <= i < out.len() ==> plain_scene_cmd(#[trigger] out[i])
    &&& forall|i: int, j: int| 0 <= i < out.len() && 0 <= j < out.len() && i != j
        ==> !(is_bg_cmd(#[trigger] out[i]) && is_bg_cmd(#[trigger] out[j]))
    &&& forall|i: int, j: int| 0 <= i < out.len() && 0 <= j < out.len() && i != j
        ==> !(is_cg_cmd(#[trigger] out[i]) && is_cg_cmd(#[trigger] out[j]))
    &&& forall|i: int, j: int| 0 <= i < out.len() && 0 <= j < out.len() && i != j && (#[trigger] sprite_of(out[i])) is Some
        ==> sprite_of(out[i]) != #[trigger] sprite_of(out[j])
}

spec fn scan_ok(st: ScanV) -> bool {
    &&& scene_unique(st.out)
    &&& forall|i: int| 0 <= i < st.out.len() && is_bg_cmd(#[trigger] st.out[i]) ==> st.bg
    &&& forall|i: int| 0 <= i < st.out.len() && is_cg_cmd(#[trigger] st.out[i]) ==> st.cg
    &&& forall|i: int| 0 <= i < st.out.len() && (#[trigger] sprite_of(st.out[i])) is Some
        ==> st.sprites.contains(sprite_of(st.out[i])->0)
}

proof fn lemma_scan_one_ok(c: CmdV, st: ScanV)
    requires
        scan_ok(st),
    ensures
        scan_ok(scan_one(c, st)),
{
    let r = scan_one(c, st);
    if r.out.len() > st.out.len() {
        assert(r.out == st.out.push(r.out.last()));
        let n = st.out.len() as int;
        assert forall|i: int| 0 <= i < r.out.len() implies plain_scene_cmd(#[trigger] r.out[i]) by {
            if i < n {
                assert(r.out[i] == st.out[i]);
            }
        }
        assert forall|i: int, j: int| 0 <= i < r.out.len() && 0 <= j < r.out.len() && i != j
            implies !(is_bg_cmd(#[trigger] r.out[i]) && is_bg_cmd(#[trigger] r.out[j])) by {
            if i < n && j < n {
                assert(r.out[i] == st.out[i] && r.out[j] == st.out[j]);
            } else if i < n {
                assert(r.out[i] == st.out[i]);
            } else {
                assert(r.out[j] == st.out[j]);
            }
        }
        assert forall|i: int, j: int| 0 <= i < r.out.len() && 0 <= j < r.out.len() && i != j
            implies !(is_cg_cmd(#[trigger] r.out[i]) && is_cg_cmd(#[trigger] r.out[j])) by {
            if i < n && j < n {
                assert(r.out[i] == st.out[i] && r.out[j] == st.out[j]);
            } else if i < n {
                assert(r.out[i] == st.out[i]);
            } else {
                assert(r.out[j] == st.out[j]);
            }
        }
        assert forall|i: int, j: int| 0 <= i < r.out.len() && 0 <= j < r.out.len() && i != j && (#[trigger] sprite_of(r.out[i])) is Some
            implies sprite_of(r.out[i]) != #[trigger] sprite_of(r.out[j]) by {
            if i < n && j < n {
                assert(r.out[i] == st.out[i] && r.out[j] == st.out[j]);
            } else if i < n {
                assert(r.out[i] == st.out[i]);
            } else {
                assert(r.out[j] == st.out[j]);
            }
        }
        assert forall|i: int| 0 <= i < r.out.len() && is_bg_cmd(#[trigger] r.out[i]) implies r.bg by {
            if i < n {
                assert(r.out[i] == st.out[i]);
            }
        }
        assert forall|i: int| 0 <= i < r.out.len() && is_cg_cmd(#[trigger] r.out[i]) implies r.cg by {
            if i < n {
                assert(r.out[i] == st.out[i]);
            }
        }
        assert forall|i: int| 0 <= i < r.out.len() && (#[trigger] sprite_of(r.out[i])) is Some
            implies r.sprites.contains(sprite_of(r.out[i])->0) by {
            if i < n {
                assert(r.out[i] == st.out[i]);
            }
        }
    } else {
        assert(r == st);
    }
}

proof fn lemma_scan_back_ok(cmds: Seq<CmdV>, k: int, st: ScanV)
    requires
        scan_ok(st),
    ensures
        scan_ok(scan_back(cmds, k, st)),
    decreases k,
{
    if k > 0 {
        lemma_scan_one_ok(cmds[k - 1], st);
        lemma_scan_back_ok(cmds, k - 1, scan_one(cmds[k - 1], st));
    }
}

proof fn lemma_scan_frames_ok(s: Scripts, fr: Seq<(Seq<char>, int)>, k: int)
    ensures
        scan_ok(scan_frames(s, fr, k)),
    decreases k,
{
    if k <= 0 {
        assert(scan_start().out.len() == 0);
    } else {
        lemma_scan_frames_ok(s, fr, k - 1);
        let st = scan_frames(s, fr, k - 1);
        if s.dom().contains(fr[k - 1].0) {
            let cmds = cmds_view(s[fr[k - 1].0]);
            let end = if fr[k - 1].1 < cmds.len() { fr[k - 1].1 } else { cmds.len() as int };
            lemma_scan_back_ok(cmds, end, st);
        }
    }
}

/// A restored scene shows each thing once: at most one background, at
/// most one CG and at most one sprite command per character, each
/// without a transition.
pub proof fn law_restore_shows_each_thing_once(p: Pos, s: Scripts)
    ensures
        scene_unique(scene_restore_spec(p, s)),
{
    let fr = restore_frames(p);
    lemma_scan_frames_ok(s, fr, fr.len() as int);
    let out = scan_frames(s, fr, fr.len() as int).out;
    let r = reversed(out);
    let n = out.len();
    assert forall|i: int| 0 <= i < r.len() implies plain_scene_cmd(#[trigger] r[i]) by {
        assert(r[i] == out[n - 1 - i]);
    }
    assert forall|i: int, j: int| 0 <= i < r.len() && 0 <= j < r.len() && i != j
        implies !(is_bg_cmd(#[trigger] r[i]) && is_bg_cmd(#[trigger] r[j])) by {
        assert(r[i] == out[n - 1 - i] && r[j] == out[n - 1 - j]);
    }
    assert forall|i: int, j: int| 0 <= i < r.len() && 0 <= j < r.len() && i != j
        implies !(is_cg_cmd(#[trigger] r[i]) && is_cg_cmd(#[trigger] r[j])) by {
        assert(r[i] == out[n - 1 - i] && r[j] == out[n - 1 - j]);
    }
    assert forall|i: int, j: int| 0 <= i < r.len() && 0 <= j < r.len() && i != j && (#[trigger] sprite_of(r[i])) is Some
        implies sprite_of(r[i]) != #[trigger] sprite_of(r[j]) by {
        assert(r[i] == out[n - 1 - i] && r[j] == out[n - 1 - j]);
    }
}

proof fn lemma_scan_back_grows(cmds: Seq<CmdV>, k: int, st: ScanV)
    ensures
        scan_back(cmds, k, st).out.len() >= st.out.len(),
        scan_back(cmds, k, st).out.subrange(0, st.out.len() as int) == st.out,
    decreases k,
{
    if k > 0 {
        let st1 = scan_one(cmds[k - 1], st);
        assert(st1.out.subrange(0, st.out.len() as int) =~= st.out);
        lemma_scan_back_grows(cmds, k - 1, st1);
        let r = scan_back(cmds, k, st).out;
        assert(r.subrange(0, st.out.len() as int) =~= r.subrange(0, st1.out.len() as int).subrange(0, st.out.len() as int));
    } else {
        assert(st.out.subrange(0, st.out.len() as int) =~= st.out);
    }
}

proof fn lemma_scan_frames_grows(s: Scripts, fr: Seq<(Seq<char>, int)>, a: int, b: int)
    requires
        0 <= a <= b,
    ensures
        scan_frames(s, fr, b).out.len() >= scan_frames(s, fr, a).out.len(),
        scan_frames(s, fr, b).out.subrange(0, scan_frames(s, fr, a).out.len() as int) == scan_frames(s, fr, a).out,
    decreases b - a,
{
    let sa = scan_frames(s, fr, a).out;
    if a == b {
        assert(sa.subrange(0, sa.len() as int) =~= sa);
    } else {
        lemma_scan_frames_grows(s, fr, a, b - 1);
        let st = scan_frames(s, fr, b - 1);
        if s.dom().contains(fr[b - 1].0) {
            let cmds = cmds_view(s[fr[b - 1].0]);
            let end = if fr[b - 1].1 < cmds.len() { fr[b - 1].1 } else { cmds.len() as int };
            lemma_scan_back_grows(cmds, end, st);
        }
        let sb = scan_frames(s, fr, b).out;
        assert(sb.subrange(0, sa.len() as int) =~= sb.subrange(0, st.out.len() as int).subrange(0, sa.len() as int));
    }
}

proof fn lemma_scan_back_latest_bg(cmds: Seq<CmdV>, end: int, k: int, st: ScanV)
    requires
        0 <= k < end <= cmds.len(),
        !st.bg,
        cmds[k] is SetBg,
        forall|j: int| k < j < end ==> !(#[trigger] cmds[j] is SetBg),
    ensures
        scan_back(cmds, end, st).out.contains(CmdV::SetBg { file: cmds[k]->SetBg_file, transition: None, duration: None }),
    decreases end,
{
    let st1 = scan_one(cmds[end - 1], st);
    if end - 1 == k {
        let c = CmdV::SetBg { file: cmds[k]->SetBg_file, transition: None, duration: None };
        assert(st1.out.last() == c);
        lemma_scan_back_grows(cmds, end - 1, st1);
        let r = scan_back(cmds, end, st).out;
        assert(r[st1.out.len() - 1] == r.subrange(0, st1.out.len() as int)[st1.out.len() - 1]);
        assert(r[st1.out.len() - 1] == c);
    } else {
        assert(!(cmds[end - 1] is SetBg));
        assert(!st1.bg);
        lemma_scan_back_latest_bg(cmds, end - 1, k, st1);
    }
}

/// On loading, the background shown is the one that the latest background
/// command before the saved place in the current script set.
pub proof fn law_restore_keeps_latest_background(p: Pos, s: Scripts, k: int)
    requires
        s.dom().contains(p.0),
        0 <= k < p.1,
        k < s[p.0].len(),
        s[p.0][k]@ is SetBg,
        forall|j: int| k < j < p.1 && j < s[p.0].len() ==> !(#[trigger] s[p.0][j]@ is SetBg),
    ensures
        scene_restore_spec(p, s).contains(CmdV::SetBg { file: s[p.0][k]@->SetBg_file, transition: None, duration: None }),
{
    let fr = restore_frames(p);
    let cmds = cmds_view(s[p.0]);
    let end = if p.1 < cmds.len() { p.1 } else { cmds.len() as int };
    assert(fr[0] == (p.0, p.1));
    assert(cmds[k] == s[p.0][k]@);
    assert forall|j: int| k < j < end implies !(#[trigger] cmds[j] is SetBg) by {
        assert(cmds[j] == s[p.0][j]@);
    }
    assert(scan_frames(s, fr, 0) == scan_start());
    lemma_scan_back_latest_bg(cmds, end, k, scan_start());
    let c = CmdV::SetBg { file: s[p.0][k]@->SetBg_file, transition: None, duration: None };
    let first = scan_frames(s, fr, 1).out;
    assert(first.contains(c));
    let i = choose|i: int| 0 <= i < first.len() && first[i] == c;
    lemma_scan_frames_grows(s, fr, 1, fr.len() as int);
    let all = scan_frames(s, fr, fr.len() as int).out;
    assert(all[i] == all.subrange(0, first.len() as int)[i]);
    let r = reversed(all);
    assert(r[all.len() - 1 - i] == all[i]);
}

/// What the screen shows of a CG command, without its transition.
pub open spec fn cg_shown(c: CmdV) -> CmdV {
    match c {
        CmdV::ShowCg { file, .. } => CmdV::ShowCg { file, transition: None },
        _ => CmdV::HideCg { transition: None },
    }
}

proof fn lemma_scan_back_latest_cg(cmds: Seq<CmdV>, end: int, k: int, st: ScanV)
    requires
        0 <= k < end <= cmds.len(),
        !st.cg,
        is_cg_cmd(cmds[k]),
        forall|j: int| k < j < end ==> !is_cg_cmd(#[trigger] cmds[j]),
    ensures
        scan_back(cmds, end, st).out.contains(cg_shown(cmds[k])),
    decreases end,
{
    let st1 = scan_one(cmds[end - 1], st);
    if end - 1 == k {
        let c = cg_shown(cmds[k]);
        assert(st1.out.last() == c);
        lemma_scan_back_grows(cmds, end - 1, st1);
        let r = scan_back(cmds, end, st).out;
        assert(r[st1.out.len() - 1] == r.subrange(0, st1.out.len() as int)[st1.out.len() - 1]);
        assert(r[st1.out.len() - 1] == c);
    } else {
        assert(!is_cg_cmd(cmds[end - 1]));
        assert(!st1.cg);
        lemma_scan_back_latest_cg(cmds, end - 1, k, st1);
    }
}

/// On loading, the CG on screen is what the latest CG command before the
/// saved place in the current script left: the picture that a `ShowCg`
/// showed comes back (without its transition), and after a `HideCg` the CG
/// stays hidden.
pub proof fn law_restore_keeps_latest_cg(p: Pos, s: Scripts, k: int)
    requires
        s.dom().contains(p.0),
        0 <= k < p.1,
        k < s[p.0].len(),
        s[p.0][k]@ is ShowCg || s[p.0][k]@ is HideCg,
        forall|j: int| k < j < p.1 && j < s[p.0].len() ==>
            !(#[trigger] s[p.0][j]@ is ShowCg || s[p.0][j]@ is HideCg),
    ensures
        s[p.0][k]@ is ShowCg ==> scene_restore_spec(p, s).contains(
            CmdV::ShowCg { file: s[p.0][k]@->ShowCg_file, transition: None }),
        s[p.0][k]@ is HideCg ==> scene_restore_spec(p, s).contains(CmdV::HideCg { transition: None }),
{
    let fr = restore_frames(p);
    let cmds = cmds_view(s[p.0]);
    let end = if p.1 < cmds.len() { p.1 } else { cmds.len() as int };
    assert(fr[0] == (p.0, p.1));
    assert(cmds[k] == s[p.0][k]@);
    assert forall|j: int| k < j < end implies !is_cg_cmd(#[trigger] cmds[j]) by {
        assert(cmds[j] == s[p.0][j]@);
    }
    assert(scan_frames(s, fr, 0) == scan_start());
    lemma_scan_back_latest_cg(cmds, end, k, scan_start());
    let c = cg_shown(cmds[k]);
    let first = scan_frames(s, fr, 1).out;
    assert(first.contains(c));
    let i = choose|i: int| 0 <= i < first.len() && first[i] == c;
    lemma_scan_frames_grows(s, fr, 1, fr.len() as int);
    let all = scan_frames(s, fr, fr.len() as int).out;
    assert(all[i] == all.subrange(0, first.len() as int)[i]);
    let r = reversed(all);
    assert(r[all.len() - 1 - i] == all[i]);
}

/// What the screen shows of a sprite command, without its transition.
pub open spec fn sprite_shown(c: CmdV) -> CmdV {
    match c {
        CmdV::ShowFg { char_id, expression, position, .. } => CmdV::ShowFg { char_id, expression, position, transition: None },
        CmdV::HideFg { char_id, .. } => CmdV::HideFg { char_id, transition: None },
        _ => c,
    }
}

proof fn lemma_scan_back_latest_sprite(cmds: Seq<CmdV>, end: int, k: int, st: ScanV, who: Seq<char>)
    requires
        0 <= k < end <= cmds.len(),
        !st.sprites.contains(who),
        sprite_of(cmds[k]) == Some(who),
        forall|j: int| k < j < end ==> sprite_of(#[trigger] cmds[j]) != Some(who),
    ensures
        scan_back(cmds, end, st).out.contains(sprite_shown(cmds[k])),
    decreases end,
{
    let st1 = scan_one(cmds[end - 1], st);
    if end - 1 == k {
        let c = sprite_shown(cmds[k]);
        assert(st1.out.last() == c);
        lemma_scan_back_grows(cmds, end - 1, st1);
        let r = scan_back(cmds, end, st).out;
        assert(r[st1.out.len() - 1] == r.subrange(0, st1.out.len() as int)[st1.out.len() - 1]);
        assert(r[st1.out.len() - 1] == c);
    } else {
        assert(sprite_of(cmds[end - 1]) != Some(who));
        assert(!st1.sprites.contains(who));
        lemma_scan_back_latest_sprite(cmds, end - 1, k, st1, who);
    }
}

/// On loading, each character's sprite is what the latest command for that
/// character before the saved place in the current script left: shown
/// with the same expression and position (without its transition), or
/// hidden.
pub proof fn law_restore_keeps_latest_sprite(p: Pos, s: Scripts, k: int, who: Seq<char>)
    requires
        s.dom().contains(p.0),
        0 <= k < p.1,
        k < s[p.0].len(),
        (s[p.0][k]@ is ShowFg && s[p.0][k]@->ShowFg_char_id == who)
            || (s[p.0][k]@ is HideFg && s[p.0][k]@->HideFg_char_id == who),
        forall|j: int| k < j < p.1 && j < s[p.0].len() ==>
            !((#[trigger] s[p.0][j]@ is ShowFg && s[p.0][j]@->ShowFg_char_id == who)
                || (s[p.0][j]@ is HideFg && s[p.0][j]@->HideFg_char_id == who)),
    ensures
        s[p.0][k]@ is ShowFg ==> scene_restore_spec(p, s).contains(CmdV::ShowFg {
            char_id: who,
            expression: s[p.0][k]@->ShowFg_expression,
            position: s[p.0][k]@->ShowFg_position,
            transition: None,
        }),
        s[p.0][k]@ is HideFg ==> scene_restore_spec(p, s).contains(CmdV::HideFg { char_id: who, transition: None }),
{
    let fr = restore_frames(p);
    let cmds = cmds_view(s[p.0]);
    let end = if p.1 < cmds.len() { p.1 } else { cmds.len() as int };
    assert(fr[0] == (p.0, p.1));
    assert(cmds[k] == s[p.0][k]@);
    assert forall|j: int| k < j < end implies sprite_of(#[trigger] cmds[j]) != Some(who) by {
        assert(cmds[j] == s[p.0][j]@);
    }
    assert(scan_frames(s, fr, 0) == scan_start());
    lemma_scan_back_latest_sprite(cmds, end, k, scan_start(), who);
    let c = sprite_shown(cmds[k]);
    let first = scan_frames(s, fr, 1).out;
    assert(first.contains(c));
    let i = choose|i: int| 0 <= i < first.len() && first[i] == c;
    lemma_scan_frames_grows(s, fr, 1, fr.len() as int);
    let all = scan_frames(s, fr, fr.len() as int).out;
    assert(all[i] == all.subrange(0, first.len() as int)[i]);
    let r = reversed(all);
    assert(r[all.len() - 1 - i] == all[i]);
}

} // verus!
