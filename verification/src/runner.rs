//! Running scripts: what each command does to the engine and to the state
//! of play, when the runner stops to wait for the player, and what happens
//! between runs.
//!
//! The runner alternates with the outside world: it tells its caller to
//! clear the scene, to wait, or that a route is over, and the caller draws,
//! plays sounds and waits for input.
use vstd::prelude::*;
use std::collections::HashMap;
use crate::script::{
    ChoiceOption, ChoiceV, CmdV, ConditionOp, Pos, ScriptCmd, ScriptEngine, Scripts, call_label_pos,
    call_script_pos, checked_script_expression, choices_view, eval_condition_spec, evaluate_condition_expression,
    evaluate_script_expression, jump_pos, next_script_name, op_holds, op_holds_exec, opt_str_view, return_pos,
    script_expr_value, script_number,
};
use crate::strmap::StrMap;
use crate::text::{byte_len, chars_of, string_of};
use crate::view_data::{lookup_view_entry, view_entry_spec};

verus! {

broadcast use vstd::std_specs::hash::group_hash_axioms;

// ------------------------------------------------------------------
// The backlog
// ------------------------------------------------------------------

/// The most lines the backlog keeps.
pub const BACKLOG_LIMIT: usize = 200;

/// A line of the backlog: who spoke, what, and the voice file.
pub struct BacklogEntry {
    pub speaker: Option<String>,
    pub text: String,
    pub voice_file: Option<String>,
}

pub type EntryV = (Option<Seq<char>>, Seq<char>, Option<Seq<char>>);

pub open spec fn entry_view(e: BacklogEntry) -> EntryV {
    (opt_str_view(e.speaker), e.text@, opt_str_view(e.voice_file))
}

/// The last lines shown, oldest first.
pub struct Backlog {
    pub entries: Vec<BacklogEntry>,
}

/// The backlog after a line is added: the oldest line goes once there are
/// more than `BACKLOG_LIMIT`.
pub open spec fn backlog_push(b: Seq<EntryV>, e: EntryV) -> Seq<EntryV> {
    let b1 = b.push(e);
    if b1.len() > BACKLOG_LIMIT {
        b1.drop_first()
    } else {
        b1
    }
}

impl Backlog {
    pub open spec fn view(&self) -> Seq<EntryV> {
        self.entries@.map_values(|e: BacklogEntry| entry_view(e))
    }

    /// An empty backlog.
    pub fn new() -> (b: Backlog)
        ensures
            b.view() == Seq::<EntryV>::empty(),
    {
        let b = Backlog { entries: Vec::new() };
        assert(b.view() =~= Seq::<EntryV>::empty());
        b
    }

    /// Adds a line at the end.
    pub fn push_entry(&mut self, e: BacklogEntry)
        ensures
            final(self).view() == backlog_push(old(self).view(), entry_view(e)),
    {
        let ghost before = self.view();
        let ghost ev = entry_view(e);
        self.entries.push(e);
        assert(self.view() =~= before.push(ev));
        if self.entries.len() > BACKLOG_LIMIT {
            let ghost pushed = self.view();
            self.entries.remove(0);
            assert(self.view() =~= pushed.drop_first());
        }
    }
}

/// A backlog never holds more than `BACKLOG_LIMIT` lines, and the line
/// just added is its last.
pub proof fn law_backlog_bounded(b: Seq<EntryV>, e: EntryV)
    requires
        b.len() <= BACKLOG_LIMIT,
    ensures
        backlog_push(b, e).len() <= BACKLOG_LIMIT,
        backlog_push(b, e).last() == e,
{
}

// ------------------------------------------------------------------
// The state of play
// ------------------------------------------------------------------

/// The line of text on screen.
pub struct DialogueState {
    pub current_text: String,
    pub current_speaker: Option<String>,
    /// How many bytes of the text are revealed.
    pub text_progress: usize,
    pub is_displaying: bool,
    pub text_queue: Vec<String>,
}

/// The choice on screen, if one is open.
pub struct ChoiceState {
    pub active: bool,
    pub options: Vec<ChoiceOption>,
}

/// What the player has seen: CG pictures, music, and cleared scenes.
pub struct UnlockState {
    pub cg_unlocked: StrMap<()>,
    pub bgm_unlocked: StrMap<()>,
    pub scene_cleared: StrMap<()>,
}

/// Everything besides the engine that commands change.
pub struct PlayState {
    /// Affection per character.
    pub affection: StrMap<i32>,
    pub dialogue: DialogueState,
    pub backlog: Backlog,
    pub choice: ChoiceState,
    pub unlock: UnlockState,
    /// The opening is running; its music is not interrupted.
    pub intro: bool,
    /// The message window was hidden by a command.
    pub window_override: bool,
    /// An automatic save is due.
    pub auto_save: bool,
    /// The voice of the next line, once a command plays one.
    pub pending_voice: Option<String>,
}

/// The state of play, with every string as its characters.
pub struct PlayV {
    pub affection: Map<Seq<char>, i32>,
    pub text: Seq<char>,
    pub speaker: Option<Seq<char>>,
    pub progress: int,
    pub displaying: bool,
    pub backlog: Seq<EntryV>,
    pub choice_active: bool,
    pub choice_options: Seq<ChoiceV>,
    pub cg_unlocked: Set<Seq<char>>,
    pub bgm_unlocked: Set<Seq<char>>,
    pub intro: bool,
    pub window_override: bool,
    pub auto_save: bool,
    pub pending_voice: Option<Seq<char>>,
}

/// The state of play at the start of a game: no affection, no line on
/// screen, an empty backlog, no choice open, nothing unlocked, no opening
/// running, the window not overridden, no save due and no voice pending.
pub open spec fn play_start() -> PlayV {
    PlayV {
        affection: Map::empty(),
        text: Seq::empty(),
        speaker: None,
        progress: 0,
        displaying: false,
        backlog: Seq::empty(),
        choice_active: false,
        choice_options: Seq::empty(),
        cg_unlocked: Set::empty(),
        bgm_unlocked: Set::empty(),
        intro: false,
        window_override: false,
        auto_save: false,
        pending_voice: None,
    }
}

impl PlayState {
    pub open spec fn wf(&self) -> bool {
        &&& self.affection.wf()
        &&& self.unlock.cg_unlocked.wf()
        &&& self.unlock.bgm_unlocked.wf()
        &&& self.unlock.scene_cleared.wf()
    }

    pub open spec fn view(&self) -> PlayV {
        PlayV {
            affection: self.affection.view(),
            text: self.dialogue.current_text@,
            speaker: opt_str_view(self.dialogue.current_speaker),
            progress: self.dialogue.text_progress as int,
            displaying: self.dialogue.is_displaying,
            backlog: self.backlog.view(),
            choice_active: self.choice.active,
            choice_options: choices_view(self.choice.options@),
            cg_unlocked: self.unlock.cg_unlocked.view().dom(),
            bgm_unlocked: self.unlock.bgm_unlocked.view().dom(),
            intro: self.intro,
            window_override: self.window_override,
            auto_save: self.auto_save,
            pending_voice: opt_str_view(self.pending_voice),
        }
    }

    /// The state of play at the start of a game: nothing shown, nothing
    /// unlocked.
    pub fn new() -> (p: PlayState)
        ensures
            p.wf(),
            p.view() == play_start(),
            p.unlock.scene_cleared.view() == Map::<Seq<char>, ()>::empty(),
            p.dialogue.text_queue@ == Seq::<String>::empty(),
    {
        let p = PlayState {
            affection: StrMap::new(),
            dialogue: DialogueState {
                current_text: String::new(),
                current_speaker: None,
                text_progress: 0,
                is_displaying: false,
                text_queue: Vec::new(),
            },
            backlog: Backlog::new(),
            choice: ChoiceState { active: false, options: Vec::new() },
            unlock: UnlockState { cg_unlocked: StrMap::new(), bgm_unlocked: StrMap::new(), scene_cleared: StrMap::new() },
            intro: false,
            window_override: false,
            auto_save: false,
            pending_voice: None,
        };
        assert(p.view().cg_unlocked =~= Set::<Seq<char>>::empty());
        assert(p.view().bgm_unlocked =~= Set::<Seq<char>>::empty());
        assert(p.dialogue.current_text@ =~= Seq::<char>::empty());
        assert(choices_view(p.choice.options@) =~= Seq::<ChoiceV>::empty());
        assert(p.view() =~= play_start());
        p
    }
}

/// The engine, without its scripts, with every string as its characters.
pub struct EngineV {
    pub pos: Pos,
    pub flags: Map<Seq<char>, i32>,
    pub global_flags: Map<u32, i32>,
    pub local_work: Map<u32, i32>,
    pub local_flags: Map<u32, i32>,
    pub dialogue_idx: int,
    pub finished: bool,
}

pub open spec fn engine_view(e: &ScriptEngine) -> EngineV {
    EngineV {
        pos: e.pos(),
        flags: e.flags.view(),
        global_flags: e.global_flags@,
        local_work: e.local_work@,
        local_flags: e.local_flags@,
        dialogue_idx: e.dialogue_idx as int,
        finished: e.finished,
    }
}

// ------------------------------------------------------------------
// One command
// ------------------------------------------------------------------

/// What the runner does after a command.
#[derive(Clone, Copy, Debug, PartialEq, Eq, Structural)]
pub enum Flow {
    /// Go on with the next command.
    Next,
    /// Clear the scene's sprites, then go on.
    ClearThenNext,
    /// Stop and wait: for the player, a timer or a movie.
    Stop,
    /// Clear the scene's sprites, then stop.
    ClearThenStop,
    /// A value went into a work slot: bring affection up to date, then go on.
    Stored { index: u32, value: i32 },
    /// The script halted: leave the route.
    Halted,
}

/// The value of a map entry, or 0.
pub open spec fn or_zero<K>(m: Map<K, i32>, k: K) -> i32 {
    if m.dom().contains(k) {
        m[k]
    } else {
        0
    }
}

/// Whether a command is at the engine's place.
pub open spec fn has_more_at(p: Pos, s: Scripts) -> bool {
    s.dom().contains(p.0) && 0 <= p.1 < s[p.0].len()
}

/// The place after moving past one command, where there is one.
pub open spec fn advance_pos(p: Pos, s: Scripts) -> Pos {
    if has_more_at(p, s) {
        (p.0, p.1 + 1, p.2)
    } else {
        p
    }
}

pub open spec fn with_pos(e: EngineV, pos: Pos) -> EngineV {
    EngineV { pos, ..e }
}

pub open spec fn set_tmp(e: EngineV, v: i32) -> EngineV {
    EngineV { flags: e.flags.insert("tmp"@, v), ..e }
}

/// The state of play once a line of text is shown: it goes to the
/// backlog with the pending voice, and is revealed at once when skipping.
pub open spec fn show_line(p: PlayV, speaker: Option<Seq<char>>, text: Seq<char>, skip: bool) -> PlayV {
    PlayV {
        intro: if p.intro && speaker is Some { false } else { p.intro },
        backlog: backlog_push(p.backlog, (speaker, text, p.pending_voice)),
        pending_voice: None,
        window_override: false,
        speaker,
        text,
        progress: if skip { byte_len(text) as int } else { 0 },
        displaying: !skip,
        ..p
    }
}

pub open spec fn clear_line(p: PlayV) -> PlayV {
    PlayV { text: Seq::empty(), speaker: None, progress: 0, displaying: false, ..p }
}

/// A conditional jump: to the label where the condition holds.
pub open spec fn jump_if(e: EngineV, s: Scripts, met: bool, goto: Seq<char>) -> (EngineV, Flow) {
    if met {
        (with_pos(e, jump_pos(e.pos, s, goto)), Flow::ClearThenNext)
    } else {
        (e, Flow::Next)
    }
}

/// What a command does, once the engine has moved past it.  Commands that
/// only draw or sound change nothing here and go on.
pub open spec fn apply_spec(e: EngineV, s: Scripts, p: PlayV, c: CmdV, skip: bool) -> (EngineV, PlayV, Flow) {
    match c {
        CmdV::Dialogue { speaker, text } => (
            EngineV { dialogue_idx: e.dialogue_idx + 1, ..e },
            show_line(p, speaker, text, skip),
            if skip { Flow::Next } else { Flow::Stop },
        ),
        CmdV::ClearText => (e, clear_line(p), Flow::Next),
        CmdV::Jump { target } => (
            EngineV { pos: jump_pos(e.pos, s, target), finished: false, ..e },
            p,
            Flow::ClearThenNext,
        ),
        CmdV::Call { target } => (
            EngineV { pos: call_label_pos(e.pos, s, target), finished: false, ..e },
            p,
            Flow::ClearThenNext,
        ),
        CmdV::CallScript { script, label } => (
            EngineV {
                pos: call_script_pos(e.pos, s, script, label),
                finished: false,
                dialogue_idx: if s.dom().contains(script) { 0 } else { e.dialogue_idx },
                ..e
            },
            p,
            Flow::ClearThenNext,
        ),
        CmdV::Return => (
            EngineV { pos: return_pos(e.pos), finished: false, ..e },
            p,
            Flow::ClearThenNext,
        ),
        CmdV::Condition { var, value, operator, goto } => {
            let r = jump_if(e, s, op_holds(operator, or_zero(e.flags, var) as int, value as int), goto);
            (r.0, p, r.1)
        },
        CmdV::AffectionCondition { char_id, value, operator, goto } => {
            let r = jump_if(e, s, op_holds(operator, or_zero(p.affection, char_id) as int, value as int), goto);
            (r.0, p, r.1)
        },
        CmdV::SetFlag { name, value } => (EngineV { flags: e.flags.insert(name, value), ..e }, p, Flow::Next),
        CmdV::SetLocalFlag { index, value } => (EngineV { local_flags: e.local_flags.insert(index, value), ..e }, p, Flow::Next),
        CmdV::SetGlobalFlag { index, value } => (EngineV { global_flags: e.global_flags.insert(index, value), ..e }, p, Flow::Next),
        CmdV::StoreValueToLocalWork { index, value, expression } => {
            let v: i32 = match expression {
                Some(x) => script_expr_value(x, e.flags) as i32,
                None => value,
            };
            (EngineV { local_work: e.local_work.insert(index, v), ..e }, p, Flow::Stored { index, value: v })
        },
        CmdV::LoadValueFromLocalWork { index } => (set_tmp(e, or_zero(e.local_work, index)), p, Flow::Next),
        CmdV::GetLocalFlag { index } => (set_tmp(e, or_zero(e.local_flags, index)), p, Flow::Next),
        CmdV::GetGlobalFlag { index } => (set_tmp(e, or_zero(e.global_flags, index)), p, Flow::Next),
        CmdV::QueryMode { .. } => (set_tmp(e, 0), p, Flow::Next),
        CmdV::Exif { expression } => if eval_condition_spec(expression, e.flags) {
            (e, p, Flow::Next)
        } else {
            (with_pos(e, advance_pos(e.pos, s)), p, Flow::Next)
        },
        CmdV::Halt => (EngineV { pos: (Seq::empty(), 0, Seq::empty()), finished: true, ..e }, p, Flow::Halted),
        CmdV::AffectionChange { char_id, delta } => (
            e,
            PlayV { affection: p.affection.insert(char_id, (or_zero(p.affection, char_id) + delta) as i32), ..p },
            Flow::Next,
        ),
        CmdV::SavePoint => (e, PlayV { auto_save: true, ..p }, Flow::Next),
        CmdV::UnlockCg { file } => (e, PlayV { cg_unlocked: p.cg_unlocked.insert(file), ..p }, Flow::Next),
        CmdV::ShowCg { file, .. } => (e, PlayV { cg_unlocked: p.cg_unlocked.insert(file), ..p }, Flow::Next),
        CmdV::PlayBgm { id, .. } => (e, if p.intro { p } else { PlayV { bgm_unlocked: p.bgm_unlocked.insert(id), ..p } }, Flow::Next),
        CmdV::PlayBgmX { id, .. } => (e, if p.intro { p } else { PlayV { bgm_unlocked: p.bgm_unlocked.insert(id), ..p } }, Flow::Next),
        CmdV::PlayVoice { file } => (e, PlayV { pending_voice: Some(file), ..p }, Flow::Next),
        CmdV::Window { show, .. } => (e, PlayV { window_override: !show, ..p }, Flow::Next),
        CmdV::Choice { options } => (e, PlayV { choice_active: true, choice_options: options, ..p }, Flow::Stop),
        CmdV::View { char_id } => (
            e,
            p,
            if skip {
                Flow::Next
            } else if view_entry_spec(char_id) is Some {
                Flow::ClearThenStop
            } else {
                Flow::ClearThenNext
            },
        ),
        CmdV::Wait { .. } => (e, p, if skip { Flow::Next } else { Flow::Stop }),
        CmdV::PlayMovie { .. } => (e, p, if skip { Flow::Next } else { Flow::Stop }),
        CmdV::WaitToFinishMoviePlayingOnSprite { .. } => (e, p, if skip { Flow::Next } else { Flow::Stop }),
        CmdV::WaitVoice => (e, p, if skip { Flow::Next } else { Flow::Stop }),
        CmdV::ScrollBg { wait, .. } => (e, p, if !skip && wait { Flow::Stop } else { Flow::Next }),
        CmdV::AnimateSprite { wait, .. } => (e, p, if !skip && wait { Flow::Stop } else { Flow::Next }),
        CmdV::DrawSpriteEx { wait, .. } => (e, p, if !skip && wait { Flow::Stop } else { Flow::Next }),
        _ => (e, p, Flow::Next),
    }
}

/// Where a command's arithmetic stays in range: the line counter, an
/// evaluated work value, and an affection sum.
pub open spec fn apply_defined(e: EngineV, p: PlayV, c: CmdV) -> bool {
    match c {
        CmdV::Dialogue { .. } => e.dialogue_idx < usize::MAX,
        CmdV::StoreValueToLocalWork { expression, .. } => match expression {
            Some(x) => i32::MIN <= script_expr_value(x, e.flags) <= i32::MAX,
            None => true,
        },
        CmdV::AffectionChange { char_id, delta } => i32::MIN <= or_zero(p.affection, char_id) + delta <= i32::MAX,
        _ => true,
    }
}

/// The command at the engine's place.
pub open spec fn cmd_at(p: Pos, s: Scripts) -> CmdV {
    s[p.0][p.1]@
}

/// One step of the runner: move past the command at the engine's place
/// and do what it says.
pub open spec fn step_spec(e: EngineV, s: Scripts, p: PlayV, skip: bool) -> (EngineV, PlayV, Flow) {
    apply_spec(with_pos(e, (e.pos.0, e.pos.1 + 1, e.pos.2)), s, p, cmd_at(e.pos, s), skip)
}

fn copy_string(s: &String) -> (r: String)
    ensures
        r@ == s@,
{
    string_of(&chars_of(s.as_str()))
}

fn copy_opt_string(s: &Option<String>) -> (r: Option<String>)
    ensures
        opt_str_view(r) == opt_str_view(*s),
{
    match s {
        Some(t) => Some(copy_string(t)),
        None => None,
    }
}

fn copy_options(v: &Vec<ChoiceOption>) -> (r: Vec<ChoiceOption>)
    ensures
        choices_view(r@) == choices_view(v@),
{
    let mut r: Vec<ChoiceOption> = Vec::new();
    let mut i: usize = 0;
    while i < v.len()
        invariant
            i <= v@.len(),
            choices_view(r@) == choices_view(v@).subrange(0, i as int),
        decreases v@.len() - i,
    {
        let o = &v[i];
        let affection_change = match &o.affection_change {
            Some(p) => Some((copy_string(&p.0), p.1)),
            None => None,
        };
        let c = ChoiceOption { text: copy_string(&o.text), affection_change, goto: copy_opt_string(&o.goto) };
        let ghost before = choices_view(r@);
        r.push(c);
        assert(choices_view(r@) =~= before.push(c@));
        assert(choices_view(v@).subrange(0, i + 1) =~= choices_view(v@).subrange(0, i as int).push(v@[i as int]@));
        i = i + 1;
    }
    assert(choices_view(v@).subrange(0, v@.len() as int) =~= choices_view(v@));
    r
}

pub(crate) fn work_or_zero(m: &HashMap<u32, i32>, k: u32) -> (r: i32)
    ensures
        r == or_zero(m@, k),
{
    match m.get(&k) {
        Some(v) => *v,
        None => 0,
    }
}

fn flag_or_zero(m: &StrMap<i32>, k: &String) -> (r: i32)
    requires
        m.wf(),
    ensures
        r == or_zero(m.view(), k@),
{
    match m.get_str(k.as_str()) {
        Some(v) => *v,
        None => 0,
    }
}

fn set_tmp_exec(engine: &mut ScriptEngine, v: i32)
    requires
        old(engine).wf(),
    ensures
        final(engine).wf(),
        final(engine).scripts == old(engine).scripts,
        engine_view(final(engine)) == set_tmp(engine_view(old(engine)), v),
{
    let k = chars_of("tmp");
    engine.flags.insert(&k, v);
}

fn show_line_exec(play: &mut PlayState, speaker: Option<String>, text: String, skip: bool)
    requires
        old(play).wf(),
    ensures
        final(play).wf(),
        final(play).unlock.scene_cleared == old(play).unlock.scene_cleared,
        final(play).dialogue.text_queue == old(play).dialogue.text_queue,
        final(play).view() == show_line(old(play).view(), opt_str_view(speaker), text@, skip),
{
    if play.intro && speaker.is_some() {
        play.intro = false;
    }
    let voice = play.pending_voice.take();
    play.backlog.push_entry(BacklogEntry {
        speaker: copy_opt_string(&speaker),
        text: copy_string(&text),
        voice_file: voice,
    });
    let n = text.as_str().as_bytes().len();
    play.dialogue.current_speaker = speaker;
    play.dialogue.current_text = text;
    if skip {
        play.dialogue.text_progress = n;
        play.dialogue.is_displaying = false;
    } else {
        play.dialogue.text_progress = 0;
        play.dialogue.is_displaying = true;
    }
    play.window_override = false;
}

fn unlock(set: &mut StrMap<()>, key: &String)
    requires
        old(set).wf(),
    ensures
        final(set).wf(),
        final(set).view().dom() == old(set).view().dom().insert(key@),
{
    let k = chars_of(key.as_str());
    set.insert(&k, ());
    assert(set.view().dom() =~= old(set).view().dom().insert(key@));
}

fn jump_if_exec(engine: &mut ScriptEngine, met: bool, goto: String) -> (flow: Flow)
    requires
        old(engine).wf(),
    ensures
        final(engine).wf(),
        final(engine).scripts == old(engine).scripts,
        (engine_view(final(engine)), flow) == jump_if(engine_view(old(engine)), old(engine).script_table(), met, goto@),
{
    if met {
        engine.jump_to_label(goto.as_str());
        Flow::ClearThenNext
    } else {
        Flow::Next
    }
}

/// Moves past the command at the engine's place and does what it says to
/// the engine and the state of play; tells the caller whether to clear the
/// scene and whether to stop.  The caller does what the command draws or
/// sounds.
#[verifier::rlimit(60)]
pub fn step(engine: &mut ScriptEngine, play: &mut PlayState, skip: bool) -> (flow: Flow)
    requires
        old(engine).wf(),
        old(play).wf(),
        has_more_at(old(engine).pos(), old(engine).script_table()),
        apply_defined(engine_view(old(engine)), old(play).view(), cmd_at(old(engine).pos(), old(engine).script_table())),
    ensures
        final(engine).wf(),
        final(play).wf(),
        final(play).unlock.scene_cleared == old(play).unlock.scene_cleared,
        final(play).dialogue.text_queue == old(play).dialogue.text_queue,
        final(engine).scripts == old(engine).scripts,
        (engine_view(final(engine)), final(play).view(), flow)
            == step_spec(engine_view(old(engine)), old(engine).script_table(), old(play).view(), skip),
{
    let ghost s = engine.script_table();
    let k = chars_of(engine.current_script.as_str());
    let line = engine.current_line;
    let cmds = match engine.scripts.get(&k) {
        Some(c) => c,
        None => {
            proof {
                assert(false);
            }
            return Flow::Next;
        },
    };
    assert(s[k@] == cmds@);
    let n = cmds.len();
    assert(line < n);
    let c = &cmds[line];
    assert(c@ == cmd_at(engine.pos(), s));
    engine.current_line = line + 1;
    match c {
        ScriptCmd::Dialogue { speaker, text } => {
            let sp = copy_opt_string(speaker);
            let tx = copy_string(text);
            engine.dialogue_idx = engine.dialogue_idx + 1;
            show_line_exec(play, sp, tx, skip);
            if skip { Flow::Next } else { Flow::Stop }
        },
        ScriptCmd::ClearText => {
            play.dialogue.current_text = String::new();
            play.dialogue.current_speaker = None;
            play.dialogue.text_progress = 0;
            play.dialogue.is_displaying = false;
            Flow::Next
        },
        ScriptCmd::Jump { target } => {
            let t = copy_string(target);
            engine.finished = false;
            engine.jump_to_label(t.as_str());
            Flow::ClearThenNext
        },
        ScriptCmd::Call { target } => {
            let t = copy_string(target);
            engine.finished = false;
            engine.call_label(t.as_str());
            Flow::ClearThenNext
        },
        ScriptCmd::CallScript { script, label } => {
            let sc = copy_string(script);
            let lb = copy_opt_string(label);
            engine.finished = false;
            match &lb {
                Some(l) => engine.call_script(sc.as_str(), Some(l.as_str())),
                None => engine.call_script(sc.as_str(), None),
            }
            Flow::ClearThenNext
        },
        ScriptCmd::Return => {
            engine.finished = false;
            engine.return_from_call();
            Flow::ClearThenNext
        },
        ScriptCmd::Condition { var, value, operator, goto } => {
            let v = *value;
            let op = *operator;
            let g = copy_string(goto);
            let f = flag_or_zero(&engine.flags, var);
            let met = op_holds_exec(&op, f, v);
            jump_if_exec(engine, met, g)
        },
        ScriptCmd::AffectionCondition { char_id, value, operator, goto } => {
            let v = *value;
            let op = *operator;
            let g = copy_string(goto);
            let a = flag_or_zero(&play.affection, char_id);
            let met = op_holds_exec(&op, a, v);
            jump_if_exec(engine, met, g)
        },
        ScriptCmd::SetFlag { name, value } => {
            let v = *value;
            let n = chars_of(name.as_str());
            engine.flags.insert(&n, v);
            Flow::Next
        },
        ScriptCmd::SetLocalFlag { index, value } => {
            let (i, v) = (*index, *value);
            engine.local_flags.insert(i, v);
            Flow::Next
        },
        ScriptCmd::SetGlobalFlag { index, value } => {
            let (i, v) = (*index, *value);
            engine.global_flags.insert(i, v);
            Flow::Next
        },
        ScriptCmd::StoreValueToLocalWork { index, value, expression } => {
            let i = *index;
            let v = match expression {
                Some(x) => evaluate_script_expression(x.as_str(), &engine.flags),
                None => *value,
            };
            engine.local_work.insert(i, v);
            Flow::Stored { index: i, value: v }
        },
        ScriptCmd::LoadValueFromLocalWork { index } => {
            let v = work_or_zero(&engine.local_work, *index);
            set_tmp_exec(engine, v);
            Flow::Next
        },
        ScriptCmd::GetLocalFlag { index } => {
            let v = work_or_zero(&engine.local_flags, *index);
            set_tmp_exec(engine, v);
            Flow::Next
        },
        ScriptCmd::GetGlobalFlag { index } => {
            let v = work_or_zero(&engine.global_flags, *index);
            set_tmp_exec(engine, v);
            Flow::Next
        },
        ScriptCmd::QueryMode { .. } => {
            set_tmp_exec(engine, 0);
            Flow::Next
        },
        ScriptCmd::Exif { expression } => {
            if !evaluate_condition_expression(expression.as_str(), &engine.flags) {
                let _ = engine.advance();
            }
            Flow::Next
        },
        ScriptCmd::Halt => {
            engine.call_stack = Vec::new();
            engine.current_script = String::new();
            engine.current_line = 0;
            engine.finished = true;
            assert(engine.stack_view() =~= Seq::<(Seq<char>, int)>::empty());
            Flow::Halted
        },
        ScriptCmd::AffectionChange { char_id, delta } => {
            let d = *delta;
            let a = flag_or_zero(&play.affection, char_id);
            let id = chars_of(char_id.as_str());
            play.affection.insert(&id, a + d);
            Flow::Next
        },
        ScriptCmd::SavePoint => {
            play.auto_save = true;
            Flow::Next
        },
        ScriptCmd::UnlockCg { file } => {
            unlock(&mut play.unlock.cg_unlocked, file);
            Flow::Next
        },
        ScriptCmd::ShowCg { file, .. } => {
            unlock(&mut play.unlock.cg_unlocked, file);
            Flow::Next
        },
        ScriptCmd::PlayBgm { id, .. } => {
            if !play.intro {
                unlock(&mut play.unlock.bgm_unlocked, id);
            }
            Flow::Next
        },
        ScriptCmd::PlayBgmX { id, .. } => {
            if !play.intro {
                unlock(&mut play.unlock.bgm_unlocked, id);
            }
            Flow::Next
        },
        ScriptCmd::PlayVoice { file } => {
            play.pending_voice = Some(copy_string(file));
            Flow::Next
        },
        ScriptCmd::Window { show, .. } => {
            play.window_override = !*show;
            Flow::Next
        },
        ScriptCmd::Choice { options } => {
            let o = copy_options(options);
            play.choice.active = true;
            play.choice.options = o;
            Flow::Stop
        },
        ScriptCmd::View { char_id } => {
            if skip {
                Flow::Next
            } else if lookup_view_entry(char_id.as_str()).is_some() {
                Flow::ClearThenStop
            } else {
                Flow::ClearThenNext
            }
        },
        ScriptCmd::Wait { .. } | ScriptCmd::PlayMovie { .. } | ScriptCmd::WaitToFinishMoviePlayingOnSprite { .. }
        | ScriptCmd::WaitVoice => {
            if skip { Flow::Next } else { Flow::Stop }
        },
        ScriptCmd::ScrollBg { wait, .. } => {
            if !skip && *wait { Flow::Stop } else { Flow::Next }
        },
        ScriptCmd::AnimateSprite { wait, .. } => {
            if !skip && *wait { Flow::Stop } else { Flow::Next }
        },
        ScriptCmd::DrawSpriteEx { wait, .. } => {
            if !skip && *wait { Flow::Stop } else { Flow::Next }
        },
        _ => Flow::Next,
    }
}

/// Whether `step` may run: a command is at the engine's place, and its
/// arithmetic stays in range.
pub fn can_step(engine: &ScriptEngine, play: &PlayState) -> (b: bool)
    requires
        engine.wf(),
        play.wf(),
    ensures
        b == (has_more_at(engine.pos(), engine.script_table())
            && apply_defined(engine_view(engine), play.view(), cmd_at(engine.pos(), engine.script_table()))),
{
    match engine.peek() {
        None => false,
        Some(c) => {
            assert(c@ == cmd_at(engine.pos(), engine.script_table()));
            match c {
                ScriptCmd::Dialogue { .. } => engine.dialogue_idx < usize::MAX,
                ScriptCmd::StoreValueToLocalWork { expression, .. } => match expression {
                    Some(x) => checked_script_expression(x.as_str(), &engine.flags).is_some(),
                    None => true,
                },
                ScriptCmd::AffectionChange { char_id, delta } => {
                    let a = flag_or_zero(&play.affection, char_id);
                    let sum = a as i64 + *delta as i64;
                    i32::MIN as i64 <= sum && sum <= i32::MAX as i64
                },
                _ => true,
            }
        },
    }
}

// ------------------------------------------------------------------
// Between runs
// ------------------------------------------------------------------

/// What happens when the player asks to go on, before any command runs.
#[derive(Clone, Copy, Debug, PartialEq, Eq, Structural)]
pub enum Gate {
    /// Something else (a view, a movie) holds the script.
    Blocked,
    /// The script is over and nothing follows: the route ends.
    Finished,
    /// A choice is open: the player's pick decides.
    ChoicePending,
    /// The line was being revealed: it is now shown whole.
    Revealed,
    /// The line was shown whole: it is now put away.
    Hidden,
    /// Commands run.
    Run,
}

/// What asking to go on does.  A finished script with more to run (a
/// next script was found) starts over with an empty line.  A run of
/// commands starts with no voice pending: a voice played before the last
/// stop does not go with the next line.
pub open spec fn gate_spec(e: EngineV, s: Scripts, p: PlayV, blocked: bool) -> (EngineV, PlayV, Gate) {
    if blocked {
        (e, p, Gate::Blocked)
    } else {
        let restart = e.finished && has_more_at(e.pos, s);
        let e1 = if restart { EngineV { finished: false, ..e } } else { e };
        let p1 = if restart { clear_line(p) } else { p };
        if e1.finished {
            (e1, p1, Gate::Finished)
        } else if p1.choice_active {
            (e1, p1, Gate::ChoicePending)
        } else if p1.displaying && p1.progress < byte_len(p1.text) {
            (e1, PlayV { progress: byte_len(p1.text) as int, ..p1 }, Gate::Revealed)
        } else if p1.displaying {
            (e1, PlayV { displaying: false, ..p1 }, Gate::Hidden)
        } else {
            (e1, PlayV { pending_voice: None, ..p1 }, Gate::Run)
        }
    }
}

/// Handles the player asking to go on; `blocked` is whether a view, a
/// movie or a sprite movie holds the script.
pub fn gate(engine: &mut ScriptEngine, play: &mut PlayState, blocked: bool) -> (g: Gate)
    requires
        old(engine).wf(),
        old(play).wf(),
    ensures
        final(engine).wf(),
        final(play).wf(),
        final(play).unlock.scene_cleared == old(play).unlock.scene_cleared,
        final(play).dialogue.text_queue == old(play).dialogue.text_queue,
        final(engine).scripts == old(engine).scripts,
        (engine_view(final(engine)), final(play).view(), g)
            == gate_spec(engine_view(old(engine)), old(engine).script_table(), old(play).view(), blocked),
{
    if blocked {
        return Gate::Blocked;
    }
    if engine.finished && engine.has_more() {
        engine.finished = false;
        play.dialogue.current_text = String::new();
        play.dialogue.current_speaker = None;
        play.dialogue.text_progress = 0;
        play.dialogue.is_displaying = false;
    }
    if engine.finished {
        return Gate::Finished;
    }
    if play.choice.active {
        return Gate::ChoicePending;
    }
    let n = play.dialogue.current_text.as_str().as_bytes().len();
    if play.dialogue.is_displaying && play.dialogue.text_progress < n {
        play.dialogue.text_progress = n;
        return Gate::Revealed;
    }
    if play.dialogue.is_displaying {
        play.dialogue.is_displaying = false;
        return Gate::Hidden;
    }
    play.pending_voice = None;
    Gate::Run
}

/// The player picks option `index` of the open choice: its affection
/// change is made and its target jumped to, where it has them; the choice
/// closes in any case.
pub open spec fn select_spec(e: EngineV, s: Scripts, p: PlayV, index: int) -> (EngineV, PlayV) {
    let closed = PlayV { choice_active: false, choice_options: Seq::empty(), ..p };
    if 0 <= index < p.choice_options.len() {
        let o = p.choice_options[index];
        let aff = match o.affection_change {
            Some((id, d)) => p.affection.insert(id, (or_zero(p.affection, id) + d) as i32),
            None => p.affection,
        };
        let e1 = match o.goto {
            Some(t) => with_pos(e, jump_pos(e.pos, s, t)),
            None => e,
        };
        (e1, PlayV { affection: aff, ..closed })
    } else {
        (e, closed)
    }
}

/// Where the affection sum of the picked option stays in range.
pub open spec fn select_defined(p: PlayV, index: int) -> bool {
    0 <= index < p.choice_options.len() ==> match p.choice_options[index].affection_change {
        Some((id, d)) => i32::MIN <= or_zero(p.affection, id) + d <= i32::MAX,
        None => true,
    }
}

/// The player picks option `index` of the open choice.
pub fn select_choice(engine: &mut ScriptEngine, play: &mut PlayState, index: usize)
    requires
        old(engine).wf(),
        old(play).wf(),
        select_defined(old(play).view(), index as int),
    ensures
        final(engine).wf(),
        final(play).wf(),
        final(play).unlock.scene_cleared == old(play).unlock.scene_cleared,
        final(play).dialogue.text_queue == old(play).dialogue.text_queue,
        final(engine).scripts == old(engine).scripts,
        (engine_view(final(engine)), final(play).view())
            == select_spec(engine_view(old(engine)), old(engine).script_table(), old(play).view(), index as int),
{
    if index < play.choice.options.len() {
        let o = &play.choice.options[index];
        assert(o@ == play.view().choice_options[index as int]);
        let change = match &o.affection_change {
            Some(p) => Some((copy_string(&p.0), p.1)),
            None => None,
        };
        let goto = copy_opt_string(&o.goto);
        match change {
            Some((id, d)) => {
                let a = flag_or_zero(&play.affection, &id);
                let k = chars_of(id.as_str());
                play.affection.insert(&k, a + d);
            },
            None => {},
        }
        match goto {
            Some(t) => {
                engine.jump_to_label(t.as_str());
            },
            None => {},
        }
    }
    play.choice.active = false;
    play.choice.options = Vec::new();
    assert(choices_view(play.choice.options@) =~= Seq::<ChoiceV>::empty());
}

/// What happens once a run has gone past the last command.
#[derive(Clone, Copy, Debug, PartialEq, Eq, Structural)]
pub enum End {
    /// Commands remain, or the script was already over.
    Running,
    /// A call ended: the caller's place is back.
    Resumed,
    /// The next script in numbering follows.
    NextScript,
    /// Nothing follows: the route ends.
    Ended,
}

/// The end of a script: a pending call returns; else the next script by
/// number follows; else the script is over.
pub open spec fn end_spec(e: EngineV, s: Scripts) -> (EngineV, End) {
    if has_more_at(e.pos, s) || e.finished {
        (e, End::Running)
    } else if e.pos.2.len() > 0 {
        (EngineV { pos: return_pos(e.pos), finished: false, ..e }, End::Resumed)
    } else {
        match next_script_name(e.pos.0) {
            Some(nm) => if s.dom().contains(nm) {
                (EngineV { pos: (nm, 0, e.pos.2), dialogue_idx: 0, finished: true, ..e }, End::NextScript)
            } else {
                (EngineV { finished: true, ..e }, End::Ended)
            },
            None => (EngineV { finished: true, ..e }, End::Ended),
        }
    }
}

/// Handles the end of a run of commands.
pub fn end_of_script(engine: &mut ScriptEngine) -> (r: End)
    requires
        old(engine).wf(),
        script_number(old(engine).current_script@) matches Some((d, n)) ==> n + 10 <= u32::MAX,
    ensures
        final(engine).wf(),
        final(engine).scripts == old(engine).scripts,
        (engine_view(final(engine)), r) == end_spec(engine_view(old(engine)), old(engine).script_table()),
{
    if engine.has_more() || engine.finished {
        return End::Running;
    }
    engine.finished = true;
    if engine.call_stack.len() > 0 {
        engine.return_from_call();
        engine.finished = false;
        End::Resumed
    } else if engine.next_script() {
        End::NextScript
    } else {
        End::Ended
    }
}

// ------------------------------------------------------------------
// Starting and leaving
// ------------------------------------------------------------------

fn clear_engine_state(engine: &mut ScriptEngine)
    requires
        old(engine).wf(),
    ensures
        final(engine).wf(),
        final(engine).scripts == old(engine).scripts,
        final(engine).current_script == old(engine).current_script,
        final(engine).global_flags == old(engine).global_flags,
        final(engine).current_line == 0,
        final(engine).call_stack@.len() == 0,
        final(engine).flags.view() == Map::<Seq<char>, i32>::empty(),
        final(engine).local_work@ == Map::<u32, i32>::empty(),
        final(engine).local_flags@ == Map::<u32, i32>::empty(),
        final(engine).dialogue_idx == 0,
        !final(engine).finished,
{
    engine.current_line = 0;
    engine.call_stack = Vec::new();
    engine.flags = StrMap::new();
    engine.local_work.clear();
    engine.local_flags.clear();
    engine.dialogue_idx = 0;
    engine.finished = false;
}

/// The script that starts a game: `main`, else `aiy00010`, else the
/// current one.
pub open spec fn title_script(s: Scripts, current: Seq<char>) -> Seq<char> {
    if s.dom().contains("main"@) {
        "main"@
    } else if s.dom().contains("aiy00010"@) {
        "aiy00010"@
    } else {
        current
    }
}

/// Back at the title screen: the place, the call stack, the flags of the
/// session and the work slots are cleared (the global flags stay: they
/// hold what the player has unlocked), and the engine waits at the start
/// of the first script.
pub fn reset_engine_on_title(engine: &mut ScriptEngine)
    requires
        old(engine).wf(),
    ensures
        final(engine).wf(),
        final(engine).scripts == old(engine).scripts,
        final(engine).global_flags == old(engine).global_flags,
        final(engine).current_script@ == title_script(old(engine).script_table(), old(engine).current_script@),
        final(engine).current_line == 0,
        final(engine).call_stack@.len() == 0,
        final(engine).flags.view() == Map::<Seq<char>, i32>::empty(),
        final(engine).local_work@ == Map::<u32, i32>::empty(),
        final(engine).local_flags@ == Map::<u32, i32>::empty(),
        final(engine).dialogue_idx == 0,
        !final(engine).finished,
{
    clear_engine_state(engine);
    let main = chars_of("main");
    let first = chars_of("aiy00010");
    if engine.scripts.contains_key(&main) {
        engine.current_script = "main".to_owned();
    } else if engine.scripts.contains_key(&first) {
        engine.current_script = "aiy00010".to_owned();
    }
}

/// A route starts with `script`: every flag, the global ones too, and the
/// place are cleared, and the engine waits at the script's first line.
pub fn start_route(engine: &mut ScriptEngine, script: String)
    requires
        old(engine).wf(),
    ensures
        final(engine).wf(),
        final(engine).scripts == old(engine).scripts,
        final(engine).current_script@ == script@,
        final(engine).current_line == 0,
        final(engine).call_stack@.len() == 0,
        final(engine).flags.view() == Map::<Seq<char>, i32>::empty(),
        final(engine).global_flags@ == Map::<u32, i32>::empty(),
        final(engine).local_work@ == Map::<u32, i32>::empty(),
        final(engine).local_flags@ == Map::<u32, i32>::empty(),
        final(engine).dialogue_idx == 0,
        !final(engine).finished,
{
    clear_engine_state(engine);
    engine.global_flags.clear();
    engine.current_script = script;
}

/// Whether the opening music starts: at the first line of `main` or
/// `aiy00010`.
pub open spec fn intro_starts(e: EngineV) -> bool {
    e.pos.1 == 0 && (e.pos.0 == "main"@ || e.pos.0 == "aiy00010"@)
}

/// At the start of play: where the opening runs, its music starts and the
/// intro phase begins.  Returns whether the caller plays the opening music.
pub fn start_intro(engine: &ScriptEngine, play: &mut PlayState) -> (starts: bool)
    requires
        old(play).wf(),
    ensures
        starts == intro_starts(engine_view(engine)),
        final(play).wf(),
        final(play).unlock.scene_cleared == old(play).unlock.scene_cleared,
        final(play).dialogue.text_queue == old(play).dialogue.text_queue,
        final(play).view() == (if starts { PlayV { intro: true, ..old(play).view() } } else { old(play).view() }),
{
    if engine.current_line != 0 {
        return false;
    }
    let name = chars_of(engine.current_script.as_str());
    let starts = crate::text::eq_str(&name, "main") || crate::text::eq_str(&name, "aiy00010");
    if starts {
        play.intro = true;
    }
    starts
}

/// A session of play starts: no choice is open, the window and the intro
/// are reset, the backlog is emptied, and the line on screen is either the
/// restored one (fully shown) or none.
pub fn start_session(play: &mut PlayState, restore: Option<(String, Option<String>)>)
    requires
        old(play).wf(),
    ensures
        final(play).wf(),
        final(play).unlock.scene_cleared == old(play).unlock.scene_cleared,
        final(play).dialogue.text_queue == old(play).dialogue.text_queue,
        final(play).view().affection == old(play).view().affection,
        final(play).view().cg_unlocked == old(play).view().cg_unlocked,
        final(play).view().bgm_unlocked == old(play).view().bgm_unlocked,
        !final(play).view().choice_active,
        final(play).view().choice_options == Seq::<ChoiceV>::empty(),
        !final(play).view().window_override,
        !final(play).view().intro,
        final(play).view().backlog == Seq::<EntryV>::empty(),
        match restore {
            Some((text, speaker)) => {
                &&& final(play).view().text == text@
                &&& final(play).view().speaker == opt_str_view(speaker)
                &&& final(play).view().progress == byte_len(text@)
                &&& final(play).view().displaying == (text@.len() > 0)
            },
            None => {
                &&& final(play).view().text == Seq::<char>::empty()
                &&& final(play).view().speaker is None
                &&& final(play).view().progress == 0
                &&& !final(play).view().displaying
            },
        },
{
    play.choice.active = false;
    play.choice.options = Vec::new();
    assert(choices_view(play.choice.options@) =~= Seq::<ChoiceV>::empty());
    play.window_override = false;
    play.intro = false;
    play.backlog = Backlog::new();
    match restore {
        Some((text, speaker)) => {
            let n = text.as_str().as_bytes().len();
            let shown = chars_of(text.as_str()).len() > 0;
            play.dialogue.current_text = text;
            play.dialogue.current_speaker = speaker;
            play.dialogue.text_progress = n;
            play.dialogue.is_displaying = shown;
        },
        None => {
            play.dialogue.current_text = String::new();
            play.dialogue.current_speaker = None;
            play.dialogue.text_progress = 0;
            play.dialogue.is_displaying = false;
        },
    }
}

// ------------------------------------------------------------------
// Laws
// ------------------------------------------------------------------

/// Going on while a line is being revealed first shows it whole; going on
/// again puts it away; after that, commands run.
pub proof fn law_reveal_then_hide(e: EngineV, s: Scripts, p: PlayV)
    requires
        !e.finished,
        !p.choice_active,
        p.displaying,
        p.progress < byte_len(p.text),
    ensures
        ({
            let (e1, p1, g1) = gate_spec(e, s, p, false);
            let (e2, p2, g2) = gate_spec(e1, s, p1, false);
            let (e3, p3, g3) = gate_spec(e2, s, p2, false);
            &&& g1 == Gate::Revealed
            &&& p1.text == p.text && p1.progress == byte_len(p.text) && p1.displaying
            &&& g2 == Gate::Hidden
            &&& p2.text == p.text && !p2.displaying
            &&& g3 == Gate::Run
            &&& e3 == e
        }),
{
}

/// A value stored in a work slot is what loading that slot puts into
/// `tmp`.
pub proof fn law_store_then_load(e: EngineV, s: Scripts, p: PlayV, index: u32, value: i32)
    ensures
        ({
            let (e1, p1, f1) = apply_spec(e, s, p, CmdV::StoreValueToLocalWork { index, value, expression: None }, false);
            let (e2, p2, f2) = apply_spec(e1, s, p1, CmdV::LoadValueFromLocalWork { index }, false);
            &&& f1 == Flow::Stored { index, value }
            &&& e2.flags["tmp"@] == value
            &&& e2.pos == e.pos
        }),
{
}

/// A local flag set to a value is what reading that local flag puts into
/// `tmp`; the local work slots are left as they were.
pub proof fn law_set_local_flag_then_get(e: EngineV, s: Scripts, p: PlayV, index: u32, value: i32, skip: bool)
    ensures
        ({
            let (e1, p1, f1) = apply_spec(e, s, p, CmdV::SetLocalFlag { index, value }, skip);
            let (e2, p2, f2) = apply_spec(e1, s, p1, CmdV::GetLocalFlag { index }, skip);
            &&& f1 == Flow::Next
            &&& f2 == Flow::Next
            &&& e2.flags["tmp"@] == value
            &&& e2.local_flags[index] == value
            &&& e2.local_work == e.local_work
            &&& e2.pos == e.pos
            &&& p2 == p
        }),
{
}

/// A global flag set to a value is what reading that global flag puts into
/// `tmp`.
pub proof fn law_set_global_flag_then_get(e: EngineV, s: Scripts, p: PlayV, index: u32, value: i32, skip: bool)
    ensures
        ({
            let (e1, p1, f1) = apply_spec(e, s, p, CmdV::SetGlobalFlag { index, value }, skip);
            let (e2, p2, f2) = apply_spec(e1, s, p1, CmdV::GetGlobalFlag { index }, skip);
            &&& e2.flags["tmp"@] == value
            &&& e2.global_flags[index] == value
            &&& e2.pos == e.pos
            &&& p2 == p
        }),
{
}

/// A flag that was just set to `v` passes an equality test against `v`:
/// the condition jumps to its label.
pub proof fn law_set_flag_then_condition(e: EngineV, s: Scripts, p: PlayV, name: Seq<char>, v: i32, goto: Seq<char>)
    ensures
        ({
            let (e1, p1, f1) = apply_spec(e, s, p, CmdV::SetFlag { name, value: v }, false);
            let (e2, p2, f2) = apply_spec(e1, s, p1, CmdV::Condition { var: name, value: v, operator: ConditionOp::Equal, goto }, false);
            &&& f2 == Flow::ClearThenNext
            &&& e2.pos == jump_pos(e.pos, s, goto)
        }),
{
}

/// A halt ends the script: nothing to return to, and the runner is told
/// to leave the route.
pub proof fn law_halt_ends(e: EngineV, s: Scripts, p: PlayV, skip: bool)
    ensures
        ({
            let (e1, p1, f) = apply_spec(e, s, p, CmdV::Halt, skip);
            &&& e1.finished
            &&& e1.pos.2.len() == 0
            &&& f == Flow::Halted
            &&& p1 == p
        }),
{
}

/// Picking an option always closes the choice.
pub proof fn law_pick_closes_choice(e: EngineV, s: Scripts, p: PlayV, index: int)
    ensures
        !select_spec(e, s, p, index).1.choice_active,
        select_spec(e, s, p, index).1.choice_options.len() == 0,
{
}

/// A choice stops the runner, whether or not it is skipping.
pub proof fn law_choice_stops(e: EngineV, s: Scripts, p: PlayV, options: Seq<ChoiceV>, skip: bool)
    ensures
        apply_spec(e, s, p, CmdV::Choice { options }, skip).2 == Flow::Stop,
        apply_spec(e, s, p, CmdV::Choice { options }, skip).1.choice_active,
{
}

/// The end of a called script returns to the place after the call.
pub proof fn law_end_returns_to_caller(e: EngineV, s: Scripts)
    requires
        !has_more_at(e.pos, s),
        !e.finished,
        e.pos.2.len() > 0,
    ensures
        end_spec(e, s).1 == End::Resumed,
        end_spec(e, s).0.pos == return_pos(e.pos),
        !end_spec(e, s).0.finished,
{
}

/// Jumps, calls, script calls and returns clear the scene's sprites before
/// going on, in skip mode too, so that nothing of the old scene stays on
/// screen.
pub proof fn law_jumps_clear_the_scene(e: EngineV, s: Scripts, p: PlayV, c: CmdV, skip: bool)
    requires
        c is Jump || c is Call || c is CallScript || c is Return,
    ensures
        apply_spec(e, s, p, c, skip).2 == Flow::ClearThenNext,
        apply_spec(e, s, p, c, skip).1 == p,
        !apply_spec(e, s, p, c, skip).0.finished,
{
}

/// Skip mode runs through everything but choices: while skipping, only a
/// choice stops the runner, and nothing stops it with the scene cleared.
pub proof fn law_skip_stops_only_at_choices(e: EngineV, s: Scripts, p: PlayV, c: CmdV)
    ensures
        apply_spec(e, s, p, c, true).2 == Flow::Stop ==> c is Choice,
        apply_spec(e, s, p, c, true).2 != Flow::ClearThenStop,
{
}

/// What the player has unlocked stays unlocked: no command takes a CG
/// picture or a music track away.
pub proof fn law_unlocks_only_grow(e: EngineV, s: Scripts, p: PlayV, c: CmdV, skip: bool)
    ensures
        p.cg_unlocked.subset_of(apply_spec(e, s, p, c, skip).1.cg_unlocked),
        p.bgm_unlocked.subset_of(apply_spec(e, s, p, c, skip).1.bgm_unlocked),
{
}

/// The line that a command shows, with the voice that goes with it, if it
/// shows one.
pub open spec fn line_shown(c: CmdV, p: PlayV) -> Option<EntryV> {
    match c {
        CmdV::Dialogue { speaker, text } => Some((speaker, text, p.pending_voice)),
        _ => None,
    }
}

/// `n` steps of the runner from `e` and `p`: the engine and the state of
/// play after them, and the lines shown on the way, oldest first.
pub open spec fn run_spec(e: EngineV, s: Scripts, p: PlayV, skip: bool, n: nat) -> (EngineV, PlayV, Seq<EntryV>)
    decreases n,
{
    if n == 0 {
        (e, p, Seq::empty())
    } else {
        let r = run_spec(e, s, p, skip, (n - 1) as nat);
        let t = step_spec(r.0, s, r.1, skip);
        let shown = match line_shown(cmd_at(r.0.pos, s), r.1) {
            Some(l) => r.2.push(l),
            None => r.2,
        };
        (t.0, t.1, shown)
    }
}

/// A backlog after the lines `lines` are added to it, one by one.
pub open spec fn push_all(b: Seq<EntryV>, lines: Seq<EntryV>) -> Seq<EntryV>
    decreases lines.len(),
{
    if lines.len() == 0 {
        b
    } else {
        backlog_push(push_all(b, lines.drop_last()), lines.last())
    }
}

/// One step adds to the backlog exactly the line it shows.
proof fn lemma_step_backlog(e: EngineV, s: Scripts, p: PlayV, skip: bool)
    ensures
        step_spec(e, s, p, skip).1.backlog == match line_shown(cmd_at(e.pos, s), p) {
            Some(l) => backlog_push(p.backlog, l),
            None => p.backlog,
        },
{
}

proof fn lemma_run_backlog(e: EngineV, s: Scripts, p: PlayV, skip: bool, n: nat)
    requires
        p.backlog.len() <= BACKLOG_LIMIT,
    ensures
        run_spec(e, s, p, skip, n).1.backlog == push_all(p.backlog, run_spec(e, s, p, skip, n).2),
        run_spec(e, s, p, skip, n).1.backlog.len() <= BACKLOG_LIMIT,
    decreases n,
{
    if n > 0 {
        let r = run_spec(e, s, p, skip, (n - 1) as nat);
        lemma_run_backlog(e, s, p, skip, (n - 1) as nat);
        lemma_step_backlog(r.0, s, r.1, skip);
        match line_shown(cmd_at(r.0.pos, s), r.1) {
            Some(l) => {
                assert(r.2.push(l).drop_last() =~= r.2);
                law_backlog_bounded(r.1.backlog, l);
            },
            None => {},
        }
    }
}

/// Whether a flow lets the runner go on at once: the command neither
/// stops, halts, nor stored a value that the caller must see first.
pub open spec fn goes_on(f: Flow) -> bool {
    f is Next || f is ClearThenNext
}

/// Runs commands after the player asked to go on: at most `budget` of them,
/// stopping after the first that does not go on at once (a stop, a halt or
/// a stored value), or where no command can run.  Returns, for each command
/// run, its script and line and what the caller must do after it (clear
/// the scene, stop, ...), in order; the caller draws and sounds them.  The
/// engine and the state of play end as `run_spec` says, so the backlog
/// gains exactly the lines shown and stays within `BACKLOG_LIMIT`.
pub fn run_until_stop(engine: &mut ScriptEngine, play: &mut PlayState, skip: bool, budget: usize) -> (r: Vec<(String, usize, Flow)>)
    requires
        old(engine).wf(),
        old(play).wf(),
    ensures
        final(engine).wf(),
        final(play).wf(),
        final(engine).scripts == old(engine).scripts,
        final(play).unlock.scene_cleared == old(play).unlock.scene_cleared,
        final(play).dialogue.text_queue == old(play).dialogue.text_queue,
        r@.len() <= budget,
        ({
            let e0 = engine_view(old(engine));
            let s = old(engine).script_table();
            let p0 = old(play).view();
            let n = r@.len() as nat;
            let fin = run_spec(e0, s, p0, skip, n);
            &&& engine_view(final(engine)) == fin.0
            &&& final(play).view() == fin.1
            &&& forall|i: int| 0 <= i < n ==> {
                let ri = run_spec(e0, s, p0, skip, i as nat);
                &&& (#[trigger] r@[i]).0@ == ri.0.pos.0
                &&& r@[i].1 == ri.0.pos.1
                &&& r@[i].2 == step_spec(ri.0, s, ri.1, skip).2
            }
            &&& forall|i: int| 0 <= i < n - 1 ==> goes_on((#[trigger] r@[i]).2)
            &&& n < budget ==> ((n > 0 && !goes_on(r@[n - 1].2))
                || !(has_more_at(fin.0.pos, s) && apply_defined(fin.0, fin.1, cmd_at(fin.0.pos, s))))
            &&& p0.backlog.len() <= BACKLOG_LIMIT ==> {
                &&& fin.1.backlog == push_all(p0.backlog, fin.2)
                &&& fin.1.backlog.len() <= BACKLOG_LIMIT
            }
        }),
{
    let ghost e0 = engine_view(engine);
    let ghost s = engine.script_table();
    let ghost p0 = play.view();
    let mut r: Vec<(String, usize, Flow)> = Vec::new();
    let mut done = false;
    while r.len() < budget && !done
        invariant
            engine.wf(),
            play.wf(),
            engine.scripts == old(engine).scripts,
            engine.script_table() == s,
            play.unlock.scene_cleared == old(play).unlock.scene_cleared,
            play.dialogue.text_queue == old(play).dialogue.text_queue,
            r@.len() <= budget,
            engine_view(engine) == run_spec(e0, s, p0, skip, r@.len() as nat).0,
            play.view() == run_spec(e0, s, p0, skip, r@.len() as nat).1,
            forall|i: int| 0 <= i < r@.len() ==> {
                let ri = run_spec(e0, s, p0, skip, i as nat);
                &&& (#[trigger] r@[i]).0@ == ri.0.pos.0
                &&& r@[i].1 == ri.0.pos.1
                &&& r@[i].2 == step_spec(ri.0, s, ri.1, skip).2
            },
            forall|i: int| 0 <= i < r@.len() - 1 ==> goes_on((#[trigger] r@[i]).2),
            done ==> ((r@.len() > 0 && !goes_on(r@[r@.len() - 1].2))
                || !(has_more_at(engine.pos(), s) && apply_defined(engine_view(engine), play.view(), cmd_at(engine.pos(), s)))),
            !done ==> (r@.len() > 0 ==> goes_on(r@[r@.len() - 1].2)),
        decreases budget - r@.len(), if done { 0int } else { 1int },
    {
        if !can_step(engine, play) {
            done = true;
        } else {
            let ghost k = r@.len() as nat;
            let name = copy_string(&engine.current_script);
            let line = engine.current_line;
            let f = step(engine, play, skip);
            assert(run_spec(e0, s, p0, skip, k + 1) == ({
                let rk = run_spec(e0, s, p0, skip, k);
                let t = step_spec(rk.0, s, rk.1, skip);
                let shown = match line_shown(cmd_at(rk.0.pos, s), rk.1) {
                    Some(l) => rk.2.push(l),
                    None => rk.2,
                };
                (t.0, t.1, shown)
            }));
            r.push((name, line, f));
            if !(f == Flow::Next || f == Flow::ClearThenNext) {
                done = true;
            }
        }
    }
    proof {
        if p0.backlog.len() <= BACKLOG_LIMIT {
            lemma_run_backlog(e0, s, p0, skip, r@.len() as nat);
        }
    }
    r
}

/// Over a whole advance (asking to go on, then any number of steps) the
/// backlog gains exactly the lines shown, in order, each with the voice
/// played for it since the advance began, and never holds more than
/// `BACKLOG_LIMIT` lines; its last line is the last line shown.
pub proof fn law_backlog_over_an_advance(e: EngineV, s: Scripts, p: PlayV, blocked: bool, skip: bool, n: nat)
    requires
        p.backlog.len() <= BACKLOG_LIMIT,
    ensures
        ({
            let g = gate_spec(e, s, p, blocked);
            let r = run_spec(g.0, s, g.1, skip, n);
            &&& g.1.backlog == p.backlog
            &&& g.2 == Gate::Run ==> g.1.pending_voice is None
            &&& r.1.backlog == push_all(p.backlog, r.2)
            &&& r.1.backlog.len() <= BACKLOG_LIMIT
            &&& r.2.len() > 0 ==> r.1.backlog.last() == r.2.last()
        }),
{
    let g = gate_spec(e, s, p, blocked);
    lemma_run_backlog(g.0, s, g.1, skip, n);
    let r = run_spec(g.0, s, g.1, skip, n);
    if r.2.len() > 0 {
        let prev = push_all(p.backlog, r.2.drop_last());
        lemma_push_all_bounded(p.backlog, r.2.drop_last());
        law_backlog_bounded(prev, r.2.last());
    }
}

proof fn lemma_push_all_bounded(b: Seq<EntryV>, lines: Seq<EntryV>)
    requires
        b.len() <= BACKLOG_LIMIT,
    ensures
        push_all(b, lines).len() <= BACKLOG_LIMIT,
    decreases lines.len(),
{
    if lines.len() > 0 {
        lemma_push_all_bounded(b, lines.drop_last());
        law_backlog_bounded(push_all(b, lines.drop_last()), lines.last());
    }
}

} // verus!
