//! Saved games: what a save holds, how it is made from the running game
//! and how loading puts the game back.
use vstd::prelude::*;
use std::collections::HashMap;
use crate::restore::scene_restore_spec;
use crate::runner::{PlayState, UnlockState};
use crate::script::{Pos, ScriptCmd, ScriptEngine, cmds_view, opt_str_view};
use crate::strmap::StrMap;
use crate::text::{chars_of, string_of};

verus! {

broadcast use vstd::std_specs::hash::group_hash_axioms;

/// The format version of a save.
pub const SAVE_VERSION: u32 = 2;

/// A saved game.
pub struct SaveData {
    pub version: u32,
    pub timestamp: String,
    pub scene_name: String,
    pub script_path: String,
    pub script_line: usize,
    pub call_stack: Vec<(String, usize)>,
    pub flags: StrMap<i32>,
    pub global_flags: HashMap<u32, i32>,
    pub affection: StrMap<i32>,
    pub unlock_state: UnlockState,
    pub play_time: u64,
    pub window_color_idx: i32,
    pub view_char_id: Option<String>,
    pub bgm_id: Option<String>,
    pub bgmx_id: Option<String>,
}

pub open spec fn unlock_wf(u: &UnlockState) -> bool {
    u.cg_unlocked.wf() && u.bgm_unlocked.wf() && u.scene_cleared.wf()
}

/// Two unlock states hold the same names.
pub open spec fn same_unlocks(a: &UnlockState, b: &UnlockState) -> bool {
    &&& a.cg_unlocked.view() == b.cg_unlocked.view()
    &&& a.bgm_unlocked.view() == b.bgm_unlocked.view()
    &&& a.scene_cleared.view() == b.scene_cleared.view()
}

impl SaveData {
    pub open spec fn wf(&self) -> bool {
        self.flags.wf() && self.affection.wf() && unlock_wf(&self.unlock_state)
    }

    /// The place the save was made at.
    pub open spec fn pos(&self) -> Pos {
        (self.scene_name@, self.script_line as int, self.call_stack@.map_values(|e: (String, usize)| (e.0@, e.1 as int)))
    }
}

/// `d` is a save of the engine `e`: its place, its flags and its global
/// flags.
pub open spec fn saves_engine(d: &SaveData, e: &ScriptEngine) -> bool {
    &&& d.pos() == e.pos()
    &&& d.flags.view() == e.flags.view()
    &&& d.global_flags@ == e.global_flags@
}

/// `after` is the engine `before` once the save `d` is loaded into it: at
/// the save's place with its flags, the rest unchanged.
pub open spec fn loads_save(after: &ScriptEngine, before: &ScriptEngine, d: &SaveData) -> bool {
    &&& after.wf()
    &&& after.pos() == d.pos()
    &&& after.flags.view() == d.flags.view()
    &&& after.global_flags@ == d.global_flags@
    &&& after.scripts == before.scripts
    &&& after.local_work@ == before.local_work@
    &&& after.local_flags@ == before.local_flags@
    &&& after.dialogue_idx == before.dialogue_idx
    &&& after.finished == before.finished
}

fn copy_string(s: &String) -> (r: String)
    ensures
        r@ == s@,
{
    string_of(&chars_of(s.as_str()))
}

fn copy_opt(s: &Option<String>) -> (r: Option<String>)
    ensures
        opt_str_view(r) == opt_str_view(*s),
{
    match s {
        Some(t) => Some(copy_string(t)),
        None => None,
    }
}

fn copy_stack(v: &Vec<(String, usize)>) -> (r: Vec<(String, usize)>)
    ensures
        r@.map_values(|e: (String, usize)| (e.0@, e.1 as int)) == v@.map_values(|e: (String, usize)| (e.0@, e.1 as int)),
{
    let mut r: Vec<(String, usize)> = Vec::new();
    let mut i: usize = 0;
    while i < v.len()
        invariant
            i <= v@.len(),
            r@.map_values(|e: (String, usize)| (e.0@, e.1 as int))
                == v@.subrange(0, i as int).map_values(|e: (String, usize)| (e.0@, e.1 as int)),
        decreases v@.len() - i,
    {
        let ghost before = r@.map_values(|e: (String, usize)| (e.0@, e.1 as int));
        r.push((copy_string(&v[i].0), v[i].1));
        assert(r@.map_values(|e: (String, usize)| (e.0@, e.1 as int)) =~= before.push((v@[i as int].0@, v@[i as int].1 as int)));
        assert(v@.subrange(0, i + 1).map_values(|e: (String, usize)| (e.0@, e.1 as int))
            =~= v@.subrange(0, i as int).map_values(|e: (String, usize)| (e.0@, e.1 as int)).push((v@[i as int].0@, v@[i as int].1 as int)));
        i = i + 1;
    }
    assert(v@.subrange(0, v@.len() as int) =~= v@);
    r
}

fn copy_unlocks(u: &UnlockState) -> (r: UnlockState)
    requires
        unlock_wf(u),
    ensures
        unlock_wf(&r),
        same_unlocks(&r, u),
{
    UnlockState {
        cg_unlocked: u.cg_unlocked.copy_map(),
        bgm_unlocked: u.bgm_unlocked.copy_map(),
        scene_cleared: u.scene_cleared.copy_map(),
    }
}

/// Makes a save of the running game, stamped with `timestamp`: the
/// engine's place and flags, the affection, what is unlocked, the window
/// color, the view on screen and the music playing.
pub fn build_save_data(
    engine: &ScriptEngine,
    affection: &StrMap<i32>,
    unlock_state: &UnlockState,
    window_color_idx: i32,
    view_char_id: &Option<String>,
    bgm_id: &Option<String>,
    bgmx_id: &Option<String>,
    timestamp: String,
) -> (d: SaveData)
    requires
        engine.wf(),
        affection.wf(),
        unlock_wf(unlock_state),
    ensures
        d.wf(),
        saves_engine(&d, engine),
        d.version == SAVE_VERSION,
        d.timestamp@ == timestamp@,
        d.script_path@ == engine.current_script@ + ".bscript.ron"@,
        d.affection.view() == affection.view(),
        same_unlocks(&d.unlock_state, unlock_state),
        d.play_time == 0,
        d.window_color_idx == window_color_idx,
        opt_str_view(d.view_char_id) == opt_str_view(*view_char_id),
        opt_str_view(d.bgm_id) == opt_str_view(*bgm_id),
        opt_str_view(d.bgmx_id) == opt_str_view(*bgmx_id),
{
    let name = chars_of(engine.current_script.as_str());
    let mut path = name.clone();
    let suffix = chars_of(".bscript.ron");
    crate::text::append_chars(&mut path, &suffix);
    SaveData {
        version: SAVE_VERSION,
        timestamp,
        scene_name: string_of(&name),
        script_path: string_of(&path),
        script_line: engine.current_line,
        call_stack: copy_stack(&engine.call_stack),
        flags: engine.flags.copy_map(),
        global_flags: engine.global_flags.clone(),
        affection: affection.copy_map(),
        unlock_state: copy_unlocks(unlock_state),
        play_time: 0,
        window_color_idx,
        view_char_id: copy_opt(view_char_id),
        bgm_id: copy_opt(bgm_id),
        bgmx_id: copy_opt(bgmx_id),
    }
}

/// Loads a save: the engine goes to the save's place with its flags, the
/// affection and what is unlocked become the save's, and the commands that
/// put the scene back are returned.
pub fn load_save_data(engine: &mut ScriptEngine, play: &mut PlayState, data: &SaveData) -> (r: Vec<ScriptCmd>)
    requires
        old(engine).wf(),
        old(play).wf(),
        data.wf(),
    ensures
        loads_save(final(engine), old(engine), data),
        final(play).wf(),
        final(play).affection.view() == data.affection.view(),
        same_unlocks(&final(play).unlock, &data.unlock_state),
        final(play).dialogue == old(play).dialogue,
        cmds_view(r@) == scene_restore_spec(data.pos(), final(engine).script_table()),
{
    engine.current_script = copy_string(&data.scene_name);
    engine.current_line = data.script_line;
    engine.call_stack = copy_stack(&data.call_stack);
    engine.flags = data.flags.copy_map();
    engine.global_flags = data.global_flags.clone();
    play.unlock = copy_unlocks(&data.unlock_state);
    play.affection = data.affection.copy_map();
    engine.collect_scene_restore()
}

/// Loading a save puts the game back where the save was made: the engine
/// is at the same place, with the same call stack, flags and global flags.
pub proof fn law_load_returns_to_the_saved_place(saved: &SaveData, at_save: &ScriptEngine, before_load: &ScriptEngine, after_load: &ScriptEngine)
    requires
        saves_engine(saved, at_save),
        loads_save(after_load, before_load, saved),
    ensures
        after_load.pos() == at_save.pos(),
        after_load.flags.view() == at_save.flags.view(),
        after_load.global_flags@ == at_save.global_flags@,
{
}

/// The save slots.
pub struct SaveManager {
    pub slots: Vec<Option<SaveData>>,
}

impl SaveManager {
    /// `slot_count` empty slots.
    pub fn new(slot_count: usize) -> (m: SaveManager)
        ensures
            m.slots@.len() == slot_count,
            forall|i: int| 0 <= i < slot_count ==> m.slots@[i] is None,
    {
        let mut slots: Vec<Option<SaveData>> = Vec::new();
        let mut i: usize = 0;
        while i < slot_count
            invariant
                i <= slot_count,
                slots@.len() == i,
                forall|j: int| 0 <= j < i ==> slots@[j] is None,
            decreases slot_count - i,
        {
            slots.push(None);
            i = i + 1;
        }
        SaveManager { slots }
    }

    /// Puts a save in slot `idx`; the other slots stay.
    pub fn store_slot(&mut self, idx: usize, data: SaveData)
        requires
            idx < old(self).slots@.len(),
        ensures
            final(self).slots@ == old(self).slots@.update(idx as int, Some(data)),
    {
        self.slots.set(idx, Some(data));
    }
}

/// The question asked before a slot is used, or `None` where a load is
/// asked of an empty slot.  Slots are numbered from 1 on screen.
pub open spec fn slot_prompt_spec(saving: bool, has_data: bool, idx: int) -> Option<Seq<char>> {
    if !saving && !has_data {
        None
    } else if has_data {
        Some((if saving { "Overwrite"@ } else { "Load"@ }) + " slot "@ + crate::text::nat_digits((idx + 1) as nat) + "?"@)
    } else {
        Some("Save to slot "@ + crate::text::nat_digits((idx + 1) as nat) + "?"@)
    }
}

/// The question asked when slot `idx` is clicked in save or load mode.
pub fn slot_prompt(saving: bool, has_data: bool, idx: usize) -> (r: Option<String>)
    requires
        idx < usize::MAX,
    ensures
        match r {
            None => slot_prompt_spec(saving, has_data, idx as int) is None,
            Some(s) => slot_prompt_spec(saving, has_data, idx as int) == Some(s@),
        },
{
    if !saving && !has_data {
        return None;
    }
    let n = crate::text::u64_chars(idx as u64 + 1);
    let mut v: Vec<char> = if has_data {
        if saving { chars_of("Overwrite slot ") } else { chars_of("Load slot ") }
    } else {
        chars_of("Save to slot ")
    };
    proof {
        reveal_strlit("Overwrite slot ");
        reveal_strlit("Load slot ");
        reveal_strlit("Save to slot ");
        reveal_strlit("Overwrite");
        reveal_strlit("Load");
        reveal_strlit(" slot ");
    }
    crate::text::append_chars(&mut v, &n);
    let q = chars_of("?");
    crate::text::append_chars(&mut v, &q);
    assert(("Overwrite"@ + " slot "@) =~= "Overwrite slot "@);
    assert(("Load"@ + " slot "@) =~= "Load slot "@);
    Some(string_of(&v))
}

/// The pages of the save screen, never fewer than one.
pub const SLOTS_PER_PAGE: usize = 15;

pub open spec fn save_pages_spec(slots: int) -> int {
    let p = (slots + SLOTS_PER_PAGE - 1) / SLOTS_PER_PAGE as int;
    if p < 1 { 1 } else { p }
}

/// The number of pages for `slots` slots.
pub fn save_total_pages(slots: usize) -> (r: usize)
    requires
        slots + SLOTS_PER_PAGE <= usize::MAX,
    ensures
        r == save_pages_spec(slots as int),
{
    let p = (slots + SLOTS_PER_PAGE - 1) / SLOTS_PER_PAGE;
    if p < 1 { 1 } else { p }
}

/// The page before `page`, from the first back to the last.
pub fn page_left(page: usize, total: usize) -> (r: usize)
    requires
        total >= 1,
    ensures
        r == (if page == 0 { total - 1 } else { page - 1 }),
{
    if page == 0 { total - 1 } else { page - 1 }
}

/// The page after `page`, from the last round to the first.
pub fn page_right(page: usize, total: usize) -> (r: usize)
    requires
        total >= 1,
        page < usize::MAX,
    ensures
        r == (page + 1) % (total as int),
{
    (page + 1) % total
}

/// Turning a page back and then forward again comes back to the same
/// page, and the other way round; a page stays within the pages.
pub proof fn law_pages_turn_back(page: int, total: int)
    requires
        total >= 1,
        0 <= page < total,
    ensures
        ({
            let l = if page == 0 { total - 1 } else { page - 1 };
            &&& 0 <= l < total
            &&& (l + 1) % total == page
        }),
        ({
            let r = (page + 1) % total;
            &&& 0 <= r < total
            &&& (if r == 0 { total - 1 } else { r - 1 }) == page
        }),
{
    if page + 1 == total {
        assert((page + 1) % total == 0) by (nonlinear_arith)
            requires page + 1 == total, total >= 1;
    } else {
        assert((page + 1) % total == page + 1) by (nonlinear_arith)
            requires 0 <= page + 1 < total;
    }
    if page == 0 {
        assert((total - 1 + 1) % total == 0) by (nonlinear_arith)
            requires total >= 1;
    } else {
        assert((page - 1 + 1) % total == page) by (nonlinear_arith)
            requires 0 < page < total;
    }
}

} // verus!
