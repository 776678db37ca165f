//! Which after stories may be played: a story group is open where it is
//! always open or its global flag is at least 1.
use vstd::prelude::*;
use crate::runner::{engine_view, or_zero, work_or_zero};
use crate::script::ScriptEngine;

verus! {

/// Whether a story whose group is `always_unlocked`, or opened by global
/// flag `unlock_flag`, may be played: always open, or the flag is at
/// least 1 (an unset flag counts as 0).
pub open spec fn story_unlocked_spec(global_flags: Map<u32, i32>, always_unlocked: bool, unlock_flag: u32) -> bool {
    always_unlocked || or_zero(global_flags, unlock_flag) >= 1
}

/// Whether a heroine's after stories may be played.
pub fn story_unlocked(engine: &ScriptEngine, always_unlocked: bool, unlock_flag: u32) -> (r: bool)
    ensures
        r == story_unlocked_spec(engine_view(engine).global_flags, always_unlocked, unlock_flag),
{
    always_unlocked || work_or_zero(&engine.global_flags, unlock_flag) >= 1
}

/// Whether the stories of group `idx` may be played.  The groups are the
/// heroines (`heroines[i]` is whether heroine `i` is always open, and the
/// flag that opens her stories), then the extra stories, opened by
/// `all_routes_cleared_flag`, then the bonus skits, opened by
/// `full_completion_flag`.
pub open spec fn group_unlocked_spec(
    global_flags: Map<u32, i32>,
    idx: int,
    heroines: Seq<(bool, u32)>,
    all_routes_cleared_flag: u32,
    full_completion_flag: u32,
) -> bool {
    if idx < heroines.len() {
        story_unlocked_spec(global_flags, heroines[idx].0, heroines[idx].1)
    } else if idx == heroines.len() {
        or_zero(global_flags, all_routes_cleared_flag) >= 1
    } else {
        or_zero(global_flags, full_completion_flag) >= 1
    }
}

/// Whether the stories of group `idx` may be played.
pub fn group_unlocked(
    engine: &ScriptEngine,
    idx: usize,
    heroines: &Vec<(bool, u32)>,
    all_routes_cleared_flag: u32,
    full_completion_flag: u32,
) -> (r: bool)
    ensures
        r == group_unlocked_spec(
            engine_view(engine).global_flags,
            idx as int,
            heroines@,
            all_routes_cleared_flag,
            full_completion_flag,
        ),
{
    if idx < heroines.len() {
        let (always, flag) = heroines[idx];
        story_unlocked(engine, always, flag)
    } else if idx == heroines.len() {
        work_or_zero(&engine.global_flags, all_routes_cleared_flag) >= 1
    } else {
        work_or_zero(&engine.global_flags, full_completion_flag) >= 1
    }
}

/// The status shown beside a story group: `PLAY` where it is open, else
/// `LOCKED`.
pub fn status_label(unlocked: bool) -> (s: &'static str)
    ensures
        s@ == (if unlocked { "PLAY"@ } else { "LOCKED"@ }),
{
    if unlocked {
        "PLAY"
    } else {
        "LOCKED"
    }
}

} // verus!
