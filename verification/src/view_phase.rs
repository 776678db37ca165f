//! The steps of a character's view animation.
//!
//! The screen fades out, the scene is set up and fades in, a pen draws
//! through its waypoints, the name is revealed, shown for a while, and the
//! scene fades away; then the window takes the character's color and the
//! view is over.  The caller runs the timers and draws; this module decides
//! what comes next once a frame has passed.
use vstd::prelude::*;
use crate::view_data::ViewTweenEntry;

verus! {

/// Where a view animation is.
#[derive(Clone, Copy, Debug, PartialEq, Eq, Structural)]
pub enum ViewPhase {
    FadeOut,
    PrepareScene,
    FadeIn,
    PenTween,
    PenWait,
    RevealName,
    DisplayWait,
    FadeOutScene,
    SetWindowColor,
    Done,
}

/// What the caller does besides moving to the next phase.
#[derive(Clone, Copy, Debug, PartialEq, Eq, Structural)]
pub enum ViewAction {
    Nothing,
    /// Set up the background, the name and the pen.
    SpawnScene,
    /// Move the pen to the waypoint with this index.
    MovePen(usize),
    /// Remove the scene set up before.
    DespawnScene,
    /// Give the message window the character's color.
    SetWindowColor,
    /// The view is over: clear the overlay and let the script go on.
    Finish,
}

/// The state after a frame: the phase, the next waypoint, the timer that
/// starts (in milliseconds), and what to do.
#[derive(Clone, Copy, Debug, PartialEq, Eq, Structural)]
pub struct ViewStep {
    pub phase: ViewPhase,
    pub step_idx: usize,
    pub timer_ms: Option<u64>,
    pub action: ViewAction,
}

/// How long the scene fades in, in milliseconds.
pub const FADE_IN_MS: u64 = 200;
/// How long the revealed name stays, in milliseconds.
pub const DISPLAY_MS: u64 = 1000;
/// How long the scene fades away, in milliseconds.
pub const FADE_OUT_SCENE_MS: u64 = 250;

pub open spec fn keep(phase: ViewPhase, step: usize) -> ViewStep {
    ViewStep { phase, step_idx: step, timer_ms: None, action: ViewAction::Nothing }
}

/// The next state, given whether the phase's timer finished this frame,
/// the number of waypoints `n` and the pen's timing.
pub open spec fn view_step_spec(phase: ViewPhase, step: usize, finished: bool, n: usize, wait_ms: u64, step_ms: u64, reveal_ms: u64) -> ViewStep {
    match phase {
        ViewPhase::FadeOut => if finished { keep(ViewPhase::PrepareScene, step) } else { keep(phase, step) },
        ViewPhase::PrepareScene => ViewStep {
            phase: ViewPhase::FadeIn,
            step_idx: step,
            timer_ms: Some(FADE_IN_MS),
            action: ViewAction::SpawnScene,
        },
        ViewPhase::FadeIn => if finished {
            ViewStep { phase: ViewPhase::PenTween, step_idx: 0, timer_ms: Some(wait_ms), action: ViewAction::Nothing }
        } else {
            keep(phase, step)
        },
        ViewPhase::PenTween => if finished {
            let moved = step < n;
            let next = if moved { (step + 1) as usize } else { step };
            let action = if moved { ViewAction::MovePen(step) } else { ViewAction::Nothing };
            if next < n {
                ViewStep { phase: ViewPhase::PenTween, step_idx: next, timer_ms: Some(step_ms), action }
            } else {
                ViewStep { phase: ViewPhase::PenWait, step_idx: next, timer_ms: Some(wait_ms), action }
            }
        } else {
            keep(phase, step)
        },
        ViewPhase::PenWait => if finished {
            ViewStep { phase: ViewPhase::RevealName, step_idx: step, timer_ms: Some(reveal_ms), action: ViewAction::Nothing }
        } else {
            keep(phase, step)
        },
        ViewPhase::RevealName => if finished {
            ViewStep { phase: ViewPhase::DisplayWait, step_idx: step, timer_ms: Some(DISPLAY_MS), action: ViewAction::Nothing }
        } else {
            keep(phase, step)
        },
        ViewPhase::DisplayWait => if finished {
            ViewStep { phase: ViewPhase::FadeOutScene, step_idx: step, timer_ms: Some(FADE_OUT_SCENE_MS), action: ViewAction::Nothing }
        } else {
            keep(phase, step)
        },
        ViewPhase::FadeOutScene => if finished {
            ViewStep { phase: ViewPhase::SetWindowColor, step_idx: step, timer_ms: None, action: ViewAction::DespawnScene }
        } else {
            keep(phase, step)
        },
        ViewPhase::SetWindowColor => ViewStep {
            phase: ViewPhase::Done,
            step_idx: step,
            timer_ms: None,
            action: ViewAction::SetWindowColor,
        },
        ViewPhase::Done => ViewStep { phase: ViewPhase::Done, step_idx: step, timer_ms: None, action: ViewAction::Finish },
    }
}

/// Decides the next state of a view animation after a frame in which the
/// phase's timer did or did not finish.
pub fn advance_view_phase(phase: ViewPhase, step_idx: usize, timer_finished: bool, tween: &ViewTweenEntry) -> (r: ViewStep)
    ensures
        r == view_step_spec(phase, step_idx, timer_finished, tween.waypoints@.len() as usize,
            tween.step_wait_ms, tween.step_duration_ms, tween.reveal_time_ms),
{
    let n = tween.waypoints.len();
    let nothing = ViewStep { phase, step_idx, timer_ms: None, action: ViewAction::Nothing };
    match phase {
        ViewPhase::FadeOut => {
            if timer_finished {
                ViewStep { phase: ViewPhase::PrepareScene, ..nothing }
            } else {
                nothing
            }
        },
        ViewPhase::PrepareScene => ViewStep {
            phase: ViewPhase::FadeIn,
            step_idx,
            timer_ms: Some(FADE_IN_MS),
            action: ViewAction::SpawnScene,
        },
        ViewPhase::FadeIn => {
            if timer_finished {
                ViewStep { phase: ViewPhase::PenTween, step_idx: 0, timer_ms: Some(tween.step_wait_ms), action: ViewAction::Nothing }
            } else {
                nothing
            }
        },
        ViewPhase::PenTween => {
            if !timer_finished {
                return nothing;
            }
            let mut next = step_idx;
            let mut action = ViewAction::Nothing;
            if step_idx < n {
                action = ViewAction::MovePen(step_idx);
                next = step_idx + 1;
            }
            if next < n {
                ViewStep { phase: ViewPhase::PenTween, step_idx: next, timer_ms: Some(tween.step_duration_ms), action }
            } else {
                ViewStep { phase: ViewPhase::PenWait, step_idx: next, timer_ms: Some(tween.step_wait_ms), action }
            }
        },
        ViewPhase::PenWait => {
            if timer_finished {
                ViewStep { phase: ViewPhase::RevealName, step_idx, timer_ms: Some(tween.reveal_time_ms), action: ViewAction::Nothing }
            } else {
                nothing
            }
        },
        ViewPhase::RevealName => {
            if timer_finished {
                ViewStep { phase: ViewPhase::DisplayWait, step_idx, timer_ms: Some(DISPLAY_MS), action: ViewAction::Nothing }
            } else {
                nothing
            }
        },
        ViewPhase::DisplayWait => {
            if timer_finished {
                ViewStep { phase: ViewPhase::FadeOutScene, step_idx, timer_ms: Some(FADE_OUT_SCENE_MS), action: ViewAction::Nothing }
            } else {
                nothing
            }
        },
        ViewPhase::FadeOutScene => {
            if timer_finished {
                ViewStep { phase: ViewPhase::SetWindowColor, step_idx, timer_ms: None, action: ViewAction::DespawnScene }
            } else {
                nothing
            }
        },
        ViewPhase::SetWindowColor => ViewStep {
            phase: ViewPhase::Done,
            step_idx,
            timer_ms: None,
            action: ViewAction::SetWindowColor,
        },
        ViewPhase::Done => ViewStep { phase: ViewPhase::Done, step_idx, timer_ms: None, action: ViewAction::Finish },
    }
}

/// The position of a phase in the animation.
pub open spec fn phase_rank(p: ViewPhase) -> int {
    match p {
        ViewPhase::FadeOut => 0,
        ViewPhase::PrepareScene => 1,
        ViewPhase::FadeIn => 2,
        ViewPhase::PenTween => 3,
        ViewPhase::PenWait => 4,
        ViewPhase::RevealName => 5,
        ViewPhase::DisplayWait => 6,
        ViewPhase::FadeOutScene => 7,
        ViewPhase::SetWindowColor => 8,
        ViewPhase::Done => 9,
    }
}

/// A view never goes back and never skips a phase; a phase that waits on
/// its timer stays, unchanged, until the timer finishes.
pub proof fn law_view_phases_in_order(phase: ViewPhase, step: usize, finished: bool, n: usize, wait_ms: u64, step_ms: u64, reveal_ms: u64)
    ensures
        ({
            let r = view_step_spec(phase, step, finished, n, wait_ms, step_ms, reveal_ms);
            &&& phase_rank(phase) <= phase_rank(r.phase) <= phase_rank(phase) + 1
            &&& (!finished && phase != ViewPhase::PrepareScene && phase != ViewPhase::SetWindowColor
                && phase != ViewPhase::Done) ==> r == keep(phase, step)
        }),
{
}

/// The state after `k` frames whose timers all finish.
pub open spec fn view_run(phase: ViewPhase, step: usize, n: usize, wait_ms: u64, step_ms: u64, reveal_ms: u64, k: nat) -> ViewStep
    decreases k,
{
    if k == 0 {
        keep(phase, step)
    } else {
        let r = view_step_spec(phase, step, true, n, wait_ms, step_ms, reveal_ms);
        view_run(r.phase, r.step_idx, n, wait_ms, step_ms, reveal_ms, (k - 1) as nat)
    }
}

/// Once the scene has faded in, the pen moves to each waypoint in turn, a
/// step of its own timing apart, and then waits: the `i`-th finished timer
/// of the pen phase moves it to waypoint `i`.
pub proof fn law_pen_visits_waypoints_in_order(n: usize, wait_ms: u64, step_ms: u64, reveal_ms: u64, i: usize)
    requires
        i < n,
    ensures
        ({
            let r = view_step_spec(ViewPhase::PenTween, i, true, n, wait_ms, step_ms, reveal_ms);
            &&& r.action == ViewAction::MovePen(i)
            &&& r.step_idx == i + 1
            &&& (i + 1 < n ==> r.phase == ViewPhase::PenTween && r.timer_ms == Some(step_ms))
            &&& (i + 1 == n ==> r.phase == ViewPhase::PenWait && r.timer_ms == Some(wait_ms))
        }),
{
}

proof fn lemma_pen_run(n: usize, wait_ms: u64, step_ms: u64, reveal_ms: u64, i: usize)
    requires
        i < n,
    ensures
        view_run(ViewPhase::PenTween, i, n, wait_ms, step_ms, reveal_ms, (n - i) as nat) == keep(ViewPhase::PenWait, n),
    decreases n - i,
{
    reveal_with_fuel(view_run, 2);
    if i + 1 < n {
        lemma_pen_run(n, wait_ms, step_ms, reveal_ms, (i + 1) as usize);
    }
}

/// A view whose timers all finish is over after eight frames and one more
/// for each waypoint.
pub proof fn law_view_ends(n: usize, wait_ms: u64, step_ms: u64, reveal_ms: u64)
    requires
        n > 0,
    ensures
        view_run(ViewPhase::FadeOut, 0, n, wait_ms, step_ms, reveal_ms, (n + 8) as nat).phase == ViewPhase::Done,
{
    reveal_with_fuel(view_run, 4);
    let r3 = view_run(ViewPhase::FadeOut, 0, n, wait_ms, step_ms, reveal_ms, 3);
    assert(r3 == keep(ViewPhase::PenTween, 0));
    lemma_view_run_split(ViewPhase::FadeOut, 0, n, wait_ms, step_ms, reveal_ms, 3, n as nat);
    lemma_pen_run(n, wait_ms, step_ms, reveal_ms, 0);
    lemma_view_run_split(ViewPhase::FadeOut, 0, n, wait_ms, step_ms, reveal_ms, (3 + n) as nat, 5);
    reveal_with_fuel(view_run, 6);
}

proof fn lemma_view_run_split(phase: ViewPhase, step: usize, n: usize, wait_ms: u64, step_ms: u64, reveal_ms: u64, a: nat, b: nat)
    ensures
        ({
            let m = view_run(phase, step, n, wait_ms, step_ms, reveal_ms, a);
            view_run(phase, step, n, wait_ms, step_ms, reveal_ms, a + b) == view_run(m.phase, m.step_idx, n, wait_ms, step_ms, reveal_ms, b)
        }),
    decreases a,
{
    if a > 0 {
        let r = view_step_spec(phase, step, true, n, wait_ms, step_ms, reveal_ms);
        lemma_view_run_split(r.phase, r.step_idx, n, wait_ms, step_ms, reveal_ms, (a - 1) as nat, b);
        assert((a + b - 1) as nat == ((a - 1) as nat + b) as nat);
    }
}

} // verus!
