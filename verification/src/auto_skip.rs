//! Auto mode and skip mode: when the script goes on without the player.
//!
//! Each frame the caller asks what to do; it keeps the timers and ticks
//! the one named, and goes on when that timer finishes.
use vstd::prelude::*;
use crate::runner::DialogueState;
use crate::text::byte_len;

verus! {

/// Who asked the script to go on.
#[derive(Clone, Copy, Debug, PartialEq, Eq, Structural)]
pub enum AdvanceSource {
    UserInput,
    Auto,
    Skip,
}

/// The timer to tick this frame.
#[derive(Clone, Copy, Debug, PartialEq, Eq, Structural)]
pub enum TimerUse {
    NoTimer,
    /// The skip timer, started at 50 ms where none runs; going on with
    /// skip when it finishes.
    Skip,
    /// The auto timer, started at the auto delay where none runs; going on
    /// with auto when it finishes.
    Auto,
    /// The auto timer only where one runs.
    AutoIfRunning,
}

/// What to do this frame.
#[derive(Clone, Copy, Debug, PartialEq, Eq, Structural)]
pub struct AutoSkipPlan {
    /// Go on at once, on behalf of this source.
    pub advance_now: Option<AdvanceSource>,
    pub clear_auto_timer: bool,
    pub clear_skip_timer: bool,
    /// Whether auto mode still waits for the voice.
    pub waiting_for_voice: bool,
    pub tick: TimerUse,
}

/// What auto and skip mode do this frame.  `text_len` is the length in
/// bytes of the line on screen, `progress` how much of it is shown.
pub open spec fn auto_skip_spec(
    view_blocking: bool,
    choice_active: bool,
    skip_mode: bool,
    auto_mode: bool,
    displaying: bool,
    progress: int,
    text_len: int,
    waiting_for_voice: bool,
    voice_playing: bool,
) -> AutoSkipPlan {
    let idle = AutoSkipPlan {
        advance_now: None,
        clear_auto_timer: false,
        clear_skip_timer: false,
        waiting_for_voice,
        tick: TimerUse::NoTimer,
    };
    let shown = !displaying || progress >= text_len;
    let empty = text_len == 0;
    if view_blocking {
        idle
    } else if choice_active {
        AutoSkipPlan { clear_auto_timer: true, clear_skip_timer: true, ..idle }
    } else if skip_mode {
        if !shown || empty {
            AutoSkipPlan {
                advance_now: if empty && !displaying { Some(AdvanceSource::Skip) } else { None },
                clear_auto_timer: true,
                clear_skip_timer: true,
                waiting_for_voice: false,
                tick: TimerUse::NoTimer,
            }
        } else {
            AutoSkipPlan { clear_auto_timer: true, waiting_for_voice: false, tick: TimerUse::Skip, ..idle }
        }
    } else if auto_mode {
        if !shown || empty {
            AutoSkipPlan {
                advance_now: if empty && !displaying { Some(AdvanceSource::Auto) } else { None },
                clear_auto_timer: true,
                ..idle
            }
        } else if waiting_for_voice && voice_playing {
            idle
        } else {
            AutoSkipPlan { waiting_for_voice: false, tick: TimerUse::Auto, ..idle }
        }
    } else {
        AutoSkipPlan { waiting_for_voice: false, tick: TimerUse::AutoIfRunning, ..idle }
    }
}

/// Decides what auto and skip mode do this frame.  `voice_playing` is
/// whether the voice of the line still sounds; it matters only while
/// auto mode waits for it.
pub fn auto_skip_plan(
    dialogue: &DialogueState,
    view_blocking: bool,
    choice_active: bool,
    skip_mode: bool,
    auto_mode: bool,
    waiting_for_voice: bool,
    voice_playing: bool,
) -> (r: AutoSkipPlan)
    ensures
        r == auto_skip_spec(view_blocking, choice_active, skip_mode, auto_mode, dialogue.is_displaying,
            dialogue.text_progress as int, byte_len(dialogue.current_text@) as int,
            waiting_for_voice, voice_playing),
{
    let idle = AutoSkipPlan {
        advance_now: None,
        clear_auto_timer: false,
        clear_skip_timer: false,
        waiting_for_voice,
        tick: TimerUse::NoTimer,
    };
    let text_len = dialogue.current_text.as_str().as_bytes().len();
    let displaying = dialogue.is_displaying;
    let shown = !displaying || dialogue.text_progress >= text_len;
    let empty = text_len == 0;
    if view_blocking {
        idle
    } else if choice_active {
        AutoSkipPlan { clear_auto_timer: true, clear_skip_timer: true, ..idle }
    } else if skip_mode {
        if !shown || empty {
            AutoSkipPlan {
                advance_now: if empty && !displaying { Some(AdvanceSource::Skip) } else { None },
                clear_auto_timer: true,
                clear_skip_timer: true,
                waiting_for_voice: false,
                tick: TimerUse::NoTimer,
            }
        } else {
            AutoSkipPlan { clear_auto_timer: true, waiting_for_voice: false, tick: TimerUse::Skip, ..idle }
        }
    } else if auto_mode {
        if !shown || empty {
            AutoSkipPlan {
                advance_now: if empty && !displaying { Some(AdvanceSource::Auto) } else { None },
                clear_auto_timer: true,
                ..idle
            }
        } else if waiting_for_voice && voice_playing {
            idle
        } else {
            AutoSkipPlan { waiting_for_voice: false, tick: TimerUse::Auto, ..idle }
        }
    } else {
        AutoSkipPlan { waiting_for_voice: false, tick: TimerUse::AutoIfRunning, ..idle }
    }
}

/// Auto and skip mode never cut a line short: they go on at once only
/// where no line is on screen, and run their timers only once the line is
/// shown whole; while a choice is open or a view holds the script they do
/// neither.
pub proof fn law_auto_skip_waits_for_the_line(
    view_blocking: bool,
    choice_active: bool,
    skip_mode: bool,
    auto_mode: bool,
    displaying: bool,
    progress: int,
    text_len: int,
    waiting_for_voice: bool,
    voice_playing: bool,
)
    ensures
        ({
            let r = auto_skip_spec(view_blocking, choice_active, skip_mode, auto_mode, displaying, progress, text_len,
                waiting_for_voice, voice_playing);
            &&& r.advance_now is Some ==> !view_blocking && !choice_active && text_len == 0 && !displaying
            &&& (r.tick == TimerUse::Skip || r.tick == TimerUse::Auto) ==> !view_blocking && !choice_active
                && text_len != 0 && (!displaying || progress >= text_len)
            &&& choice_active && !view_blocking ==> r.advance_now is None && r.tick == TimerUse::NoTimer
                && r.clear_auto_timer && r.clear_skip_timer
            &&& (skip_mode && !view_blocking && !choice_active) ==> r.advance_now != Some(AdvanceSource::Auto)
                && r.tick != TimerUse::Auto
        }),
{
}

} // verus!
