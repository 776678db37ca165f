use bevy_vn::auto_skip::{auto_skip_plan, AdvanceSource, TimerUse};
use bevy_vn::runner::DialogueState;

fn line(text: &str, progress: usize, displaying: bool) -> DialogueState {
    DialogueState {
        current_text: text.to_string(),
        current_speaker: None,
        text_progress: progress,
        is_displaying: displaying,
        text_queue: Vec::new(),
    }
}

#[test]
fn skip_mode_ticks_once_the_line_is_shown() {
    let p = auto_skip_plan(&line("héllo", 6, true), false, false, true, false, true, false);
    assert_eq!(p.tick, TimerUse::Skip);
    assert!(p.clear_auto_timer && !p.clear_skip_timer && !p.waiting_for_voice);
    assert_eq!(p.advance_now, None);
    let p = auto_skip_plan(&line("héllo", 5, true), false, false, true, false, false, false);
    assert_eq!(p.tick, TimerUse::NoTimer);
    assert!(p.clear_skip_timer);
}

#[test]
fn an_empty_screen_goes_on_at_once() {
    let p = auto_skip_plan(&line("", 0, false), false, false, true, false, false, false);
    assert_eq!(p.advance_now, Some(AdvanceSource::Skip));
    let p = auto_skip_plan(&line("", 0, false), false, false, false, true, false, false);
    assert_eq!(p.advance_now, Some(AdvanceSource::Auto));
    assert_eq!(p.tick, TimerUse::NoTimer);
}

#[test]
fn auto_mode_waits_for_the_voice() {
    let p = auto_skip_plan(&line("hi", 2, true), false, false, false, true, true, true);
    assert_eq!(p.tick, TimerUse::NoTimer);
    assert!(p.waiting_for_voice);
    let p = auto_skip_plan(&line("hi", 2, true), false, false, false, true, true, false);
    assert_eq!(p.tick, TimerUse::Auto);
    assert!(!p.waiting_for_voice);
}

#[test]
fn choices_and_views_hold_everything() {
    let p = auto_skip_plan(&line("", 0, false), false, true, true, false, true, false);
    assert_eq!(p.advance_now, None);
    assert!(p.clear_auto_timer && p.clear_skip_timer);
    let p = auto_skip_plan(&line("", 0, false), true, true, true, false, true, false);
    assert_eq!(p.advance_now, None);
    assert!(!p.clear_auto_timer && p.waiting_for_voice);
    let p = auto_skip_plan(&line("x", 1, false), false, false, false, false, true, true);
    assert_eq!(p.tick, TimerUse::AutoIfRunning);
    assert!(!p.waiting_for_voice);
}
