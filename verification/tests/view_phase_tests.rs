use bevy_vn::number::Real;
use bevy_vn::view_data::{lookup_tween_entry, ViewTweenEntry};
use bevy_vn::view_phase::{advance_view_phase, ViewAction, ViewPhase};

fn tween(n: usize) -> ViewTweenEntry {
    ViewTweenEntry {
        waypoints: (0..n).map(|i| (Real::lit(&format!("{}.0", i)), Real::lit("1.0"))).collect(),
        step_wait_ms: 200,
        step_duration_ms: 111,
        reveal_time_ms: 1500,
    }
}

#[test]
fn a_view_runs_through_its_phases() {
    let t = tween(2);
    let mut phase = ViewPhase::FadeOut;
    let mut step = 0usize;
    let mut actions = Vec::new();
    let mut timers = Vec::new();
    for _ in 0..10 {
        let r = advance_view_phase(phase, step, true, &t);
        phase = r.phase;
        step = r.step_idx;
        actions.push(r.action);
        timers.push(r.timer_ms);
        if phase == ViewPhase::Done {
            break;
        }
    }
    assert_eq!(phase, ViewPhase::Done);
    assert_eq!(
        actions,
        vec![
            ViewAction::Nothing,
            ViewAction::SpawnScene,
            ViewAction::Nothing,
            ViewAction::MovePen(0),
            ViewAction::MovePen(1),
            ViewAction::Nothing,
            ViewAction::Nothing,
            ViewAction::Nothing,
            ViewAction::DespawnScene,
            ViewAction::SetWindowColor,
        ]
    );
    assert_eq!(timers, vec![None, Some(200), Some(200), Some(111), Some(200), Some(1500), Some(1000), Some(250), None, None]);
    assert_eq!(advance_view_phase(ViewPhase::Done, step, false, &t).action, ViewAction::Finish);
}

#[test]
fn an_unfinished_timer_holds_the_phase() {
    let t = lookup_tween_entry(1).unwrap();
    for p in [ViewPhase::FadeOut, ViewPhase::FadeIn, ViewPhase::PenTween, ViewPhase::PenWait, ViewPhase::RevealName, ViewPhase::DisplayWait, ViewPhase::FadeOutScene] {
        let r = advance_view_phase(p, 3, false, &t);
        assert_eq!((r.phase, r.step_idx, r.timer_ms, r.action), (p, 3, None, ViewAction::Nothing));
    }
    // Setting up the scene and coloring the window wait for nothing.
    assert_eq!(advance_view_phase(ViewPhase::PrepareScene, 0, false, &t).phase, ViewPhase::FadeIn);
    assert_eq!(advance_view_phase(ViewPhase::SetWindowColor, 0, false, &t).phase, ViewPhase::Done);
}

#[test]
fn a_pen_without_waypoints_goes_straight_to_waiting() {
    let t = tween(0);
    let r = advance_view_phase(ViewPhase::PenTween, 0, true, &t);
    assert_eq!((r.phase, r.step_idx, r.action, r.timer_ms), (ViewPhase::PenWait, 0, ViewAction::Nothing, Some(200)));
}
