use bevy_vn::runner::{
    can_step, end_of_script, gate, reset_engine_on_title, select_choice, start_intro, start_route,
    run_until_stop, start_session, step, Backlog, BacklogEntry, End, Flow, Gate, PlayState, BACKLOG_LIMIT,
};
use bevy_vn::script::{ChoiceOption, ConditionOp, ScriptCmd, ScriptEngine};

fn label(name: &str) -> ScriptCmd {
    ScriptCmd::Label { name: name.to_string() }
}

fn line(text: &str) -> ScriptCmd {
    ScriptCmd::Dialogue { speaker: Some("A".to_string()), text: text.to_string() }
}

fn engine_with(cmds: Vec<ScriptCmd>) -> ScriptEngine {
    let mut e = ScriptEngine::new();
    e.load("aiy00010", cmds);
    e
}

fn run(e: &mut ScriptEngine, p: &mut PlayState) -> Flow {
    assert!(can_step(e, p));
    step(e, p, false)
}

#[test]
fn backlog_keeps_the_last_lines() {
    let mut b = Backlog::new();
    for i in 0..(BACKLOG_LIMIT + 5) {
        b.push_entry(BacklogEntry { speaker: None, text: format!("{}", i), voice_file: None });
        assert!(b.entries.len() <= BACKLOG_LIMIT);
    }
    assert_eq!(b.entries.len(), BACKLOG_LIMIT);
    assert_eq!(b.entries[0].text, "5");
    assert_eq!(b.entries[BACKLOG_LIMIT - 1].text, format!("{}", BACKLOG_LIMIT + 4));
}

#[test]
fn a_line_stops_and_goes_to_the_backlog_with_its_voice() {
    let mut e = engine_with(vec![ScriptCmd::PlayVoice { file: "v1".into() }, line("hello")]);
    let mut p = PlayState::new();
    assert_eq!(run(&mut e, &mut p), Flow::Next);
    assert_eq!(run(&mut e, &mut p), Flow::Stop);
    assert_eq!(p.dialogue.current_text, "hello");
    assert_eq!(p.dialogue.text_progress, 0);
    assert!(p.dialogue.is_displaying);
    assert_eq!(p.backlog.entries.len(), 1);
    assert_eq!(p.backlog.entries[0].voice_file.as_deref(), Some("v1"));
    assert!(p.pending_voice.is_none());
}

#[test]
fn going_on_reveals_then_hides_then_runs() {
    let mut e = engine_with(vec![line("hello"), ScriptCmd::Halt]);
    let mut p = PlayState::new();
    run(&mut e, &mut p);
    assert_eq!(gate(&mut e, &mut p, false), Gate::Revealed);
    assert_eq!(p.dialogue.text_progress, 5);
    assert_eq!(gate(&mut e, &mut p, false), Gate::Hidden);
    assert!(!p.dialogue.is_displaying);
    assert_eq!(gate(&mut e, &mut p, false), Gate::Run);
    assert_eq!(gate(&mut e, &mut p, true), Gate::Blocked);
}

#[test]
fn skipping_shows_lines_whole_and_goes_on() {
    let mut e = engine_with(vec![line("héllo")]);
    let mut p = PlayState::new();
    assert_eq!(step(&mut e, &mut p, true), Flow::Next);
    assert_eq!(p.dialogue.text_progress, 6);
    assert!(!p.dialogue.is_displaying);
}

#[test]
fn a_stored_value_loads_back_into_tmp() {
    let mut e = engine_with(vec![
        ScriptCmd::StoreValueToLocalWork { index: 4, value: 9, expression: None },
        ScriptCmd::LoadValueFromLocalWork { index: 4 },
        ScriptCmd::Condition { var: "tmp".into(), value: 9, operator: ConditionOp::Equal, goto: "yes".into() },
        ScriptCmd::Halt,
        label("yes"),
    ]);
    let mut p = PlayState::new();
    assert_eq!(run(&mut e, &mut p), Flow::Stored { index: 4, value: 9 });
    assert_eq!(run(&mut e, &mut p), Flow::Next);
    assert_eq!(run(&mut e, &mut p), Flow::ClearThenNext);
    assert_eq!(e.current_line, 5);
}

#[test]
fn a_stored_expression_reads_tmp() {
    let mut e = engine_with(vec![
        ScriptCmd::SetFlag { name: "tmp".into(), value: 2 },
        ScriptCmd::StoreValueToLocalWork { index: 1, value: 0, expression: Some("t.tmp+1".into()) },
    ]);
    let mut p = PlayState::new();
    run(&mut e, &mut p);
    assert_eq!(run(&mut e, &mut p), Flow::Stored { index: 1, value: 3 });
}

#[test]
fn a_condition_that_fails_goes_on() {
    let mut e = engine_with(vec![
        ScriptCmd::SetFlag { name: "tmp".into(), value: 1 },
        ScriptCmd::Condition { var: "tmp".into(), value: 1, operator: ConditionOp::NotEqual, goto: "far".into() },
        label("far"),
    ]);
    let mut p = PlayState::new();
    run(&mut e, &mut p);
    assert_eq!(run(&mut e, &mut p), Flow::Next);
    assert_eq!(e.current_line, 2);
}

#[test]
fn halt_ends_the_run() {
    let mut e = engine_with(vec![ScriptCmd::Halt, line("never")]);
    let mut p = PlayState::new();
    assert_eq!(run(&mut e, &mut p), Flow::Halted);
    assert!(e.finished);
    assert!(!can_step(&e, &p));
    assert_eq!(gate(&mut e, &mut p, false), Gate::Finished);
}

#[test]
fn a_choice_stops_until_an_option_is_picked() {
    let options = vec![
        ChoiceOption { text: "a".into(), affection_change: Some(("eus".into(), 3)), goto: Some("a".into()) },
        ChoiceOption { text: "b".into(), affection_change: None, goto: None },
    ];
    let mut e = engine_with(vec![ScriptCmd::Choice { options }, ScriptCmd::Halt, label("a")]);
    let mut p = PlayState::new();
    assert_eq!(run(&mut e, &mut p), Flow::Stop);
    assert!(p.choice.active);
    assert_eq!(gate(&mut e, &mut p, false), Gate::ChoicePending);
    select_choice(&mut e, &mut p, 0);
    assert!(!p.choice.active);
    assert!(p.choice.options.is_empty());
    assert_eq!(e.current_line, 3);
    let eus: Vec<char> = "eus".chars().collect();
    assert_eq!(p.affection.get(&eus), Some(&3));
}

#[test]
fn picking_an_option_out_of_range_only_closes_the_choice() {
    let options = vec![ChoiceOption { text: "a".into(), affection_change: None, goto: Some("x".into()) }];
    let mut e = engine_with(vec![ScriptCmd::Choice { options }, label("x")]);
    let mut p = PlayState::new();
    run(&mut e, &mut p);
    select_choice(&mut e, &mut p, 5);
    assert!(!p.choice.active);
    assert_eq!(e.current_line, 1);
}

#[test]
fn affection_adds_up() {
    let mut e = engine_with(vec![
        ScriptCmd::AffectionChange { char_id: "eus".into(), delta: 2 },
        ScriptCmd::AffectionChange { char_id: "eus".into(), delta: -5 },
    ]);
    let mut p = PlayState::new();
    run(&mut e, &mut p);
    run(&mut e, &mut p);
    let eus: Vec<char> = "eus".chars().collect();
    assert_eq!(p.affection.get(&eus), Some(&-3));
}

#[test]
fn cgs_and_music_are_unlocked_outside_the_intro() {
    let mut e = engine_with(vec![
        ScriptCmd::ShowCg { file: "cg01".into(), transition: None },
        ScriptCmd::PlayBgm { id: "bgm01".into(), volume: None, fade_in: None },
    ]);
    let mut p = PlayState::new();
    assert!(start_intro(&e, &mut p));
    run(&mut e, &mut p);
    run(&mut e, &mut p);
    let cg: Vec<char> = "cg01".chars().collect();
    let bgm: Vec<char> = "bgm01".chars().collect();
    assert!(p.unlock.cg_unlocked.contains_key(&cg));
    assert!(!p.unlock.bgm_unlocked.contains_key(&bgm));
}

#[test]
fn the_end_of_a_call_returns_to_the_caller() {
    let mut e = ScriptEngine::new();
    e.load("sub", vec![label("x")]);
    e.load("aiy00010", vec![ScriptCmd::CallScript { script: "sub".into(), label: None }, ScriptCmd::Halt]);
    let mut p = PlayState::new();
    assert_eq!(run(&mut e, &mut p), Flow::ClearThenNext);
    assert_eq!(e.current_script, "sub");
    run(&mut e, &mut p);
    assert_eq!(end_of_script(&mut e), End::Resumed);
    assert_eq!(e.current_script, "aiy00010");
    assert_eq!(e.current_line, 1);
    assert_eq!(end_of_script(&mut e), End::Running);
}

#[test]
fn the_end_of_a_script_moves_to_the_next_by_number() {
    let mut e = ScriptEngine::new();
    e.load("aiy00020", vec![line("two")]);
    e.load("aiy00010", vec![]);
    assert_eq!(end_of_script(&mut e), End::NextScript);
    assert_eq!(e.current_script, "aiy00020");
    assert!(e.finished);
    let mut p = PlayState::new();
    // Going on clears the finished mark, since more commands wait.
    assert_eq!(gate(&mut e, &mut p, false), Gate::Run);
    assert!(!e.finished);
    let mut last = ScriptEngine::new();
    last.load("aiy00990", vec![]);
    assert_eq!(end_of_script(&mut last), End::Ended);
    assert!(last.finished);
}

#[test]
fn title_and_route_reset_the_engine() {
    let mut e = engine_with(vec![ScriptCmd::SetGlobalFlag { index: 1, value: 1 }, ScriptCmd::SetFlag { name: "f".into(), value: 1 }]);
    e.load("main", vec![]);
    e.load("other", vec![ScriptCmd::SetGlobalFlag { index: 1, value: 1 }, ScriptCmd::SetFlag { name: "f".into(), value: 1 }]);
    let mut p = PlayState::new();
    run(&mut e, &mut p);
    run(&mut e, &mut p);
    reset_engine_on_title(&mut e);
    assert_eq!(e.current_script, "main");
    assert_eq!(e.current_line, 0);
    assert_eq!(e.flags.len(), 0);
    assert_eq!(e.global_flags.get(&1), Some(&1));
    start_route(&mut e, "other".to_string());
    assert_eq!(e.current_script, "other");
    assert!(e.global_flags.is_empty());
}

#[test]
fn a_session_starts_clean_or_with_the_restored_line() {
    let mut p = PlayState::new();
    p.choice.active = true;
    p.window_override = true;
    start_session(&mut p, Some(("héllo".to_string(), Some("A".to_string()))));
    assert!(!p.choice.active);
    assert!(!p.window_override);
    assert_eq!(p.dialogue.text_progress, 6);
    assert!(p.dialogue.is_displaying);
    start_session(&mut p, None);
    assert_eq!(p.dialogue.current_text, "");
    assert!(!p.dialogue.is_displaying);
}

#[test]
fn skipping_runs_until_a_choice() {
    let options = vec![ChoiceOption { text: "a".into(), affection_change: None, goto: None }];
    let mut e = engine_with(vec![
        line("one"),
        ScriptCmd::Wait { duration: 1000 },
        ScriptCmd::View { char_id: "EUS".into() },
        ScriptCmd::WaitVoice,
        ScriptCmd::Choice { options },
        line("after"),
    ]);
    let mut p = PlayState::new();
    let mut flows = Vec::new();
    while can_step(&e, &p) {
        let f = step(&mut e, &mut p, true);
        flows.push(f);
        if f == Flow::Stop {
            break;
        }
    }
    assert_eq!(flows, vec![Flow::Next, Flow::Next, Flow::Next, Flow::Next, Flow::Stop]);
    assert!(p.choice.active);
}

#[test]
fn jumps_clear_the_scene() {
    let mut e = engine_with(vec![ScriptCmd::Jump { target: "x".into() }, label("x"), ScriptCmd::Return]);
    let mut p = PlayState::new();
    assert_eq!(run(&mut e, &mut p), Flow::ClearThenNext);
    assert_eq!(e.current_line, 2);
    assert_eq!(run(&mut e, &mut p), Flow::ClearThenNext);
    let mut v = engine_with(vec![ScriptCmd::View { char_id: "EUS".into() }, ScriptCmd::View { char_id: "nobody".into() }]);
    assert_eq!(run(&mut v, &mut p), Flow::ClearThenStop);
    assert_eq!(run(&mut v, &mut p), Flow::ClearThenNext);
}

#[test]
fn a_voice_before_a_stop_does_not_go_with_the_next_line() {
    let mut e = engine_with(vec![ScriptCmd::PlayVoice { file: "v1".into() }, ScriptCmd::Wait { duration: 10 }, line("hi")]);
    let mut p = PlayState::new();
    assert_eq!(gate(&mut e, &mut p, false), Gate::Run);
    assert_eq!(run(&mut e, &mut p), Flow::Next);
    assert_eq!(run(&mut e, &mut p), Flow::Stop);
    assert_eq!(gate(&mut e, &mut p, false), Gate::Run);
    assert_eq!(run(&mut e, &mut p), Flow::Stop);
    assert_eq!(p.backlog.entries[0].voice_file, None);
}

#[test]
fn a_return_clears_the_scene_in_skip_mode_too() {
    let mut e = engine_with(vec![ScriptCmd::Call { target: "x".into() }, ScriptCmd::Halt, label("x"), ScriptCmd::Return]);
    let mut p = PlayState::new();
    assert_eq!(step(&mut e, &mut p, true), Flow::ClearThenNext);
    assert_eq!(e.current_line, 3);
    assert_eq!(step(&mut e, &mut p, true), Flow::ClearThenNext);
    assert_eq!(e.current_line, 1);
}

#[test]
fn a_whole_advance_keeps_the_backlog_bounded() {
    let mut e = engine_with(vec![ScriptCmd::PlayVoice { file: "v1".into() }, line("a"), line("b")]);
    let mut p = PlayState::new();
    for i in 0..BACKLOG_LIMIT {
        p.backlog.push_entry(BacklogEntry { speaker: None, text: format!("{}", i), voice_file: None });
    }
    assert_eq!(gate(&mut e, &mut p, false), Gate::Run);
    while can_step(&e, &p) {
        step(&mut e, &mut p, true);
        assert!(p.backlog.entries.len() <= BACKLOG_LIMIT);
    }
    assert_eq!(p.backlog.entries.len(), BACKLOG_LIMIT);
    assert_eq!(p.backlog.entries[0].text, "2");
    assert_eq!(p.backlog.entries[BACKLOG_LIMIT - 2].text, "a");
    assert_eq!(p.backlog.entries[BACKLOG_LIMIT - 2].voice_file.as_deref(), Some("v1"));
    assert_eq!(p.backlog.entries[BACKLOG_LIMIT - 1].text, "b");
    assert_eq!(p.backlog.entries[BACKLOG_LIMIT - 1].voice_file, None);
}

#[test]
fn an_advance_runs_until_the_first_stop() {
    let mut e = engine_with(vec![
        ScriptCmd::PlayVoice { file: "v1".into() },
        ScriptCmd::Jump { target: "x".into() },
        label("x"),
        line("a"),
        line("b"),
    ]);
    let mut p = PlayState::new();
    assert_eq!(gate(&mut e, &mut p, false), Gate::Run);
    let ran = run_until_stop(&mut e, &mut p, false, 100);
    let flows: Vec<Flow> = ran.iter().map(|r| r.2).collect();
    assert_eq!(flows, vec![Flow::Next, Flow::ClearThenNext, Flow::Stop]);
    assert_eq!(ran[2].0, "aiy00010");
    assert_eq!(ran[2].1, 3);
    assert_eq!(p.backlog.entries.len(), 1);
    assert_eq!(p.backlog.entries[0].voice_file.as_deref(), Some("v1"));
    assert_eq!(e.current_line, 4);
    let short = run_until_stop(&mut e, &mut p, true, 0);
    assert!(short.is_empty());
}
