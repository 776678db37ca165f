use bevy_vn::script::{FgPosition, ScriptCmd, ScriptEngine, Transition};

fn bg(f: &str) -> ScriptCmd {
    ScriptCmd::SetBg { file: f.into(), transition: Some(Transition::Fade), duration: Some(500) }
}

fn fg(c: &str, e: &str) -> ScriptCmd {
    ScriptCmd::ShowFg { char_id: c.into(), expression: e.into(), position: FgPosition::Left, transition: Some(Transition::Dissolve) }
}

#[test]
fn the_latest_scene_commands_are_restored_in_order() {
    let mut e = ScriptEngine::new();
    e.load(
        "s",
        vec![
            bg("bg_a"),
            fg("eus", "1"),
            ScriptCmd::ShowCg { file: "cg_1".into(), transition: None },
            bg("bg_b"),
            fg("eus", "2"),
            ScriptCmd::HideCg { transition: Some(Transition::Fade) },
            fg("eri", "3"),
            bg("bg_future"),
        ],
    );
    e.current_line = 7;
    let r = e.collect_scene_restore();
    assert_eq!(r.len(), 4);
    assert!(matches!(&r[0], ScriptCmd::SetBg { file, transition: None, duration: None } if file == "bg_b"));
    assert!(matches!(&r[1], ScriptCmd::ShowFg { char_id, expression, transition: None, .. } if char_id == "eus" && expression == "2"));
    assert!(matches!(&r[2], ScriptCmd::HideCg { transition: None }));
    assert!(matches!(&r[3], ScriptCmd::ShowFg { char_id, transition: None, .. } if char_id == "eri"));
}

#[test]
fn callers_fill_in_what_the_called_script_does_not_show() {
    let mut e = ScriptEngine::new();
    e.load("sub", vec![fg("eus", "9"), ScriptCmd::Return]);
    e.load("main", vec![bg("bg_main"), fg("eus", "1"), ScriptCmd::HideFg { char_id: "eri".into(), transition: None }, ScriptCmd::CallScript { script: "sub".into(), label: None }]);
    e.current_line = 4;
    e.call_script("sub", None);
    e.current_line = 1;
    let r = e.collect_scene_restore();
    assert_eq!(r.len(), 3);
    assert!(matches!(&r[0], ScriptCmd::SetBg { file, .. } if file == "bg_main"));
    assert!(matches!(&r[1], ScriptCmd::HideFg { char_id, .. } if char_id == "eri"));
    assert!(matches!(&r[2], ScriptCmd::ShowFg { expression, .. } if expression == "9"));
}

#[test]
fn nothing_is_restored_at_the_start_or_for_an_unknown_script() {
    let mut e = ScriptEngine::new();
    e.load("s", vec![bg("x")]);
    assert!(e.collect_scene_restore().is_empty());
    e.current_script = "missing".to_string();
    e.current_line = 5;
    assert!(e.collect_scene_restore().is_empty());
}
