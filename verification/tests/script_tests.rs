use bevy_vn::script::{
    checked_script_expression, evaluate_condition_expression, evaluate_script_expression, ScriptCmd,
    ScriptEngine,
};
use bevy_vn::strmap::StrMap;

fn label(name: &str) -> ScriptCmd {
    ScriptCmd::Label { name: name.to_string() }
}

fn flags_with_tmp(v: i32) -> StrMap<i32> {
    let mut f = StrMap::new();
    let k: Vec<char> = "tmp".chars().collect();
    f.insert(&k, v);
    f
}

#[test]
fn conditions_compare_the_tmp_flag() {
    let f = flags_with_tmp(3);
    assert!(evaluate_condition_expression("== 3", &f));
    assert!(evaluate_condition_expression("t.tmp >= 2", &f));
    assert!(!evaluate_condition_expression("t.tmp < 3", &f));
    assert!(evaluate_condition_expression("3", &f));
    assert!(!evaluate_condition_expression("4", &f));
    assert!(evaluate_condition_expression("!= 1", &f));
    // An unset flag reads as 0.
    assert!(evaluate_condition_expression("== 0", &StrMap::new()));
}

#[test]
fn expressions_add_and_subtract_the_tmp_flag() {
    let f = flags_with_tmp(5);
    assert_eq!(evaluate_script_expression("t.tmp+1", &f), 6);
    assert_eq!(evaluate_script_expression("t.tmp-2", &f), 3);
    assert_eq!(evaluate_script_expression("7", &f), 7);
    assert_eq!(evaluate_script_expression("t.tmp", &f), 5);
    assert_eq!(checked_script_expression("t.tmp+2", &f), Some(7));
    let big = flags_with_tmp(i32::MAX);
    assert_eq!(checked_script_expression("t.tmp+1", &big), None);
}

#[test]
fn call_then_return_resumes_after_the_call() {
    let mut e = ScriptEngine::new();
    e.load(
        "s",
        vec![label("main"), ScriptCmd::Call { target: "sub".into() }, ScriptCmd::Halt, label("sub"), ScriptCmd::Return],
    );
    e.current_line = 2;
    e.call_label("sub");
    assert_eq!(e.current_line, 4);
    assert_eq!(e.call_stack.len(), 1);
    e.return_from_call();
    assert_eq!(e.current_line, 2);
    assert!(e.call_stack.is_empty());
}

#[test]
fn a_missing_label_leaves_the_place_unchanged() {
    let mut e = ScriptEngine::new();
    e.load("s", vec![label("a"), ScriptCmd::Halt]);
    e.current_line = 1;
    assert!(!e.jump_to_label("zzz"));
    assert_eq!(e.current_line, 1);
    e.call_label("zzz");
    assert_eq!(e.current_line, 1);
    assert!(e.call_stack.is_empty());
    assert!(e.jump_to_label("a"));
    assert_eq!(e.current_line, 1);
}

#[test]
fn call_script_and_return() {
    let mut e = ScriptEngine::new();
    e.load("other", vec![label("x"), ScriptCmd::Return]);
    e.load("first", vec![ScriptCmd::CallScript { script: "other".into(), label: None }, ScriptCmd::Halt]);
    e.current_line = 1;
    e.call_script("other", Some("x"));
    assert_eq!(e.current_script, "other");
    assert_eq!(e.current_line, 1);
    e.return_from_call();
    assert_eq!(e.current_script, "first");
    assert_eq!(e.current_line, 1);
    // A script that is not loaded is not called.
    e.call_script("missing", None);
    assert_eq!(e.current_script, "first");
    assert!(e.call_stack.is_empty());
}

#[test]
fn advance_walks_the_script() {
    let mut e = ScriptEngine::new();
    e.load("s", vec![label("a"), ScriptCmd::Halt]);
    assert!(e.has_more());
    assert!(matches!(e.peek(), Some(ScriptCmd::Label { .. })));
    assert!(matches!(e.advance(), Some(ScriptCmd::Label { .. })));
    assert!(matches!(e.advance(), Some(ScriptCmd::Halt)));
    assert!(e.advance().is_none());
    assert!(!e.has_more());
}

#[test]
fn next_script_follows_numbering() {
    let mut e = ScriptEngine::new();
    e.load("aiy00020", vec![ScriptCmd::Halt]);
    e.load("aiy00010", vec![ScriptCmd::Halt]);
    e.current_line = 1;
    assert!(e.next_script());
    assert_eq!(e.current_script, "aiy00020");
    assert_eq!(e.current_line, 0);
    assert!(!e.next_script());
    assert_eq!(e.current_script, "aiy00020");
}
