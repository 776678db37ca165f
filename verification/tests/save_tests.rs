use bevy_vn::runner::PlayState;
use bevy_vn::save::{build_save_data, load_save_data, page_left, page_right, save_total_pages, slot_prompt, SaveManager};
use bevy_vn::script::{ScriptCmd, ScriptEngine};
use bevy_vn::strmap::StrMap;

fn key(s: &str) -> Vec<char> {
    s.chars().collect()
}

#[test]
fn loading_a_save_returns_to_its_place() {
    let mut e = ScriptEngine::new();
    e.load("sub", vec![ScriptCmd::Label { name: "x".into() }, ScriptCmd::Return]);
    e.load("main", vec![ScriptCmd::SetBg { file: "bg1".into(), transition: None, duration: None }, ScriptCmd::Halt]);
    e.current_line = 1;
    e.call_script("sub", None);
    e.current_line = 1;
    e.flags.insert(&key("tmp"), 4);
    e.global_flags.insert(7, 1);
    let mut play = PlayState::new();
    play.affection.insert(&key("eus"), 3);
    play.unlock.cg_unlocked.insert(&key("cg1"), ());
    let d = build_save_data(&e, &play.affection, &play.unlock, 2, &Some("EUS".into()), &Some("bgm1".into()), &None, "123".to_string());
    assert_eq!(d.version, 2);
    assert_eq!(d.scene_name, "sub");
    assert_eq!(d.script_path, "sub.bscript.ron");
    assert_eq!(d.script_line, 1);
    assert_eq!(d.call_stack, vec![("main".to_string(), 1)]);
    assert_eq!(d.timestamp, "123");

    let mut fresh = ScriptEngine::new();
    fresh.load("sub", vec![ScriptCmd::Label { name: "x".into() }, ScriptCmd::Return]);
    fresh.load("main", vec![ScriptCmd::SetBg { file: "bg1".into(), transition: None, duration: None }, ScriptCmd::Halt]);
    let mut p2 = PlayState::new();
    let restore = load_save_data(&mut fresh, &mut p2, &d);
    assert_eq!(fresh.current_script, "sub");
    assert_eq!(fresh.current_line, 1);
    assert_eq!(fresh.call_stack, vec![("main".to_string(), 1)]);
    assert_eq!(fresh.flags.get(&key("tmp")), Some(&4));
    assert_eq!(fresh.global_flags.get(&7), Some(&1));
    assert_eq!(p2.affection.get(&key("eus")), Some(&3));
    assert!(p2.unlock.cg_unlocked.contains_key(&key("cg1")));
    assert_eq!(restore.len(), 1);
    assert!(matches!(&restore[0], ScriptCmd::SetBg { file, .. } if file == "bg1"));
}

#[test]
fn slots_and_prompts() {
    let mut m = SaveManager::new(3);
    assert!(m.slots.iter().all(|s| s.is_none()));
    let e = ScriptEngine::new();
    let d = build_save_data(&e, &StrMap::new(), &PlayState::new().unlock, 0, &None, &None, &None, String::new());
    m.store_slot(1, d);
    assert!(m.slots[1].is_some() && m.slots[0].is_none());
    assert_eq!(slot_prompt(true, true, 0).as_deref(), Some("Overwrite slot 1?"));
    assert_eq!(slot_prompt(false, true, 11).as_deref(), Some("Load slot 12?"));
    assert_eq!(slot_prompt(true, false, 2).as_deref(), Some("Save to slot 3?"));
    assert_eq!(slot_prompt(false, false, 2), None);
}

#[test]
fn pages_wrap_around() {
    assert_eq!(save_total_pages(0), 1);
    assert_eq!(save_total_pages(30), 2);
    assert_eq!(save_total_pages(31), 3);
    assert_eq!(page_left(0, 3), 2);
    assert_eq!(page_left(2, 3), 1);
    assert_eq!(page_right(2, 3), 0);
    assert_eq!(page_right(0, 3), 1);
}
