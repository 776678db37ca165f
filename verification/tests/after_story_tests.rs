use bevy_vn::after_story::{group_unlocked, status_label, story_unlocked};
use bevy_vn::script::ScriptEngine;

#[test]
fn a_story_opens_by_its_flag_or_always() {
    let mut e = ScriptEngine::new();
    assert!(!story_unlocked(&e, false, 7));
    assert!(story_unlocked(&e, true, 7));
    e.global_flags.insert(7, 1);
    assert!(story_unlocked(&e, false, 7));
    e.global_flags.insert(7, 0);
    assert!(!story_unlocked(&e, false, 7));
    assert_eq!(status_label(true), "PLAY");
    assert_eq!(status_label(false), "LOCKED");
}

#[test]
fn the_extra_and_bonus_groups_open_by_their_flags() {
    let mut e = ScriptEngine::new();
    let heroines = vec![(false, 1u32), (true, 2u32)];
    assert!(!group_unlocked(&e, 0, &heroines, 10, 11));
    assert!(group_unlocked(&e, 1, &heroines, 10, 11));
    assert!(!group_unlocked(&e, 2, &heroines, 10, 11));
    assert!(!group_unlocked(&e, 3, &heroines, 10, 11));
    e.global_flags.insert(10, 1);
    assert!(group_unlocked(&e, 2, &heroines, 10, 11));
    assert!(!group_unlocked(&e, 3, &heroines, 10, 11));
    e.global_flags.insert(11, 2);
    assert!(group_unlocked(&e, 3, &heroines, 10, 11));
}
