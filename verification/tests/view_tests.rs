use bevy_vn::number::Real;
use bevy_vn::view_data::{lookup_tween_entry, lookup_view_entry};

fn real_value(r: &Real) -> f32 {
    match r {
        Real::Lit(t) => t.parse::<f32>().unwrap(),
        Real::Hundredth(t) => t.parse::<f32>().unwrap() / 100.0,
    }
}

#[test]
fn known_characters_have_view_entries() {
    let e = lookup_view_entry("EUSTIA").unwrap();
    assert_eq!(e.name_file, "view_name06");
    assert_eq!(e.base_file, "view_base01");
    assert_eq!(e.mask_file, "view_mask03");
    assert_eq!((e.name_w, e.name_x, e.pen_type, e.window_color), (220, 959, 3, 3));
    let end = lookup_view_entry("ViewEnd").unwrap();
    assert_eq!(end.base_file, "viewend_base");
    assert!(lookup_view_entry("eus").is_none());
    assert!(lookup_view_entry("").is_none());
}

#[test]
fn every_pen_type_of_an_entry_has_a_tween() {
    for id in ["OTH", "EUS", "ERI", "IRE", "LIC", "FIO", "EUSTIA", "COL", "LAV", "LUC", "VAR", "ViewEnd"] {
        let e = lookup_view_entry(id).unwrap();
        assert!(lookup_tween_entry(e.pen_type).is_some(), "{}", id);
    }
}

#[test]
fn tweens_by_pen_type() {
    let t = lookup_tween_entry(1).unwrap();
    assert_eq!(t.waypoints.len(), 18);
    assert_eq!((t.step_wait_ms, t.step_duration_ms, t.reveal_time_ms), (200, 81, 1800));
    assert_eq!(real_value(&t.waypoints[0].0), 650.0);
    assert_eq!(real_value(&t.waypoints[0].1), -100.0);
    let t4 = lookup_tween_entry(4).unwrap();
    assert_eq!(t4.reveal_time_ms, 1500);
    assert_eq!(real_value(&t4.waypoints[t4.waypoints.len() - 1].1), 102.0);
    assert!(lookup_tween_entry(5).is_none());
}
