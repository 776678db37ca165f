use bevy_vn::sprites::{char_dir, parse_tween_debug_args, strip_tati_prefix, SpriteBlendMode};

#[test]
fn blend_modes_by_number_or_name() {
    assert_eq!(SpriteBlendMode::from_attr("1"), SpriteBlendMode::Add);
    assert_eq!(SpriteBlendMode::from_attr("add"), SpriteBlendMode::Add);
    assert_eq!(SpriteBlendMode::from_attr("multiply"), SpriteBlendMode::Multiply);
    assert_eq!(SpriteBlendMode::from_attr("2"), SpriteBlendMode::Multiply);
    assert_eq!(SpriteBlendMode::from_attr("screen"), SpriteBlendMode::Screen);
    assert_eq!(SpriteBlendMode::from_attr("0"), SpriteBlendMode::Normal);
    assert_eq!(SpriteBlendMode::from_attr("ADD"), SpriteBlendMode::Normal);
    assert_eq!(SpriteBlendMode::default(), SpriteBlendMode::Normal);
}

#[test]
fn tati_prefix_is_dropped_once() {
    assert_eq!(strip_tati_prefix("tati_001_eus"), "001_eus");
    assert_eq!(strip_tati_prefix("tati_tati_x"), "tati_x");
    assert_eq!(strip_tati_prefix("001_eus"), "001_eus");
}

#[test]
fn character_directories() {
    assert_eq!(char_dir("010003").as_deref(), Some("001_eus"));
    assert_eq!(char_dir("35"), Some("035_oz".to_string()));
    assert_eq!(char_dir("99x"), None);
    assert_eq!(char_dir("é1"), None);
}

#[test]
fn debug_tween_arguments() {
    let (tag, m) = parse_tween_debug_args(r#"  "fx" { "x": "10", y : 20 , , z:"a:b" } "#).unwrap();
    assert_eq!(tag, "fx");
    assert_eq!(m.len(), 3);
    assert_eq!(m.get_str("x").map(|s| s.as_str()), Some("10"));
    assert_eq!(m.get_str("y").map(|s| s.as_str()), Some("20"));
    assert_eq!(m.get_str("z").map(|s| s.as_str()), Some("a:b"));
    let (tag, m) = parse_tween_debug_args(r#""t" {  }"#).unwrap();
    assert_eq!(tag, "t");
    assert_eq!(m.len(), 0);
    assert!(parse_tween_debug_args(r#"t { a: 1 }"#).is_none());
    assert!(parse_tween_debug_args(r#""t"{ a: 1 }"#).is_none());
    assert!(parse_tween_debug_args(r#""t" { a }"#).is_none());
    assert!(parse_tween_debug_args(r#""t" { a: 1 "#).is_none());
}
