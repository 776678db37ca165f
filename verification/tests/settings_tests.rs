use bevy_vn::number::Real;
use bevy_vn::settings::Settings;

fn value(r: &Real) -> f32 {
    match r {
        Real::Lit(t) => t.parse::<f32>().unwrap(),
        Real::Hundredth(t) => t.parse::<f32>().unwrap() / 100.0,
    }
}

#[test]
fn defaults() {
    let s = Settings::default();
    assert_eq!(value(&s.bgm_volume), 0.8);
    assert_eq!(value(&s.voice_volume), 1.0);
    assert_eq!(value(&s.auto_delay_secs), 1.5);
    assert_eq!(s.text_speed, 40);
    assert_eq!(s.message_window_opacity, 70);
    assert!(!s.auto_mode && !s.skip_mode && !s.click_to_advance);
}

#[test]
fn auto_and_skip_exclude_each_other() {
    let mut s = Settings::default();
    s.set_skip_mode(true);
    assert!(s.skip_mode && !s.auto_mode);
    s.set_auto_mode(true);
    assert!(s.auto_mode && !s.skip_mode);
    s.set_skip_mode(false);
    assert!(s.auto_mode && !s.skip_mode);
    s.set_auto_mode(false);
    assert!(!s.auto_mode && !s.skip_mode);
}
