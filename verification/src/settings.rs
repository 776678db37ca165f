//! The player's settings.
use vstd::prelude::*;
use crate::number::{Real, RealV};

verus! {

/// The player's settings.  Volumes and the auto-mode delay are numbers
/// the engine holds as `f32`.
pub struct Settings {
    pub bgm_volume: Real,
    pub se_volume: Real,
    pub voice_volume: Real,
    /// Characters revealed per second.
    pub text_speed: u32,
    pub auto_mode: bool,
    pub skip_mode: bool,
    /// Seconds before auto mode goes on.
    pub auto_delay_secs: Real,
    pub message_window_opacity: u8,
    pub window_color_idx: i32,
    pub window_design: i32,
    pub click_to_advance: bool,
}

/// Auto mode and skip mode, as `(auto, skip)`, after auto mode is set to
/// `value`.
pub open spec fn modes_after_auto(auto: bool, skip: bool, value: bool) -> (bool, bool) {
    (value, skip && !value)
}

/// Auto mode and skip mode, as `(auto, skip)`, after skip mode is set to
/// `value`.
pub open spec fn modes_after_skip(auto: bool, skip: bool, value: bool) -> (bool, bool) {
    (auto && !value, value)
}

impl Settings {
    /// Turns auto mode on or off; turning it on turns skip mode off.
    pub fn set_auto_mode(&mut self, value: bool)
        ensures
            (final(self).auto_mode, final(self).skip_mode) == modes_after_auto(old(self).auto_mode, old(self).skip_mode, value),
            final(self).text_speed == old(self).text_speed,
            final(self).auto_delay_secs == old(self).auto_delay_secs,
            final(self).message_window_opacity == old(self).message_window_opacity,
            final(self).window_color_idx == old(self).window_color_idx,
            final(self).window_design == old(self).window_design,
            final(self).click_to_advance == old(self).click_to_advance,
            final(self).bgm_volume == old(self).bgm_volume,
            final(self).se_volume == old(self).se_volume,
            final(self).voice_volume == old(self).voice_volume,
    {
        self.auto_mode = value;
        if value {
            self.skip_mode = false;
        }
    }

    /// Turns skip mode on or off; turning it on turns auto mode off.
    pub fn set_skip_mode(&mut self, value: bool)
        ensures
            (final(self).auto_mode, final(self).skip_mode) == modes_after_skip(old(self).auto_mode, old(self).skip_mode, value),
            final(self).text_speed == old(self).text_speed,
            final(self).auto_delay_secs == old(self).auto_delay_secs,
            final(self).message_window_opacity == old(self).message_window_opacity,
            final(self).window_color_idx == old(self).window_color_idx,
            final(self).window_design == old(self).window_design,
            final(self).click_to_advance == old(self).click_to_advance,
            final(self).bgm_volume == old(self).bgm_volume,
            final(self).se_volume == old(self).se_volume,
            final(self).voice_volume == old(self).voice_volume,
    {
        self.skip_mode = value;
        if value {
            self.auto_mode = false;
        }
    }
}

impl Default for Settings {
    fn default() -> (s: Settings)
        ensures
            s.bgm_volume@ == RealV::Lit("0.8"@),
            s.se_volume@ == RealV::Lit("0.8"@),
            s.voice_volume@ == RealV::Lit("1.0"@),
            s.text_speed == 40,
            !s.auto_mode,
            !s.skip_mode,
            s.auto_delay_secs@ == RealV::Lit("1.5"@),
            s.message_window_opacity == 70,
            s.window_color_idx == 0,
            s.window_design == 0,
            !s.click_to_advance,
    {
        Settings {
            bgm_volume: Real::lit("0.8"),
            se_volume: Real::lit("0.8"),
            voice_volume: Real::lit("1.0"),
            text_speed: 40,
            auto_mode: false,
            skip_mode: false,
            auto_delay_secs: Real::lit("1.5"),
            message_window_opacity: 70,
            window_color_idx: 0,
            window_design: 0,
            click_to_advance: false,
        }
    }
}

/// Auto mode and skip mode are never on together once either has been
/// set, whatever they were before; turning one off leaves the other as it
/// was.
pub proof fn law_modes_never_both_on(auto: bool, skip: bool, value: bool)
    ensures
        !(modes_after_auto(auto, skip, value).0 && modes_after_auto(auto, skip, value).1),
        !(modes_after_skip(auto, skip, value).0 && modes_after_skip(auto, skip, value).1),
        !value ==> modes_after_auto(auto, skip, value).1 == skip,
        !value ==> modes_after_skip(auto, skip, value).0 == auto,
{
}

} // verus!
