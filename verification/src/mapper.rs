//! From `.asb` commands to script commands.
//!
//! Each tag of the source engine is mapped onto zero or more commands of
//! this engine.  A tag that has no counterpart maps onto nothing
//! (`None`), which the caller may report and skip.
use vstd::prelude::*;
use std::collections::HashMap;
use crate::asb::{AsbCommand, AsbScript, AsbBlockV, AsbCommandV};
use crate::iet::{
    attr, attr_get, attrs_view, has2, i32_or, i32_or_exec, is_value, is_value_exec, opt_string, ov, real_or,
    real_or_exec, str_or, str_or_exec, u32_or, u32_or_exec, u64_opt, u64_opt_exec, u64_or, u64_or_exec,
    volume_name, volume_name_exec,
};
use crate::lua_config::GameConfig;
use crate::number::{Real, RealV, float_lit_spec, is_float_lit};
use crate::script::{
    ChoiceOption, ChoiceV, CmdV, FgPosition, OverlayColor, ScriptCmd, Transition, ValidityMode, choices_view,
    cmds_view, opt_str_view,
};
use crate::strmap::StrMap;
use crate::text::{
    chars_of, concat, contains_spec, contains_str, eq_str, find, find_spec, lemma_find_from_bound, nat_digits,
    parse_i32, parse_i32_spec, parse_u32, parse_u32_spec, parse_u8, parse_u8_spec, slice_of, split_once_spec,
    split_once_str, starts_with_spec, starts_with_str, strip_prefix_spec, strip_prefix_str, string_of, tail,
    u64_chars, views, zero_pad, zero_pad_exec,
};

verus! {

broadcast use vstd::std_specs::hash::group_hash_axioms;

// ------------------------------------------------------------------
// Small pieces
// ------------------------------------------------------------------

pub open spec fn opt_u64(o: Option<int>) -> Option<u64> {
    match o {
        Some(v) => Some(v as u64),
        None => None,
    }
}

/// A `u8` read from the value, else `d`.
pub open spec fn u8_or(o: Option<Seq<char>>, d: int) -> int {
    match o {
        Some(s) => match parse_u8_spec(s) {
            Some(v) => v,
            None => d,
        },
        None => d,
    }
}

fn u8_or_exec(o: &Option<Vec<char>>, d: u8) -> (r: u8)
    ensures
        r as int == u8_or(ov(*o), d as int),
{
    match o {
        Some(s) => match parse_u8(s) {
            Some(v) => v,
            None => d,
        },
        None => d,
    }
}

/// The transition named by the second argument of an event command.
pub open spec fn event_transition(o: Option<Seq<char>>) -> Option<Transition> {
    match o {
        Some(s) => if s == "FAST"@ || s == "1"@ || s == "FADE"@ || s == "2"@ || s == "CROSS"@ || s == "3"@ {
            Some(Transition::Fade)
        } else if s == "DISSOLVE"@ || s == "4"@ {
            Some(Transition::Dissolve)
        } else {
            None
        },
        None => None,
    }
}

/// The transition of an event command: `SUDDEN`/`0` and anything unknown
/// cut; `FAST`/`1`, `FADE`/`2` and `CROSS`/`3` fade; `DISSOLVE`/`4`
/// dissolves.
pub fn map_event_transition(attr: Option<&String>) -> (r: Option<Transition>)
    ensures
        r == event_transition(match attr { Some(s) => Some(s@), None => None }),
{
    match attr {
        Some(s) => {
            let v = chars_of(s.as_str());
            if eq_str(&v, "FAST") || eq_str(&v, "1") || eq_str(&v, "FADE") || eq_str(&v, "2") || eq_str(&v, "CROSS")
                || eq_str(&v, "3") {
                Some(Transition::Fade)
            } else if eq_str(&v, "DISSOLVE") || eq_str(&v, "4") {
                Some(Transition::Dissolve)
            } else {
                None
            }
        },
        None => None,
    }
}

fn one(c: ScriptCmd) -> (v: Vec<ScriptCmd>)
    ensures
        cmds_view(v@) == seq![c@],
{
    let mut v: Vec<ScriptCmd> = Vec::new();
    v.push(c);
    assert(cmds_view(v@) =~= seq![c@]);
    v
}

fn push_cmd(v: &mut Vec<ScriptCmd>, c: ScriptCmd)
    ensures
        cmds_view(final(v)@) == cmds_view(old(v)@).push(c@),
{
    let ghost before = cmds_view(v@);
    v.push(c);
    assert(cmds_view(v@) =~= before.push(c@));
}

/// The three commands that show an event picture: hide the window and
/// the characters, then show the picture.
pub open spec fn cg_cmds(file: Seq<char>, tr: Option<Transition>) -> Seq<CmdV> {
    seq![
        CmdV::Window { show: false, time: None },
        CmdV::HideFg { char_id: "all"@, transition: None },
        CmdV::ShowCg { file, transition: tr },
    ]
}

fn cg_cmds_exec(file: String, tr: Option<Transition>) -> (v: Vec<ScriptCmd>)
    ensures
        cmds_view(v@) == cg_cmds(file@, tr),
{
    let mut v = one(ScriptCmd::Window { show: false, time: None });
    push_cmd(&mut v, ScriptCmd::HideFg { char_id: "all".to_owned(), transition: None });
    push_cmd(&mut v, ScriptCmd::ShowCg { file, transition: tr });
    assert(cmds_view(v@) =~= cg_cmds(file@, tr));
    v
}

/// The commands that fade the screen out: cover it, wait half the time,
/// put up a plain background and uncover it.
pub open spec fn fadeout_cmds(fade_type: Seq<char>, speed: Seq<char>) -> Seq<CmdV> {
    let time: int = if speed == "FAST"@ {
        500
    } else if speed == "SLOW"@ {
        1500
    } else {
        1000
    };
    let color = if fade_type == "WHITE"@ || fade_type == "SA"@ { OverlayColor::White } else { OverlayColor::Black };
    let bg = if fade_type == "BLACK"@ { "bg_0000"@ } else { "bg_9999"@ };
    seq![
        CmdV::ScreenOverlay { color, time: time as u64 },
        CmdV::Wait { duration: (time / 2) as u64 },
        CmdV::SetBg { file: bg, transition: None, duration: None },
        CmdV::ClearOverlay { time: 0 },
    ]
}

fn fadeout_exec(fade_type: &Vec<char>, speed: &Vec<char>) -> (v: Vec<ScriptCmd>)
    ensures
        cmds_view(v@) == fadeout_cmds(fade_type@, speed@),
{
    let time: u64 = if eq_str(speed, "FAST") {
        500
    } else if eq_str(speed, "SLOW") {
        1500
    } else {
        1000
    };
    let color = if eq_str(fade_type, "WHITE") || eq_str(fade_type, "SA") {
        OverlayColor::White
    } else {
        OverlayColor::Black
    };
    let bg = if eq_str(fade_type, "BLACK") { "bg_0000" } else { "bg_9999" };
    let mut v = one(ScriptCmd::ScreenOverlay { color, time });
    push_cmd(&mut v, ScriptCmd::Wait { duration: time / 2 });
    push_cmd(&mut v, ScriptCmd::SetBg { file: bg.to_owned(), transition: None, duration: None });
    push_cmd(&mut v, ScriptCmd::ClearOverlay { time: 0 });
    assert(cmds_view(v@) =~= fadeout_cmds(fade_type@, speed@));
    v
}

/// The commands of a day change: hide the window, black out at once, fade
/// back in, wait two seconds, and fade to black again.
pub open spec fn next_day_cmds() -> Seq<CmdV> {
    seq![
        CmdV::Window { show: false, time: None },
        CmdV::ScreenOverlay { color: OverlayColor::Black, time: 0 },
        CmdV::ClearOverlay { time: 500 },
        CmdV::Wait { duration: 2000 },
        CmdV::ScreenOverlay { color: OverlayColor::Black, time: 1000 },
    ]
}

fn next_day_exec() -> (v: Vec<ScriptCmd>)
    ensures
        cmds_view(v@) == next_day_cmds(),
{
    let mut v = one(ScriptCmd::Window { show: false, time: None });
    push_cmd(&mut v, ScriptCmd::ScreenOverlay { color: OverlayColor::Black, time: 0 });
    push_cmd(&mut v, ScriptCmd::ClearOverlay { time: 500 });
    push_cmd(&mut v, ScriptCmd::Wait { duration: 2000 });
    push_cmd(&mut v, ScriptCmd::ScreenOverlay { color: OverlayColor::Black, time: 1000 });
    assert(cmds_view(v@) =~= next_day_cmds());
    v
}

pub open spec fn oov(r: Option<Option<Vec<ScriptCmd>>>) -> Option<Option<Seq<CmdV>>> {
    match r {
        Some(Some(v)) => Some(Some(cmds_view(v@))),
        Some(None) => Some(None),
        None => None,
    }
}

pub open spec fn ovv(r: Option<Vec<ScriptCmd>>) -> Option<Seq<CmdV>> {
    match r {
        Some(v) => Some(cmds_view(v@)),
        None => None,
    }
}

// ------------------------------------------------------------------
// Characters and sprites
// ------------------------------------------------------------------

/// The commands for the character and sprite tags; `None` for another tag.
pub open spec fn sprite_cmd_spec(tag: Seq<char>, a: Map<Seq<char>, Seq<char>>) -> Option<Option<Seq<CmdV>>> {
    if tag == "Wait"@ {
        Some(Some(seq![CmdV::Wait { duration: u64_or(attr(a, "0"@), 1000) as u64 }]))
    } else if tag == "Voice"@ {
        Some(match attr(a, "0"@) {
            Some(file) => Some(seq![CmdV::PlayVoice { file }]),
            None => None,
        })
    } else if tag == "Tati"@ || tag == "TatiFa"@ {
        Some(match attr(a, "0"@) {
            Some(char_id) => Some(seq![CmdV::ShowFg {
                char_id,
                expression: str_or(attr(a, "1"@), "000"@),
                position: FgPosition::Center,
                transition: None,
            }]),
            None => None,
        })
    } else if tag == "Face"@ {
        Some(Some(seq![CmdV::ShowFace {
            char_id: str_or(attr(a, "0"@), "0"@),
            expression: str_or(attr(a, "1"@), "000"@),
        }]))
    } else if tag == "ClrFace"@ {
        Some(Some(seq![CmdV::HideFace { char_id: "all"@ }]))
    } else if tag == "DrawSprite"@ {
        Some(Some(seq![CmdV::DrawSprite {
            id: str_or(attr(a, "0"@), ""@),
            file: str_or(attr(a, "1"@), ""@),
            x: real_or(attr(a, "3"@), "0.0"@),
            y: real_or(attr(a, "4"@), "0.0"@),
            z: i32_or(attr(a, "5"@), 0) as i32,
            alpha: i32_or(attr(a, "12"@), 255) as i32,
            priority: i32_or(attr(a, "13"@), 0) as i32,
            time: u64_or(attr(a, "14"@), 0) as u64,
            rotation: real_or(attr(a, "6"@), "0.0"@),
            anchor_x: real_or(attr(a, "7"@), "0.5"@),
            anchor_y: real_or(attr(a, "8"@), "0.5"@),
            blend_mode: i32_or(attr(a, "2"@), 0) as i32,
        }]))
    } else if tag == "DrawSpriteWithFiltering"@ {
        Some(Some(seq![CmdV::DrawSprite {
            id: str_or(attr(a, "0"@), ""@),
            file: str_or(attr(a, "1"@), ""@),
            x: real_or(attr(a, "4"@), "0.0"@),
            y: real_or(attr(a, "5"@), "0.0"@),
            z: 0,
            alpha: i32_or(attr(a, "9"@), 255) as i32,
            priority: i32_or(attr(a, "10"@), 0) as i32,
            time: u64_or(attr(a, "11"@), 0) as u64,
            rotation: RealV::Lit("0.0"@),
            anchor_x: RealV::Lit("0.5"@),
            anchor_y: RealV::Lit("0.5"@),
            blend_mode: 0,
        }]))
    } else if tag == "FadeSprite"@ {
        Some(Some(seq![CmdV::FadeSprite { id: str_or(attr(a, "0"@), ""@), time: u64_or(attr(a, "1"@), 500) as u64 }]))
    } else if tag == "FadeSpriteWithFiltering"@ {
        Some(Some(seq![CmdV::FadeSprite { id: str_or(attr(a, "0"@), ""@), time: u64_or(attr(a, "3"@), 500) as u64 }]))
    } else if tag == "MoveSprite"@ {
        Some(Some(seq![CmdV::MoveSprite {
            id: str_or(attr(a, "0"@), ""@),
            x: real_or(attr(a, "1"@), "0.0"@),
            y: real_or(attr(a, "2"@), "0.0"@),
            z: i32_or(attr(a, "3"@), 0) as i32,
            alpha: i32_or(attr(a, "5"@), 255) as i32,
            time: u64_or(attr(a, "8"@), 0) as u64,
            wait: is_value(attr(a, "9"@), "TRUE"@),
        }]))
    } else if tag == "AnimateSprite"@ {
        Some(Some(seq![CmdV::AnimateSprite {
            id: str_or(attr(a, "0"@), ""@),
            file: str_or(attr(a, "1"@), ""@),
            max: u32_or(attr(a, "2"@), 1) as u32,
            frame_time: u64_or(attr(a, "3"@), 200) as u64,
            style: u32_or(attr(a, "4"@), 0) as u32,
            x: real_or(attr(a, "6"@), "0.0"@),
            y: real_or(attr(a, "7"@), "0.0"@),
            z: i32_or(attr(a, "8"@), 0) as i32,
            anchor_x: real_or(attr(a, "9"@), "0.0"@),
            anchor_y: real_or(attr(a, "10"@), "0.0"@),
            rotation: real_or(attr(a, "11"@), "0.0"@),
            draw: u32_or(attr(a, "14"@), 0) as u32,
            alpha: i32_or(attr(a, "15"@), 255) as i32,
            priority: i32_or(attr(a, "16"@), 0) as i32,
            wait: is_value(attr(a, "18"@), "1"@),
        }]))
    } else if tag == "ClrTati"@ {
        Some(Some(seq![CmdV::HideFg { char_id: "all"@, transition: None }]))
    } else {
        None
    }
}

fn map_sprite_cmd(t: &Vec<char>, a: &StrMap<String>) -> (r: Option<Option<Vec<ScriptCmd>>>)
    requires
        a.wf(),
    ensures
        oov(r) == sprite_cmd_spec(t@, attrs_view(a)),
{
    proof {
        reveal_strlit("");
    }
    if eq_str(t, "Wait") {
        let duration = u64_or_exec(&attr_get(a, "0"), 1000);
        return Some(Some(one(ScriptCmd::Wait { duration })));
    }
    if eq_str(t, "Voice") {
        return Some(
            match attr_get(a, "0") {
                Some(file) => Some(one(ScriptCmd::PlayVoice { file: string_of(&file) })),
                None => None,
            },
        );
    }
    if eq_str(t, "Tati") || eq_str(t, "TatiFa") {
        return Some(
            match attr_get(a, "0") {
                Some(char_id) => {
                    let expression = str_or_exec(&attr_get(a, "1"), "000");
                    Some(one(ScriptCmd::ShowFg {
                        char_id: string_of(&char_id),
                        expression,
                        position: FgPosition::Center,
                        transition: None,
                    }))
                },
                None => None,
            },
        );
    }
    if eq_str(t, "Face") {
        let char_id = str_or_exec(&attr_get(a, "0"), "0");
        let expression = str_or_exec(&attr_get(a, "1"), "000");
        return Some(Some(one(ScriptCmd::ShowFace { char_id, expression })));
    }
    if eq_str(t, "ClrFace") {
        return Some(Some(one(ScriptCmd::HideFace { char_id: "all".to_owned() })));
    }
    if eq_str(t, "DrawSprite") {
        let id = str_or_exec(&attr_get(a, "0"), "");
        let file = str_or_exec(&attr_get(a, "1"), "");
        let x = real_or_exec(&attr_get(a, "3"), "0.0");
        let y = real_or_exec(&attr_get(a, "4"), "0.0");
        let z = i32_or_exec(&attr_get(a, "5"), 0);
        let alpha = i32_or_exec(&attr_get(a, "12"), 255);
        let priority = i32_or_exec(&attr_get(a, "13"), 0);
        let time = u64_or_exec(&attr_get(a, "14"), 0);
        let rotation = real_or_exec(&attr_get(a, "6"), "0.0");
        let anchor_x = real_or_exec(&attr_get(a, "7"), "0.5");
        let anchor_y = real_or_exec(&attr_get(a, "8"), "0.5");
        let blend_mode = i32_or_exec(&attr_get(a, "2"), 0);
        return Some(Some(one(ScriptCmd::DrawSprite {
            id,
            file,
            x,
            y,
            z,
            alpha,
            priority,
            time,
            rotation,
            anchor_x,
            anchor_y,
            blend_mode,
        })));
    }
    if eq_str(t, "DrawSpriteWithFiltering") {
        let id = str_or_exec(&attr_get(a, "0"), "");
        let file = str_or_exec(&attr_get(a, "1"), "");
        let x = real_or_exec(&attr_get(a, "4"), "0.0");
        let y = real_or_exec(&attr_get(a, "5"), "0.0");
        let alpha = i32_or_exec(&attr_get(a, "9"), 255);
        let priority = i32_or_exec(&attr_get(a, "10"), 0);
        let time = u64_or_exec(&attr_get(a, "11"), 0);
        return Some(Some(one(ScriptCmd::DrawSprite {
            id,
            file,
            x,
            y,
            z: 0,
            alpha,
            priority,
            time,
            rotation: Real::lit("0.0"),
            anchor_x: Real::lit("0.5"),
            anchor_y: Real::lit("0.5"),
            blend_mode: 0,
        })));
    }
    if eq_str(t, "FadeSprite") {
        let id = str_or_exec(&attr_get(a, "0"), "");
        let time = u64_or_exec(&attr_get(a, "1"), 500);
        return Some(Some(one(ScriptCmd::FadeSprite { id, time })));
    }
    if eq_str(t, "FadeSpriteWithFiltering") {
        let id = str_or_exec(&attr_get(a, "0"), "");
        let time = u64_or_exec(&attr_get(a, "3"), 500);
        return Some(Some(one(ScriptCmd::FadeSprite { id, time })));
    }
    if eq_str(t, "MoveSprite") {
        let id = str_or_exec(&attr_get(a, "0"), "");
        let x = real_or_exec(&attr_get(a, "1"), "0.0");
        let y = real_or_exec(&attr_get(a, "2"), "0.0");
        let z = i32_or_exec(&attr_get(a, "3"), 0);
        let alpha = i32_or_exec(&attr_get(a, "5"), 255);
        let time = u64_or_exec(&attr_get(a, "8"), 0);
        let wait = is_value_exec(&attr_get(a, "9"), "TRUE");
        return Some(Some(one(ScriptCmd::MoveSprite { id, x, y, z, alpha, time, wait })));
    }
    if eq_str(t, "AnimateSprite") {
        let id = str_or_exec(&attr_get(a, "0"), "");
        let file = str_or_exec(&attr_get(a, "1"), "");
        let max = u32_or_exec(&attr_get(a, "2"), 1);
        let frame_time = u64_or_exec(&attr_get(a, "3"), 200);
        let style = u32_or_exec(&attr_get(a, "4"), 0);
        let x = real_or_exec(&attr_get(a, "6"), "0.0");
        let y = real_or_exec(&attr_get(a, "7"), "0.0");
        let z = i32_or_exec(&attr_get(a, "8"), 0);
        let anchor_x = real_or_exec(&attr_get(a, "9"), "0.0");
        let anchor_y = real_or_exec(&attr_get(a, "10"), "0.0");
        let rotation = real_or_exec(&attr_get(a, "11"), "0.0");
        let draw = u32_or_exec(&attr_get(a, "14"), 0);
        let alpha = i32_or_exec(&attr_get(a, "15"), 255);
        let priority = i32_or_exec(&attr_get(a, "16"), 0);
        let wait = is_value_exec(&attr_get(a, "18"), "1");
        return Some(Some(one(ScriptCmd::AnimateSprite {
            id,
            file,
            max,
            frame_time,
            style,
            x,
            y,
            z,
            anchor_x,
            anchor_y,
            rotation,
            draw,
            alpha,
            priority,
            wait,
        })));
    }
    if eq_str(t, "ClrTati") {
        return Some(Some(one(ScriptCmd::HideFg { char_id: "all".to_owned(), transition: None })));
    }
    None
}

// ------------------------------------------------------------------
// `calllua`
// ------------------------------------------------------------------

/// The commands for a `calllua` command, by the function it names; the
/// function names are tried in a fixed order, each by substring.
pub open spec fn calllua_spec(a: Map<Seq<char>, Seq<char>>) -> Option<Seq<CmdV>> {
    match attr(a, "function"@) {
        None => None,
        Some(f) => if has2(f, "set_bg"@, "setbg"@) {
            match attr(a, "file"@) {
                Some(file) => Some(seq![CmdV::SetBg { file, transition: None, duration: None }]),
                None => None,
            }
        } else if has2(f, "ScrollBGenq"@, "scroll_bg"@) {
            Some(seq![CmdV::ScrollBg {
                file: match attr(a, "file"@) {
                    Some(v) => v,
                    None => str_or(attr(a, "0"@), ""@),
                },
                x1: real_or(attr(a, "1"@), "0.0"@),
                y1: real_or(attr(a, "2"@), "0.0"@),
                x2: real_or(attr(a, "4"@), "0.0"@),
                y2: real_or(attr(a, "5"@), "0.0"@),
                fade: u64_or(attr(a, "9"@), 0) as u64,
                wait: is_value(attr(a, "10"@), "TRUE"@),
            }])
        } else if has2(f, "ChangeVolumeOfBGM"@, "bgm_fade"@) {
            Some(seq![CmdV::BgmVol {
                channel: u32_or(attr(a, "0"@), 0) as u32,
                volume: volume_name(u32_or(attr(a, "1"@), 80)),
            }])
        } else if contains_spec(f, "bgm_play"@) {
            match attr(a, "file"@) {
                Some(id) => Some(seq![CmdV::PlayBgm {
                    id,
                    volume: match attr(a, "vol"@) {
                        Some(v) => if float_lit_spec(v) { Some(RealV::Hundredth(v)) } else { None },
                        None => None,
                    },
                    fade_in: opt_u64(u64_opt(attr(a, "time"@))),
                }]),
                None => None,
            }
        } else if contains_spec(f, "bgm_stop"@) {
            Some(seq![CmdV::StopBgm { id: attr(a, "file"@), fade_out: opt_u64(u64_opt(attr(a, "time"@))) }])
        } else if contains_spec(f, "se_play"@) {
            match attr(a, "file"@) {
                Some(file) => if u32_or(attr(a, "loop"@), 0) != 0 {
                    Some(seq![CmdV::LoopSe { file, volume: None, channel: u32_or(attr(a, "id"@), 0) as u32 }])
                } else {
                    Some(seq![CmdV::PlaySe { file, volume: None }])
                },
                None => None,
            }
        } else if contains_spec(f, "se_stop"@) {
            Some(seq![CmdV::StopStreamingSe { channel: u32_or(attr(a, "id"@), 0) as u32 }])
        } else if contains_spec(f, "voice_play"@) {
            match attr(a, "file"@) {
                Some(file) => Some(seq![CmdV::PlayVoice { file }]),
                None => None,
            }
        } else if has2(f, "show_fg"@, "fg_show"@) {
            match attr(a, "id"@) {
                Some(char_id) => Some(seq![CmdV::ShowFg {
                    char_id,
                    expression: str_or(attr(a, "file"@), "000"@),
                    position: FgPosition::Center,
                    transition: None,
                }]),
                None => None,
            }
        } else if has2(f, "hide_fg"@, "fg_hide"@) {
            Some(seq![CmdV::HideFg { char_id: str_or(attr(a, "id"@), "all"@), transition: None }])
        } else if has2(f, "show_cg"@, "cg_show"@) {
            match attr(a, "file"@) {
                Some(file) => Some(seq![CmdV::ShowCg { file, transition: None }]),
                None => None,
            }
        } else if has2(f, "hide_cg"@, "cg_hide"@) {
            Some(seq![CmdV::HideCg { transition: None }])
        } else if has2(f, "affection_change"@, "affection"@) {
            Some(seq![CmdV::AffectionChange {
                char_id: str_or(attr(a, "char_id"@), "default"@),
                delta: i32_or(attr(a, "delta"@), 1) as i32,
            }])
        } else if has2(f, "choice"@, "tags.choice"@) {
            Some(seq![CmdV::Choice { options: seq![ChoiceV {
                text: "[choice in "@ + f + "]"@,
                affection_change: None,
                goto: None,
            }] }])
        } else if has2(f, "save_point"@, "quicksave"@) {
            Some(seq![CmdV::SavePoint])
        } else if has2(f, "wait_tag"@, "tags.wt"@) || contains_spec(f, "tags.wtx"@) {
            Some(seq![CmdV::Wait { duration: u64_or(attr(a, "time"@), 500) as u64 }])
        } else if has2(f, "unlock_cg"@, "cg_unlock"@) {
            Some(seq![CmdV::UnlockCg { file: str_or(attr(a, "file"@), "unknown"@) }])
        } else {
            None
        }
    }
}

fn has2_exec(f: &Vec<char>, a: &str, b: &str) -> (r: bool)
    ensures
        r == has2(f@, a@, b@),
{
    contains_str(f, a) || contains_str(f, b)
}

/// The commands for a `calllua` command.
pub fn map_calllua(cmd: &AsbCommand, _config: &GameConfig) -> (r: Option<Vec<ScriptCmd>>)
    requires
        cmd.wf(),
    ensures
        ovv(r) == calllua_spec(attrs_view(&cmd.attrs)),
{
    let a = &cmd.attrs;
    let f = match attr_get(a, "function") {
        Some(f) => f,
        None => return None,
    };
    if has2_exec(&f, "set_bg", "setbg") {
        return match attr_get(a, "file") {
            Some(file) => Some(one(ScriptCmd::SetBg { file: string_of(&file), transition: None, duration: None })),
            None => None,
        };
    }
    if has2_exec(&f, "ScrollBGenq", "scroll_bg") {
        let file = match attr_get(a, "file") {
            Some(v) => string_of(&v),
            None => str_or_exec(&attr_get(a, "0"), ""),
        };
        proof {
            reveal_strlit("");
        }
        let x1 = real_or_exec(&attr_get(a, "1"), "0.0");
        let y1 = real_or_exec(&attr_get(a, "2"), "0.0");
        let x2 = real_or_exec(&attr_get(a, "4"), "0.0");
        let y2 = real_or_exec(&attr_get(a, "5"), "0.0");
        let fade = u64_or_exec(&attr_get(a, "9"), 0);
        let wait = is_value_exec(&attr_get(a, "10"), "TRUE");
        return Some(one(ScriptCmd::ScrollBg { file, x1, y1, x2, y2, fade, wait }));
    }
    if has2_exec(&f, "ChangeVolumeOfBGM", "bgm_fade") {
        let channel = u32_or_exec(&attr_get(a, "0"), 0);
        let volume = volume_name_exec(u32_or_exec(&attr_get(a, "1"), 80));
        return Some(one(ScriptCmd::BgmVol { channel, volume }));
    }
    if contains_str(&f, "bgm_play") {
        return match attr_get(a, "file") {
            Some(id) => {
                let vol = attr_get(a, "vol");
                let volume = match &vol {
                    Some(v) => if is_float_lit(v) { Some(Real::Hundredth(string_of(v))) } else { None },
                    None => None,
                };
                let fade_in = u64_opt_exec(&attr_get(a, "time"));
                Some(one(ScriptCmd::PlayBgm { id: string_of(&id), volume, fade_in }))
            },
            None => None,
        };
    }
    if contains_str(&f, "bgm_stop") {
        let id = opt_string(&attr_get(a, "file"));
        let fade_out = u64_opt_exec(&attr_get(a, "time"));
        return Some(one(ScriptCmd::StopBgm { id, fade_out }));
    }
    if contains_str(&f, "se_play") {
        return match attr_get(a, "file") {
            Some(file) => {
                if u32_or_exec(&attr_get(a, "loop"), 0) != 0 {
                    let channel = u32_or_exec(&attr_get(a, "id"), 0);
                    Some(one(ScriptCmd::LoopSe { file: string_of(&file), volume: None, channel }))
                } else {
                    Some(one(ScriptCmd::PlaySe { file: string_of(&file), volume: None }))
                }
            },
            None => None,
        };
    }
    if contains_str(&f, "se_stop") {
        let channel = u32_or_exec(&attr_get(a, "id"), 0);
        return Some(one(ScriptCmd::StopStreamingSe { channel }));
    }
    if contains_str(&f, "voice_play") {
        return match attr_get(a, "file") {
            Some(file) => Some(one(ScriptCmd::PlayVoice { file: string_of(&file) })),
            None => None,
        };
    }
    if has2_exec(&f, "show_fg", "fg_show") {
        return match attr_get(a, "id") {
            Some(char_id) => {
                let expression = str_or_exec(&attr_get(a, "file"), "000");
                Some(one(ScriptCmd::ShowFg {
                    char_id: string_of(&char_id),
                    expression,
                    position: FgPosition::Center,
                    transition: None,
                }))
            },
            None => None,
        };
    }
    if has2_exec(&f, "hide_fg", "fg_hide") {
        let char_id = str_or_exec(&attr_get(a, "id"), "all");
        return Some(one(ScriptCmd::HideFg { char_id, transition: None }));
    }
    if has2_exec(&f, "show_cg", "cg_show") {
        return match attr_get(a, "file") {
            Some(file) => Some(one(ScriptCmd::ShowCg { file: string_of(&file), transition: None })),
            None => None,
        };
    }
    if has2_exec(&f, "hide_cg", "cg_hide") {
        return Some(one(ScriptCmd::HideCg { transition: None }));
    }
    if has2_exec(&f, "affection_change", "affection") {
        let char_id = str_or_exec(&attr_get(a, "char_id"), "default");
        let delta = i32_or_exec(&attr_get(a, "delta"), 1);
        return Some(one(ScriptCmd::AffectionChange { char_id, delta }));
    }
    if has2_exec(&f, "choice", "tags.choice") {
        let text = concat(&concat(&chars_of("[choice in "), &f), &chars_of("]"));
        let opt = ChoiceOption { text: string_of(&text), affection_change: None, goto: None };
        let mut options: Vec<ChoiceOption> = Vec::new();
        options.push(opt);
        let c = ScriptCmd::Choice { options };
        assert(choices_view(options@) =~= seq![ChoiceV {
            text: "[choice in "@ + f@ + "]"@,
            affection_change: None,
            goto: None,
        }]);
        return Some(one(c));
    }
    if has2_exec(&f, "save_point", "quicksave") {
        return Some(one(ScriptCmd::SavePoint));
    }
    if has2_exec(&f, "wait_tag", "tags.wt") || contains_str(&f, "tags.wtx") {
        let duration = u64_or_exec(&attr_get(a, "time"), 500);
        return Some(one(ScriptCmd::Wait { duration }));
    }
    if has2_exec(&f, "unlock_cg", "cg_unlock") {
        let file = str_or_exec(&attr_get(a, "file"), "unknown");
        return Some(one(ScriptCmd::UnlockCg { file }));
    }
    None
}

// ------------------------------------------------------------------
// Audio, scripts and the screen
// ------------------------------------------------------------------

/// `aiy` and the number, zero-padded to five digits: the name of a script.
pub open spec fn script_name(n: int) -> Seq<char> {
    "aiy"@ + zero_pad(nat_digits(n as nat), 5)
}

/// The commands for the audio and script tags; `None` for another tag.
pub open spec fn audio_cmd_spec(tag: Seq<char>, a: Map<Seq<char>, Seq<char>>) -> Option<Option<Seq<CmdV>>> {
    if tag == "Back"@ {
        Some(match attr(a, "0"@) {
            Some(num) => Some(seq![CmdV::SetBg { file: "bg_"@ + num + ".jpg"@, transition: None, duration: None }]),
            None => None,
        })
    } else if tag == "BgmPlay"@ {
        Some(match attr(a, "1"@) {
            Some(id) => Some(seq![CmdV::PlayBgm {
                id,
                volume: if is_value(attr(a, "2"@), "MIN"@) { Some(RealV::Lit("0.5"@)) } else { None },
                fade_in: None,
            }]),
            None => None,
        })
    } else if tag == "BgmStop"@ {
        Some(Some(seq![CmdV::StopBgm {
            id: None,
            fade_out: Some(if is_value(attr(a, "1"@), "FADE"@) { 500u64 } else { 0u64 }),
        }]))
    } else if tag == "BgmVol"@ {
        Some(Some(seq![CmdV::BgmVol {
            channel: u32_or(attr(a, "0"@), 0) as u32,
            volume: str_or(attr(a, "1"@), "HIGH"@),
        }]))
    } else if tag == "SEPlay"@ {
        Some(match attr(a, "0"@) {
            Some(file) => Some(seq![CmdV::PlaySe { file, volume: None }]),
            None => None,
        })
    } else if tag == "LoopSE"@ {
        Some(match attr(a, "1"@) {
            Some(file) => Some(seq![CmdV::LoopSe { file, volume: None, channel: u32_or(attr(a, "0"@), 0) as u32 }]),
            None => None,
        })
    } else if tag == "StopStreamingSE"@ {
        Some(Some(seq![CmdV::StopStreamingSe { channel: u32_or(attr(a, "0"@), 0) as u32 }]))
    } else if tag == "FadeFilm"@ {
        Some(Some(seq![CmdV::ClearOverlay { time: u64_or(attr(a, "0"@), 500) as u64 }]))
    } else if tag == "msgon"@ {
        Some(Some(seq![CmdV::Window { show: true, time: None }]))
    } else if tag == "SetJumpLabel"@ {
        Some(None)
    } else if tag == "return_main"@ {
        Some(Some(seq![CmdV::Return]))
    } else if tag == "CallScript"@ {
        Some(match attr(a, "0"@) {
            Some(target) => match parse_u32_spec(target) {
                Some(n) => Some(seq![CmdV::CallScript {
                    script: script_name(n),
                    label: match attr(a, "1"@) {
                        Some(l) => if l.len() > 0 { Some(l) } else { None },
                        None => None,
                    },
                }]),
                None => None,
            },
            None => None,
        })
    } else if tag == "calllua"@ {
        Some(calllua_spec(a))
    } else {
        None
    }
}

fn map_audio_cmd(t: &Vec<char>, cmd: &AsbCommand, config: &GameConfig) -> (r: Option<Option<Vec<ScriptCmd>>>)
    requires
        cmd.wf(),
    ensures
        oov(r) == audio_cmd_spec(t@, attrs_view(&cmd.attrs)),
{
    let a = &cmd.attrs;
    if eq_str(t, "Back") {
        return Some(
            match attr_get(a, "0") {
                Some(num) => {
                    let file = concat(&concat(&chars_of("bg_"), &num), &chars_of(".jpg"));
                    Some(one(ScriptCmd::SetBg { file: string_of(&file), transition: None, duration: None }))
                },
                None => None,
            },
        );
    }
    if eq_str(t, "BgmPlay") {
        return Some(
            match attr_get(a, "1") {
                Some(id) => {
                    let volume = if is_value_exec(&attr_get(a, "2"), "MIN") { Some(Real::lit("0.5")) } else { None };
                    Some(one(ScriptCmd::PlayBgm { id: string_of(&id), volume, fade_in: None }))
                },
                None => None,
            },
        );
    }
    if eq_str(t, "BgmStop") {
        let fade_out = if is_value_exec(&attr_get(a, "1"), "FADE") { 500u64 } else { 0u64 };
        return Some(Some(one(ScriptCmd::StopBgm { id: None, fade_out: Some(fade_out) })));
    }
    if eq_str(t, "BgmVol") {
        let channel = u32_or_exec(&attr_get(a, "0"), 0);
        let volume = str_or_exec(&attr_get(a, "1"), "HIGH");
        return Some(Some(one(ScriptCmd::BgmVol { channel, volume })));
    }
    if eq_str(t, "SEPlay") {
        return Some(
            match attr_get(a, "0") {
                Some(file) => Some(one(ScriptCmd::PlaySe { file: string_of(&file), volume: None })),
                None => None,
            },
        );
    }
    if eq_str(t, "LoopSE") {
        let channel = u32_or_exec(&attr_get(a, "0"), 0);
        return Some(
            match attr_get(a, "1") {
                Some(file) => Some(one(ScriptCmd::LoopSe { file: string_of(&file), volume: None, channel })),
                None => None,
            },
        );
    }
    if eq_str(t, "StopStreamingSE") {
        let channel = u32_or_exec(&attr_get(a, "0"), 0);
        return Some(Some(one(ScriptCmd::StopStreamingSe { channel })));
    }
    if eq_str(t, "FadeFilm") {
        let time = u64_or_exec(&attr_get(a, "0"), 500);
        return Some(Some(one(ScriptCmd::ClearOverlay { time })));
    }
    if eq_str(t, "msgon") {
        return Some(Some(one(ScriptCmd::Window { show: true, time: None })));
    }
    if eq_str(t, "SetJumpLabel") {
        return Some(None);
    }
    if eq_str(t, "return_main") {
        return Some(Some(one(ScriptCmd::Return)));
    }
    if eq_str(t, "CallScript") {
        return Some(
            match attr_get(a, "0") {
                Some(target) => match parse_u32(&target) {
                    Some(n) => {
                        let label = match attr_get(a, "1") {
                            Some(l) => if l.len() > 0 { Some(string_of(&l)) } else { None },
                            None => None,
                        };
                        let script = concat(&chars_of("aiy"), &zero_pad_exec(&u64_chars(n as u64), 5));
                        Some(one(ScriptCmd::CallScript { script: string_of(&script), label }))
                    },
                    None => None,
                },
                None => None,
            },
        );
    }
    if eq_str(t, "calllua") {
        return Some(map_calllua(cmd, config));
    }
    None
}

/// The value of attribute `k`, or nothing where it is absent.
pub open spec fn attr_text(a: Map<Seq<char>, Seq<char>>, k: Seq<char>) -> Seq<char> {
    if a.dom().contains(k) { a[k] } else { Seq::empty() }
}

proof fn lemma_event_tag_not_sprite(t: Seq<char>, a: Map<Seq<char>, Seq<char>>)
    requires
        t == "Event"@ || t == "EventMN"@ || t == "EventCut"@,
    ensures
        sprite_cmd_spec(t, a) is None,
{
    reveal_strlit("AnimateSprite");
    assert("AnimateSprite"@.len() == 13);
    reveal_strlit("ClrFace");
    assert("ClrFace"@.len() == 7);
    reveal_strlit("ClrTati");
    assert("ClrTati"@.len() == 7);
    reveal_strlit("DrawSprite");
    assert("DrawSprite"@.len() == 10);
    reveal_strlit("DrawSpriteWithFiltering");
    assert("DrawSpriteWithFiltering"@.len() == 23);
    reveal_strlit("Face");
    assert("Face"@.len() == 4);
    reveal_strlit("FadeSprite");
    assert("FadeSprite"@.len() == 10);
    reveal_strlit("FadeSpriteWithFiltering");
    assert("FadeSpriteWithFiltering"@.len() == 23);
    reveal_strlit("MoveSprite");
    assert("MoveSprite"@.len() == 10);
    reveal_strlit("Tati");
    assert("Tati"@.len() == 4);
    reveal_strlit("TatiFa");
    assert("TatiFa"@.len() == 6);
    reveal_strlit("Voice");
    assert("Voice"@.len() == 5);
    reveal_strlit("Wait");
    assert("Wait"@.len() == 4);
    reveal_strlit("Event");
    assert("Event"@.len() == 5);
    reveal_strlit("EventMN");
    assert("EventMN"@.len() == 7);
    reveal_strlit("EventCut");
    assert("EventCut"@.len() == 8);
    assert("Voice"@[0] != "Event"@[0]);
    assert("ClrFace"@[0] != "EventMN"@[0]);
    assert("ClrTati"@[0] != "EventMN"@[0]);
}

proof fn lemma_event_tag_not_audio(t: Seq<char>, a: Map<Seq<char>, Seq<char>>)
    requires
        t == "Event"@ || t == "EventMN"@ || t == "EventCut"@,
    ensures
        audio_cmd_spec(t, a) is None,
{
    reveal_strlit("Back");
    assert("Back"@.len() == 4);
    reveal_strlit("BgmPlay");
    assert("BgmPlay"@.len() == 7);
    reveal_strlit("BgmStop");
    assert("BgmStop"@.len() == 7);
    reveal_strlit("BgmVol");
    assert("BgmVol"@.len() == 6);
    reveal_strlit("CallScript");
    assert("CallScript"@.len() == 10);
    reveal_strlit("FadeFilm");
    assert("FadeFilm"@.len() == 8);
    reveal_strlit("LoopSE");
    assert("LoopSE"@.len() == 6);
    reveal_strlit("SEPlay");
    assert("SEPlay"@.len() == 6);
    reveal_strlit("SetJumpLabel");
    assert("SetJumpLabel"@.len() == 12);
    reveal_strlit("StopStreamingSE");
    assert("StopStreamingSE"@.len() == 15);
    reveal_strlit("calllua");
    assert("calllua"@.len() == 7);
    reveal_strlit("msgon");
    assert("msgon"@.len() == 5);
    reveal_strlit("return_main");
    assert("return_main"@.len() == 11);
    reveal_strlit("Event");
    assert("Event"@.len() == 5);
    reveal_strlit("EventMN");
    assert("EventMN"@.len() == 7);
    reveal_strlit("EventCut");
    assert("EventCut"@.len() == 8);
    assert("msgon"@[0] != "Event"@[0]);
    assert("BgmPlay"@[0] != "EventMN"@[0]);
    assert("BgmStop"@[0] != "EventMN"@[0]);
    assert("calllua"@[0] != "EventMN"@[0]);
    assert("FadeFilm"@[0] != "EventCut"@[0]);
}

proof fn lemma_event_tag_screen(t: Seq<char>, a: Map<Seq<char>, Seq<char>>)
    requires
        t == "Event"@ || t == "EventMN"@ || t == "EventCut"@,
    ensures
        t == "Event"@ ==> screen_cmd_spec(t, a) == Some(Some(cg_cmds("eve_"@ + str_or(attr(a, "0"@), ""@), event_transition(attr(a, "1"@))))),
        t == "EventMN"@ ==> screen_cmd_spec(t, a) == Some(Some(cg_cmds("mon_"@ + str_or(attr(a, "0"@), ""@), event_transition(attr(a, "1"@))))),
        t == "EventCut"@ ==> screen_cmd_spec(t, a) == Some(Some(cg_cmds("cut_"@ + str_or(attr(a, "0"@), ""@), event_transition(attr(a, "1"@))))),
{
    reveal_strlit("Fadeout");
    assert("Fadeout"@.len() == 7);
    reveal_strlit("Blackout");
    assert("Blackout"@.len() == 8);
    reveal_strlit("WhiteoutBySA");
    assert("WhiteoutBySA"@.len() == 12);
    reveal_strlit("Window");
    assert("Window"@.len() == 6);
    reveal_strlit("DisableWindow");
    assert("DisableWindow"@.len() == 13);
    reveal_strlit("EnableWindow");
    assert("EnableWindow"@.len() == 12);
    reveal_strlit("ChangeWindowColor");
    assert("ChangeWindowColor"@.len() == 17);
    reveal_strlit("ChangeWindowDesign");
    assert("ChangeWindowDesign"@.len() == 18);
    reveal_strlit("Quake");
    assert("Quake"@.len() == 5);
    reveal_strlit("Jishin");
    assert("Jishin"@.len() == 6);
    reveal_strlit("Flash");
    assert("Flash"@.len() == 5);
    reveal_strlit("View");
    assert("View"@.len() == 4);
    reveal_strlit("ViewEnd");
    assert("ViewEnd"@.len() == 7);
    reveal_strlit("Event");
    assert("Event"@.len() == 5);
    reveal_strlit("EventMN");
    assert("EventMN"@.len() == 7);
    reveal_strlit("EventCut");
    assert("EventCut"@.len() == 8);
    assert("Quake"@[0] != "Event"@[0]);
    assert("Flash"@[0] != "Event"@[0]);
    assert("Fadeout"@[0] != "EventMN"@[0]);
    assert("ViewEnd"@[0] != "EventMN"@[0]);
    assert("Blackout"@[0] != "EventCut"@[0]);
}

/// An event command shows the event picture that its attribute `0` names:
/// it hides the message window and the sprites, then shows the CG
/// `eve_<name>` (`mon_<name>` for `EventMN`, `cut_<name>` for `EventCut`).
pub proof fn law_event_shows_its_picture(a: Map<Seq<char>, Seq<char>>)
    ensures
        ({
            let name = attr_text(a, "0"@);
            &&& command_spec("Event"@, a) matches Some(out) && out.len() == 3
                && out[0] == (CmdV::Window { show: false, time: None })
                && out[1] == (CmdV::HideFg { char_id: "all"@, transition: None })
                && out[2] is ShowCg && out[2]->ShowCg_file == "eve_"@ + name
            &&& command_spec("EventMN"@, a) matches Some(out) && out.len() == 3
                && out[2] is ShowCg && out[2]->ShowCg_file == "mon_"@ + name
            &&& command_spec("EventCut"@, a) matches Some(out) && out.len() == 3
                && out[2] is ShowCg && out[2]->ShowCg_file == "cut_"@ + name
            &&& command_spec("Event"@, a) matches Some(out) && out.len() == 3 && {
                let tr = out[2]->ShowCg_transition;
                &&& !a.dom().contains("1"@) ==> tr is None
                &&& a.dom().contains("1"@) && a["1"@] == "FADE"@ ==> tr == Some(Transition::Fade)
                &&& a.dom().contains("1"@) && a["1"@] == "DISSOLVE"@ ==> tr == Some(Transition::Dissolve)
                &&& a.dom().contains("1"@) && a["1"@] == "SUDDEN"@ ==> tr is None
            }
        }),
{
    reveal_strlit("1");
    reveal_strlit("FAST");
    reveal_strlit("FADE");
    reveal_strlit("2");
    reveal_strlit("CROSS");
    reveal_strlit("3");
    reveal_strlit("DISSOLVE");
    reveal_strlit("4");
    reveal_strlit("SUDDEN");
    assert("FAST"@[2] != "FADE"@[2]);
    assert("SUDDEN"@.len() == 6 && "FAST"@.len() == 4 && "FADE"@.len() == 4 && "CROSS"@.len() == 5);
    assert("DISSOLVE"@.len() == 8 && "1"@.len() == 1 && "2"@.len() == 1 && "3"@.len() == 1 && "4"@.len() == 1);
    reveal_strlit("0");
    reveal_strlit("");
    assert(str_or(attr(a, "0"@), ""@) == attr_text(a, "0"@));
    lemma_event_tag_not_sprite("Event"@, a);
    lemma_event_tag_not_audio("Event"@, a);
    lemma_event_tag_screen("Event"@, a);
    lemma_event_tag_not_sprite("EventMN"@, a);
    lemma_event_tag_not_audio("EventMN"@, a);
    lemma_event_tag_screen("EventMN"@, a);
    lemma_event_tag_not_sprite("EventCut"@, a);
    lemma_event_tag_not_audio("EventCut"@, a);
    lemma_event_tag_screen("EventCut"@, a);
}

/// The commands for the screen tags; `None` for another tag.
pub open spec fn screen_cmd_spec(tag: Seq<char>, a: Map<Seq<char>, Seq<char>>) -> Option<Option<Seq<CmdV>>> {
    if tag == "Fadeout"@ {
        Some(Some(fadeout_cmds(str_or(attr(a, "0"@), "BLACK"@), str_or(attr(a, "1"@), "NORMAL"@))))
    } else if tag == "Blackout"@ {
        Some(Some(seq![CmdV::ScreenOverlay { color: OverlayColor::Black, time: u64_or(attr(a, "0"@), 1000) as u64 }]))
    } else if tag == "WhiteoutBySA"@ {
        Some(Some(seq![CmdV::ScreenOverlay { color: OverlayColor::White, time: u64_or(attr(a, "0"@), 1000) as u64 }]))
    } else if tag == "Window"@ {
        Some(Some(seq![CmdV::Window { show: !is_value(attr(a, "0"@), "OFF"@), time: None }]))
    } else if tag == "DisableWindow"@ {
        Some(Some(seq![CmdV::Window { show: false, time: opt_u64(u64_opt(attr(a, "0"@))) }]))
    } else if tag == "EnableWindow"@ {
        Some(Some(seq![CmdV::Window { show: true, time: opt_u64(u64_opt(attr(a, "0"@))) }]))
    } else if tag == "ChangeWindowColor"@ {
        Some(Some(seq![CmdV::ChangeWindowColor { color_idx: i32_or(attr(a, "0"@), 0) as i32 }]))
    } else if tag == "ChangeWindowDesign"@ {
        Some(Some(seq![CmdV::ChangeWindowDesign { design: i32_or(attr(a, "0"@), 0) as i32 }]))
    } else if tag == "Quake"@ || tag == "Jishin"@ {
        Some(Some(seq![CmdV::Quake { power: real_or(attr(a, "0"@), "5.0"@), time: u64_or(attr(a, "1"@), 500) as u64 }]))
    } else if tag == "Flash"@ {
        Some(Some(seq![CmdV::Flash {
            color: if u32_or(attr(a, "0"@), 0) == 0 { OverlayColor::White } else { OverlayColor::Black },
            time: u64_or(attr(a, "1"@), 500) as u64,
            alpha: u8_or(attr(a, "2"@), 128) as u8,
        }]))
    } else if tag == "View"@ {
        Some(Some(seq![CmdV::View { char_id: str_or(attr(a, "0"@), ""@) }]))
    } else if tag == "ViewEnd"@ {
        Some(Some(seq![CmdV::View { char_id: "ViewEnd"@ }]))
    } else if tag == "Event"@ {
        Some(Some(cg_cmds("eve_"@ + str_or(attr(a, "0"@), ""@), event_transition(attr(a, "1"@)))))
    } else if tag == "EventMN"@ {
        Some(Some(cg_cmds("mon_"@ + str_or(attr(a, "0"@), ""@), event_transition(attr(a, "1"@)))))
    } else if tag == "EventCut"@ {
        Some(Some(cg_cmds("cut_"@ + str_or(attr(a, "0"@), ""@), event_transition(attr(a, "1"@)))))
    } else if tag == "DrawScene"@ {
        Some(Some(cg_cmds(str_or(attr(a, "2"@), ""@) + str_or(attr(a, "0"@), ""@), event_transition(attr(a, "1"@)))))
    } else {
        None
    }
}

fn transition_of(a: &StrMap<String>) -> (r: Option<Transition>)
    requires
        a.wf(),
    ensures
        r == event_transition(attr(attrs_view(a), "1"@)),
{
    let s = a.get_str("1");
    map_event_transition(s)
}

fn prefixed(prefix: &str, v: String) -> (r: String)
    ensures
        r@ == prefix@ + v@,
{
    string_of(&concat(&chars_of(prefix), &chars_of(v.as_str())))
}

fn map_screen_cmd(t: &Vec<char>, a: &StrMap<String>) -> (r: Option<Option<Vec<ScriptCmd>>>)
    requires
        a.wf(),
    ensures
        oov(r) == screen_cmd_spec(t@, attrs_view(a)),
{
    proof {
        reveal_strlit("");
    }
    if eq_str(t, "Fadeout") {
        let ft = chars_of(str_or_exec(&attr_get(a, "0"), "BLACK").as_str());
        let sp = chars_of(str_or_exec(&attr_get(a, "1"), "NORMAL").as_str());
        return Some(Some(fadeout_exec(&ft, &sp)));
    }
    if eq_str(t, "Blackout") {
        let time = u64_or_exec(&attr_get(a, "0"), 1000);
        return Some(Some(one(ScriptCmd::ScreenOverlay { color: OverlayColor::Black, time })));
    }
    if eq_str(t, "WhiteoutBySA") {
        let time = u64_or_exec(&attr_get(a, "0"), 1000);
        return Some(Some(one(ScriptCmd::ScreenOverlay { color: OverlayColor::White, time })));
    }
    if eq_str(t, "Window") {
        let show = !is_value_exec(&attr_get(a, "0"), "OFF");
        return Some(Some(one(ScriptCmd::Window { show, time: None })));
    }
    if eq_str(t, "DisableWindow") {
        let time = u64_opt_exec(&attr_get(a, "0"));
        return Some(Some(one(ScriptCmd::Window { show: false, time })));
    }
    if eq_str(t, "EnableWindow") {
        let time = u64_opt_exec(&attr_get(a, "0"));
        return Some(Some(one(ScriptCmd::Window { show: true, time })));
    }
    if eq_str(t, "ChangeWindowColor") {
        let color_idx = i32_or_exec(&attr_get(a, "0"), 0);
        return Some(Some(one(ScriptCmd::ChangeWindowColor { color_idx })));
    }
    if eq_str(t, "ChangeWindowDesign") {
        let design = i32_or_exec(&attr_get(a, "0"), 0);
        return Some(Some(one(ScriptCmd::ChangeWindowDesign { design })));
    }
    if eq_str(t, "Quake") || eq_str(t, "Jishin") {
        let power = real_or_exec(&attr_get(a, "0"), "5.0");
        let time = u64_or_exec(&attr_get(a, "1"), 500);
        return Some(Some(one(ScriptCmd::Quake { power, time })));
    }
    if eq_str(t, "Flash") {
        let color = if u32_or_exec(&attr_get(a, "0"), 0) == 0 { OverlayColor::White } else { OverlayColor::Black };
        let time = u64_or_exec(&attr_get(a, "1"), 500);
        let alpha = u8_or_exec(&attr_get(a, "2"), 128);
        return Some(Some(one(ScriptCmd::Flash { color, time, alpha })));
    }
    if eq_str(t, "View") {
        let char_id = str_or_exec(&attr_get(a, "0"), "");
        return Some(Some(one(ScriptCmd::View { char_id })));
    }
    if eq_str(t, "ViewEnd") {
        return Some(Some(one(ScriptCmd::View { char_id: "ViewEnd".to_owned() })));
    }
    if eq_str(t, "Event") {
        let file = prefixed("eve_", str_or_exec(&attr_get(a, "0"), ""));
        return Some(Some(cg_cmds_exec(file, transition_of(a))));
    }
    if eq_str(t, "EventMN") {
        let file = prefixed("mon_", str_or_exec(&attr_get(a, "0"), ""));
        return Some(Some(cg_cmds_exec(file, transition_of(a))));
    }
    if eq_str(t, "EventCut") {
        let file = prefixed("cut_", str_or_exec(&attr_get(a, "0"), ""));
        return Some(Some(cg_cmds_exec(file, transition_of(a))));
    }
    if eq_str(t, "DrawScene") {
        let file = str_or_exec(&attr_get(a, "0"), "");
        let prefix = str_or_exec(&attr_get(a, "2"), "");
        let full = string_of(&concat(&chars_of(prefix.as_str()), &chars_of(file.as_str())));
        return Some(Some(cg_cmds_exec(full, transition_of(a))));
    }
    None
}

// ------------------------------------------------------------------
// Flags and game state
// ------------------------------------------------------------------

/// Whether an action stays allowed: unless the argument is `0`.
pub open spec fn allowed_by(o: Option<Seq<char>>) -> bool {
    match o {
        Some(s) => s != "0"@,
        None => true,
    }
}

/// The commands for the flag and game-state tags; `None` for another tag.
pub open spec fn flag_cmd_spec(tag: Seq<char>, a: Map<Seq<char>, Seq<char>>) -> Option<Option<Seq<CmdV>>> {
    let index = u32_or(attr(a, "0"@), 0) as u32;
    if tag == "SetGlobalFlag"@ {
        Some(Some(seq![CmdV::SetGlobalFlag { index, value: i32_or(attr(a, "1"@), 0) as i32 }]))
    } else if tag == "GetGlobalFlag"@ {
        Some(Some(seq![CmdV::GetGlobalFlag { index }]))
    } else if tag == "StoreValueToLocalWork"@ {
        let raw = str_or(attr(a, "1"@), ""@);
        Some(Some(seq![if starts_with_spec(raw, "t.tmp"@) {
            CmdV::StoreValueToLocalWork { index, value: 0, expression: Some(raw) }
        } else {
            CmdV::StoreValueToLocalWork { index, value: i32_or(Some(raw), 0) as i32, expression: None }
        }]))
    } else if tag == "LoadValueFromLocalWork"@ {
        Some(Some(seq![CmdV::LoadValueFromLocalWork { index }]))
    } else if tag == "GetLocalFlag"@ {
        Some(Some(seq![CmdV::GetLocalFlag { index }]))
    } else if tag == "SetLocalFlag"@ {
        Some(Some(seq![CmdV::SetLocalFlag { index, value: i32_or(attr(a, "1"@), 0) as i32 }]))
    } else if tag == "RouteFlag"@ {
        Some(Some(seq![CmdV::RouteFlag]))
    } else if tag == "GameMode"@ {
        Some(Some(seq![CmdV::GameMode { mode: index }]))
    } else if tag == "SetValidityOfSaving"@ {
        Some(Some(seq![CmdV::SetValidity { mode: ValidityMode::Saving, allowed: allowed_by(attr(a, "0"@)) }]))
    } else if tag == "SetValidityOfLoading"@ {
        Some(Some(seq![CmdV::SetValidity { mode: ValidityMode::Loading, allowed: allowed_by(attr(a, "0"@)) }]))
    } else if tag == "SetValidityOfInput"@ {
        Some(Some(seq![CmdV::SetValidity { mode: ValidityMode::Input, allowed: allowed_by(attr(a, "0"@)) }]))
    } else if tag == "SavePoint"@ {
        Some(Some(seq![CmdV::SavePoint]))
    } else if tag == "Refresh"@ {
        Some(None)
    } else if tag == "NextDay"@ {
        Some(Some(next_day_cmds()))
    } else {
        None
    }
}

fn allowed_by_exec(o: &Option<Vec<char>>) -> (b: bool)
    ensures
        b == allowed_by(ov(*o)),
{
    match o {
        Some(s) => !eq_str(s, "0"),
        None => true,
    }
}

fn map_flag_cmd(t: &Vec<char>, a: &StrMap<String>) -> (r: Option<Option<Vec<ScriptCmd>>>)
    requires
        a.wf(),
    ensures
        oov(r) == flag_cmd_spec(t@, attrs_view(a)),
{
    proof {
        reveal_strlit("");
    }
    let index = u32_or_exec(&attr_get(a, "0"), 0);
    if eq_str(t, "SetGlobalFlag") {
        let value = i32_or_exec(&attr_get(a, "1"), 0);
        return Some(Some(one(ScriptCmd::SetGlobalFlag { index, value })));
    }
    if eq_str(t, "GetGlobalFlag") {
        return Some(Some(one(ScriptCmd::GetGlobalFlag { index })));
    }
    if eq_str(t, "StoreValueToLocalWork") {
        let raw = chars_of(str_or_exec(&attr_get(a, "1"), "").as_str());
        let c = if starts_with_str(&raw, "t.tmp") {
            ScriptCmd::StoreValueToLocalWork { index, value: 0, expression: Some(string_of(&raw)) }
        } else {
            let parsed = Some(raw);
            let value = i32_or_exec(&parsed, 0);
            ScriptCmd::StoreValueToLocalWork { index, value, expression: None }
        };
        return Some(Some(one(c)));
    }
    if eq_str(t, "LoadValueFromLocalWork") {
        return Some(Some(one(ScriptCmd::LoadValueFromLocalWork { index })));
    }
    if eq_str(t, "GetLocalFlag") {
        return Some(Some(one(ScriptCmd::GetLocalFlag { index })));
    }
    if eq_str(t, "SetLocalFlag") {
        let value = i32_or_exec(&attr_get(a, "1"), 0);
        return Some(Some(one(ScriptCmd::SetLocalFlag { index, value })));
    }
    if eq_str(t, "RouteFlag") {
        return Some(Some(one(ScriptCmd::RouteFlag)));
    }
    if eq_str(t, "GameMode") {
        return Some(Some(one(ScriptCmd::GameMode { mode: index })));
    }
    if eq_str(t, "SetValidityOfSaving") {
        let allowed = allowed_by_exec(&attr_get(a, "0"));
        return Some(Some(one(ScriptCmd::SetValidity { mode: ValidityMode::Saving, allowed })));
    }
    if eq_str(t, "SetValidityOfLoading") {
        let allowed = allowed_by_exec(&attr_get(a, "0"));
        return Some(Some(one(ScriptCmd::SetValidity { mode: ValidityMode::Loading, allowed })));
    }
    if eq_str(t, "SetValidityOfInput") {
        let allowed = allowed_by_exec(&attr_get(a, "0"));
        return Some(Some(one(ScriptCmd::SetValidity { mode: ValidityMode::Input, allowed })));
    }
    if eq_str(t, "SavePoint") {
        return Some(Some(one(ScriptCmd::SavePoint)));
    }
    if eq_str(t, "Refresh") {
        return Some(None);
    }
    if eq_str(t, "NextDay") {
        return Some(Some(next_day_exec()));
    }
    None
}

// ------------------------------------------------------------------
// Any command
// ------------------------------------------------------------------

/// The commands that an `.asb` command with tag `tag` and attributes `a`
/// stands for; `None` where the tag has no counterpart.
pub open spec fn command_spec(tag: Seq<char>, a: Map<Seq<char>, Seq<char>>) -> Option<Seq<CmdV>> {
    match sprite_cmd_spec(tag, a) {
        Some(r) => r,
        None => match audio_cmd_spec(tag, a) {
            Some(r) => r,
            None => match screen_cmd_spec(tag, a) {
                Some(r) => r,
                None => match flag_cmd_spec(tag, a) {
                    Some(r) => r,
                    None => None,
                },
            },
        },
    }
}

/// The commands that an `.asb` command stands for, under the tag `tag`.
pub fn map_command(tag: &str, cmd: &AsbCommand, config: &GameConfig) -> (r: Option<Vec<ScriptCmd>>)
    requires
        cmd.wf(),
    ensures
        ovv(r) == command_spec(tag@, attrs_view(&cmd.attrs)),
{
    let t = chars_of(tag);
    if let Some(r) = map_sprite_cmd(&t, &cmd.attrs) {
        return r;
    }
    if let Some(r) = map_audio_cmd(&t, cmd, config) {
        return r;
    }
    if let Some(r) = map_screen_cmd(&t, &cmd.attrs) {
        return r;
    }
    if let Some(r) = map_flag_cmd(&t, &cmd.attrs) {
        return r;
    }
    None
}

// ------------------------------------------------------------------
// Choices and their branches
// ------------------------------------------------------------------

/// `str::split` with a non-empty string pattern.
pub open spec fn split_spec(s: Seq<char>, p: Seq<char>) -> Seq<Seq<char>>
    decreases s.len(),
{
    if p.len() == 0 {
        seq![s]
    } else {
        match find_spec(s, p) {
            Some(i) => if 0 <= i && i + p.len() <= s.len() {
                seq![s.subrange(0, i)] + split_spec(s.subrange(i + p.len(), s.len() as int), p)
            } else {
                seq![s]
            },
            None => seq![s],
        }
    }
}

pub(crate) fn split_str(v: &Vec<char>, lit: &str) -> (r: Vec<Vec<char>>)
    requires
        lit@.len() > 0,
    ensures
        views(r@) == split_spec(v@, lit@),
{
    let p = chars_of(lit);
    let mut r: Vec<Vec<char>> = Vec::new();
    let mut rest = slice_of(v, 0, v.len());
    assert(rest@ =~= v@);
    assert(views(r@) =~= Seq::<Seq<char>>::empty());
    loop
        invariant
            p@ == lit@,
            p@.len() > 0,
            split_spec(v@, p@) == views(r@) + split_spec(rest@, p@),
        decreases rest@.len(),
    {
        let n = rest.len();
        match find(&rest, &p) {
            Some(i) => {
                proof {
                    lemma_find_from_bound(rest@, p@, 0);
                }
                let piece = slice_of(&rest, 0, i);
                let next = tail(&rest, i + p.len());
                let ghost before = views(r@);
                r.push(piece);
                assert(views(r@) =~= before.push(piece@));
                assert(split_spec(rest@, p@) == seq![piece@] + split_spec(next@, p@));
                assert(views(r@) + split_spec(next@, p@) =~= before + (seq![piece@] + split_spec(next@, p@)));
                rest = next;
            },
            None => {
                let ghost before = views(r@);
                r.push(rest);
                assert(views(r@) =~= before + seq![rest@]);
                return r;
            },
        }
    }
}

/// The branches of an `exswitch`, from its parts after the first: each
/// `value:target` part maps the value to the target, a `default:target`
/// part sets the fallback; later parts win.
pub open spec fn branch_fold(parts: Seq<Seq<char>>, n: int) -> (Map<i32, Seq<char>>, Option<Seq<char>>)
    decreases n,
{
    if n <= 1 {
        (Map::empty(), None)
    } else {
        let (m, d) = branch_fold(parts, n - 1);
        match split_once_spec(parts[n - 1], ":"@) {
            Some((key, target)) => if key == "default"@ {
                (m, Some(target))
            } else {
                match parse_i32_spec(key) {
                    Some(v) => (m.insert(v as i32, target), d),
                    None => (m, d),
                }
            },
            None => (m, d),
        }
    }
}

/// The value an option stands for: its `exp` value, or else its position.
pub open spec fn exp_of(exps: Seq<i32>, i: int) -> i32 {
    if 0 <= i < exps.len() {
        exps[i]
    } else {
        i as i32
    }
}

/// The target for value `e`: its branch, or else the fallback.
pub open spec fn pick_goto(m: Map<i32, Seq<char>>, d: Option<Seq<char>>, e: i32) -> Option<Seq<char>> {
    if m.dom().contains(e) {
        Some(m[e])
    } else {
        d
    }
}

pub open spec fn with_goto(o: ChoiceV, g: Option<Seq<char>>) -> ChoiceV {
    match g {
        Some(t) => ChoiceV { goto: Some(t), ..o },
        None => o,
    }
}

/// The options with the targets of their branches.
pub open spec fn set_gotos(opts: Seq<ChoiceV>, exps: Seq<i32>, m: Map<i32, Seq<char>>, d: Option<Seq<char>>) -> Seq<ChoiceV> {
    Seq::new(opts.len(), |i: int| with_goto(opts[i], pick_goto(m, d, exp_of(exps, i))))
}

/// An `exswitch` with data `data`: where the data has at least two parts,
/// the last choice (if it is still at `last`) gets the targets of its
/// branches, and the last choice is forgotten.
pub open spec fn update_gotos_spec(out: Seq<CmdV>, last: Option<int>, data: Seq<char>, exps: Seq<i32>) -> (Seq<CmdV>, Option<int>) {
    let parts = split_spec(data, "<>"@);
    if parts.len() < 2 {
        (out, last)
    } else {
        let (m, d) = branch_fold(parts, parts.len() as int);
        match last {
            Some(idx) => if 0 <= idx < out.len() {
                match out[idx] {
                    CmdV::Choice { options } => (out.update(idx, CmdV::Choice { options: set_gotos(options, exps, m, d) }), None),
                    _ => (out, None),
                }
            } else {
                (out, None)
            },
            None => (out, None),
        }
    }
}

pub open spec fn strings_map(m: Map<i32, String>) -> Map<i32, Seq<char>> {
    m.map_values(|s: String| s@)
}

fn copy_string(s: &String) -> (r: String)
    ensures
        r@ == s@,
{
    string_of(&chars_of(s.as_str()))
}

fn branches(parts: &Vec<Vec<char>>) -> (r: (HashMap<i32, String>, Option<String>))
    ensures
        (strings_map(r.0@), opt_str_view(r.1)) == branch_fold(views(parts@), parts@.len() as int),
{
    let mut m: HashMap<i32, String> = HashMap::new();
    let mut d: Option<String> = None;
    let mut k: usize = 1;
    assert(strings_map(m@) =~= Map::<i32, Seq<char>>::empty());
    if parts.len() <= 1 {
        return (m, d);
    }
    while k < parts.len()
        invariant
            1 <= k <= parts@.len(),
            (strings_map(m@), opt_str_view(d)) == branch_fold(views(parts@), k as int),
        decreases parts@.len() - k,
    {
        assert(views(parts@)[k as int] == parts@[k as int]@);
        match split_once_str(&parts[k], ":") {
            Some((key, target)) => {
                if eq_str(&key, "default") {
                    d = Some(string_of(&target));
                } else {
                    match parse_i32(&key) {
                        Some(v) => {
                            let ghost before = strings_map(m@);
                            m.insert(v, string_of(&target));
                            assert(strings_map(m@) =~= before.insert(v, target@));
                        },
                        None => {},
                    }
                }
            },
            None => {},
        }
        k = k + 1;
    }
    (m, d)
}

fn new_options(
    opts: &Vec<ChoiceOption>,
    exps: &[i32],
    m: &HashMap<i32, String>,
    d: &Option<String>,
) -> (r: Vec<ChoiceOption>)
    ensures
        choices_view(r@) == set_gotos(choices_view(opts@), exps@, strings_map(m@), opt_str_view(*d)),
{
    let ghost want = set_gotos(choices_view(opts@), exps@, strings_map(m@), opt_str_view(*d));
    let mut r: Vec<ChoiceOption> = Vec::new();
    let mut i: usize = 0;
    let ne = exps.len();
    while i < opts.len()
        invariant
            i <= opts@.len(),
            ne == exps@.len(),
            want == set_gotos(choices_view(opts@), exps@, strings_map(m@), opt_str_view(*d)),
            choices_view(r@) == want.subrange(0, i as int),
        decreases opts@.len() - i,
    {
        let o = &opts[i];
        let e: i32 = if i < ne { exps[i] } else { i as i32 };
        assert(e == exp_of(exps@, i as int));
        let picked: Option<String> = match m.get(&e) {
            Some(t) => Some(copy_string(t)),
            None => match d {
                Some(t) => Some(copy_string(t)),
                None => None,
            },
        };
        let goto = match picked {
            Some(t) => Some(t),
            None => match &o.goto {
                Some(g) => Some(copy_string(g)),
                None => None,
            },
        };
        let affection_change = match &o.affection_change {
            Some(p) => Some((copy_string(&p.0), p.1)),
            None => None,
        };
        let no = ChoiceOption { text: copy_string(&o.text), affection_change, goto };
        let ghost before = choices_view(r@);
        r.push(no);
        assert(no@ == want[i as int]);
        assert(choices_view(r@) =~= before.push(no@));
        assert(want.subrange(0, i + 1) =~= want.subrange(0, i as int).push(want[i as int]));
        i = i + 1;
    }
    assert(want.subrange(0, opts@.len() as int) =~= want);
    r
}

/// Sets the targets of the last choice's options from the branches of an
/// `exswitch` with data `data`: an option whose `exp` value (or, without
/// one, its position) has a branch goes there, any other goes to the
/// `default` branch where there is one.  The last choice is forgotten
/// once the data has at least two parts.
pub fn update_choice_gotos(output: &mut Vec<ScriptCmd>, last_choice_idx: &mut Option<usize>, data: &str, exp_values: &[i32])
    ensures
        ({
            let (o, l) = update_gotos_spec(
                cmds_view(old(output)@),
                match *old(last_choice_idx) { Some(i) => Some(i as int), None => None },
                data@,
                exp_values@,
            );
            &&& cmds_view(final(output)@) == o
            &&& (match *final(last_choice_idx) { Some(i) => Some(i as int), None => None }) == l
        }),
{
    proof {
        reveal_strlit("<>");
    }
    let dc = chars_of(data);
    let parts = split_str(&dc, "<>");
    if parts.len() < 2 {
        return;
    }
    let (m, d) = branches(&parts);
    let taken = last_choice_idx.take();
    if let Some(idx) = taken {
        if idx < output.len() {
            let new_cmd = match &output[idx] {
                ScriptCmd::Choice { options } => Some(ScriptCmd::Choice { options: new_options(options, exp_values, &m, &d) }),
                _ => None,
            };
            if let Some(c) = new_cmd {
                let ghost before = cmds_view(output@);
                output.set(idx, c);
                assert(cmds_view(output@) =~= before.update(idx as int, c@));
            }
        }
    }
}

// ------------------------------------------------------------------
// Whole scripts
// ------------------------------------------------------------------

/// What mapping has produced and holds pending: the output so far, the
/// speaker of the next line, the options and `exp` values of the choice
/// being built, and the position of the last choice.
pub struct MapState {
    pub out: Seq<CmdV>,
    pub speaker: Option<Seq<char>>,
    pub opts: Seq<ChoiceV>,
    pub exps: Seq<i32>,
    pub last: Option<int>,
}

/// The `exp` value of a choice option: `t.ens:` followed by an `i32`.
pub open spec fn exp_value(a: Map<Seq<char>, Seq<char>>) -> Option<int> {
    match attr(a, "exp"@) {
        Some(e) => match strip_prefix_spec(e, "t.ens:"@) {
            Some(v) => parse_i32_spec(v),
            None => None,
        },
        None => None,
    }
}

/// One command of a block.
pub open spec fn cmd_step(st: MapState, c: AsbCommandV) -> MapState {
    let a = c.attrs;
    let tag = c.tag;
    if tag == "name"@ {
        MapState { speaker: attr(a, "0"@), ..st }
    } else if tag == "print"@ {
        match attr(a, "data"@) {
            Some(text) => MapState { out: st.out.push(CmdV::Dialogue { speaker: st.speaker, text }), speaker: None, ..st },
            None => st,
        }
    } else if tag == "click"@ || tag == "rp2"@ || tag == "ruby"@ || tag == "/ruby"@ {
        st
    } else if tag == "sel_init"@ {
        MapState { opts: Seq::empty(), exps: Seq::empty(), ..st }
    } else if tag == "sel_text"@ {
        let opt = ChoiceV { text: str_or(attr(a, "text"@), ""@), affection_change: None, goto: None };
        let exps = match exp_value(a) {
            Some(v) => st.exps.push(v as i32),
            None => st.exps,
        };
        MapState { opts: st.opts.push(opt), exps, ..st }
    } else if tag == "select"@ {
        MapState { out: st.out.push(CmdV::Choice { options: st.opts }), opts: Seq::empty(), last: Some(st.out.len() as int), ..st }
    } else if tag == "Select"@ {
        st
    } else if tag == "exswitch"@ {
        match attr(a, "data"@) {
            Some(d) => {
                let (out, last) = update_gotos_spec(st.out, st.last, d, st.exps);
                MapState { out, last, exps: Seq::empty(), ..st }
            },
            None => MapState { exps: Seq::empty(), ..st },
        }
    } else {
        match command_spec(tag, a) {
            Some(cs) => MapState { out: st.out + cs, ..st },
            None => st,
        }
    }
}

/// The state after the first `n` commands.
pub open spec fn cmds_fold(st: MapState, cs: Seq<AsbCommandV>, n: int) -> MapState
    decreases n,
{
    if n <= 0 {
        st
    } else {
        cmd_step(cmds_fold(st, cs, n - 1), cs[n - 1])
    }
}

/// A block: its label, then its commands.
pub open spec fn block_step(st: MapState, b: AsbBlockV) -> MapState {
    let st1 = MapState { out: st.out.push(CmdV::Label { name: b.label }), ..st };
    cmds_fold(st1, b.commands, b.commands.len() as int)
}

/// The state after the first `n` blocks.
pub open spec fn blocks_fold(st: MapState, bs: Seq<AsbBlockV>, n: int) -> MapState
    decreases n,
{
    if n <= 0 {
        st
    } else {
        block_step(blocks_fold(st, bs, n - 1), bs[n - 1])
    }
}

pub open spec fn start_state() -> MapState {
    MapState { out: Seq::empty(), speaker: None, opts: Seq::empty(), exps: Seq::empty(), last: None }
}

/// The script that a whole `.asb` script maps onto.
pub open spec fn map_script_spec(bs: Seq<AsbBlockV>) -> Seq<CmdV> {
    blocks_fold(start_state(), bs, bs.len() as int).out
}

pub open spec fn opt_idx(o: Option<usize>) -> Option<int> {
    match o {
        Some(i) => Some(i as int),
        None => None,
    }
}

pub open spec fn state_of(
    out: Seq<ScriptCmd>,
    speaker: Option<String>,
    opts: Seq<ChoiceOption>,
    exps: Seq<i32>,
    last: Option<usize>,
) -> MapState {
    MapState { out: cmds_view(out), speaker: opt_str_view(speaker), opts: choices_view(opts), exps, last: opt_idx(last) }
}

fn exp_value_exec(a: &StrMap<String>) -> (r: Option<i32>)
    requires
        a.wf(),
    ensures
        (match r { Some(v) => Some(v as int), None => None }) == exp_value(attrs_view(a)),
{
    match attr_get(a, "exp") {
        Some(e) => match strip_prefix_str(&e, "t.ens:") {
            Some(v) => parse_i32(&v),
            None => None,
        },
        None => None,
    }
}

fn map_step(
    out: &mut Vec<ScriptCmd>,
    speaker: &mut Option<String>,
    opts: &mut Vec<ChoiceOption>,
    exps: &mut Vec<i32>,
    last: &mut Option<usize>,
    cmd: &AsbCommand,
    config: &GameConfig,
)
    requires
        cmd.wf(),
    ensures
        state_of(final(out)@, *final(speaker), final(opts)@, final(exps)@, *final(last))
            == cmd_step(state_of(old(out)@, *old(speaker), old(opts)@, old(exps)@, *old(last)), cmd.view()),
{
    proof {
        reveal_strlit("");
    }
    let a = &cmd.attrs;
    let t = chars_of(cmd.tag.as_str());
    if eq_str(&t, "name") {
        *speaker = opt_string(&attr_get(a, "0"));
    } else if eq_str(&t, "print") {
        match attr_get(a, "data") {
            Some(text) => {
                let sp = speaker.take();
                push_cmd(out, ScriptCmd::Dialogue { speaker: sp, text: string_of(&text) });
            },
            None => {},
        }
    } else if eq_str(&t, "click") || eq_str(&t, "rp2") || eq_str(&t, "ruby") || eq_str(&t, "/ruby") {
    } else if eq_str(&t, "sel_init") {
        *opts = Vec::new();
        *exps = Vec::new();
        assert(choices_view(opts@) =~= Seq::<ChoiceV>::empty());
    } else if eq_str(&t, "sel_text") {
        let text = str_or_exec(&attr_get(a, "text"), "");
        match exp_value_exec(a) {
            Some(v) => exps.push(v),
            None => {},
        }
        let ghost before = choices_view(opts@);
        let opt = ChoiceOption { text, affection_change: None, goto: None };
        opts.push(opt);
        assert(choices_view(opts@) =~= before.push(opt@));
    } else if eq_str(&t, "select") {
        let mut taken: Vec<ChoiceOption> = Vec::new();
        std::mem::swap(&mut taken, opts);
        assert(choices_view(opts@) =~= Seq::<ChoiceV>::empty());
        *last = Some(out.len());
        push_cmd(out, ScriptCmd::Choice { options: taken });
    } else if eq_str(&t, "Select") {
    } else if eq_str(&t, "exswitch") {
        match a.get_str("data") {
            Some(d) => update_choice_gotos(out, last, d.as_str(), exps.as_slice()),
            None => {},
        }
        *exps = Vec::new();
    } else {
        match map_command(cmd.tag.as_str(), cmd, config) {
            Some(mut cs) => {
                let ghost before = cmds_view(out@);
                let ghost added = cmds_view(cs@);
                out.append(&mut cs);
                assert(cmds_view(out@) =~= before + added);
            },
            None => {},
        }
    }
}

/// Maps a whole `.asb` script: each block becomes its label followed by
/// the commands of its commands.  Speaker names wait for the next line of
/// text; choice options are collected until `select`; an `exswitch` sets
/// the targets of the last choice.
pub fn map_script(asb: &AsbScript, config: &GameConfig, _verbose: bool) -> (r: Vec<ScriptCmd>)
    requires
        asb.wf(),
    ensures
        cmds_view(r@) == map_script_spec(asb.view()),
{
    let mut out: Vec<ScriptCmd> = Vec::new();
    let mut speaker: Option<String> = None;
    let mut opts: Vec<ChoiceOption> = Vec::new();
    let mut exps: Vec<i32> = Vec::new();
    let mut last: Option<usize> = None;
    let ghost bs = asb.view();
    assert(cmds_view(out@) =~= Seq::<CmdV>::empty());
    assert(choices_view(opts@) =~= Seq::<ChoiceV>::empty());
    assert(exps@ =~= Seq::<i32>::empty());
    assert(state_of(out@, speaker, opts@, exps@, last) == start_state());
    let mut b: usize = 0;
    while b < asb.blocks.len()
        invariant
            asb.wf(),
            bs == asb.view(),
            b <= asb.blocks@.len(),
            state_of(out@, speaker, opts@, exps@, last) == blocks_fold(start_state(), bs, b as int),
        decreases asb.blocks@.len() - b,
    {
        let block = &asb.blocks[b];
        assert(block.wf());
        assert(bs[b as int] == block.view());
        let ghost st0 = state_of(out@, speaker, opts@, exps@, last);
        push_cmd(&mut out, ScriptCmd::Label { name: copy_string(&block.label) });
        let ghost st1 = state_of(out@, speaker, opts@, exps@, last);
        assert(st1 == MapState { out: st0.out.push(CmdV::Label { name: block.label@ }), ..st0 });
        let ghost cs = block.view().commands;
        let mut k: usize = 0;
        while k < block.commands.len()
            invariant
                block.wf(),
                cs == block.view().commands,
                k <= block.commands@.len(),
                state_of(out@, speaker, opts@, exps@, last) == cmds_fold(st1, cs, k as int),
            decreases block.commands@.len() - k,
        {
            let cmd = &block.commands[k];
            assert(cmd.wf());
            assert(cs[k as int] == cmd.view());
            map_step(&mut out, &mut speaker, &mut opts, &mut exps, &mut last, cmd, config);
            k = k + 1;
        }
        b = b + 1;
    }
    out
}

} // verus!
