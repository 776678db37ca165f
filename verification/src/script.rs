//! Script commands and the engine that walks through them.
use std::collections::HashMap;
use vstd::prelude::*;
use crate::number::{Real, RealV};
use crate::strmap::StrMap;
use crate::text::{
    chars_of, eq, eq_str, find_char, i32_chars, int_digits, is_digit, is_digit_spec, lemma_find_char_from_bound,
    nat_digits, parse_i32, parse_i32_spec, parse_u32, parse_u32_spec, replace_spec, replace_str,
    slice_of, split_once_spec, split_once_str, starts_with_spec, starts_with_str, string_of, tail,
    trim, trim_spec, zero_pad, zero_pad_exec, u64_chars, concat, find_char_spec, contains_spec,
    contains_str,
};

verus! {

broadcast use vstd::std_specs::hash::group_hash_axioms;

/// Where a character sprite stands.
#[derive(Clone, Copy, Debug, PartialEq, Eq, Structural)]
pub enum FgPosition {
    Left,
    Center,
    Right,
    OffScreen,
}

/// How a picture appears.
#[derive(Clone, Copy, Debug, PartialEq, Eq, Structural)]
pub enum Transition {
    Fade,
    Dissolve,
    Instant,
}

/// Which player action a `SetValidity` command allows or forbids.
#[derive(Clone, Copy, Debug, PartialEq, Eq, Structural)]
pub enum ValidityMode {
    Saving,
    Loading,
    Input,
}

/// A comparison between a variable and a constant.
#[derive(Clone, Copy, Debug, PartialEq, Eq, Structural)]
pub enum ConditionOp {
    Greater,
    Less,
    Equal,
    NotEqual,
    GreaterEqual,
    LessEqual,
}

/// The color of a full-screen overlay.
#[derive(Clone, Copy, Debug, PartialEq, Eq, Structural)]
pub enum OverlayColor {
    Black,
    White,
}

/// One option of a choice.
pub struct ChoiceOption {
    pub text: String,
    pub affection_change: Option<(String, i32)>,
    pub goto: Option<String>,
}

/// One command of a script.
#[allow(inconsistent_fields)]
pub enum ScriptCmd {
    Dialogue { speaker: Option<String>, text: String },
    Choice { options: Vec<ChoiceOption> },
    SetBg { file: String, transition: Option<Transition>, duration: Option<u64> },
    ShowFg { char_id: String, expression: String, position: FgPosition, transition: Option<Transition> },
    HideFg { char_id: String, transition: Option<Transition> },
    ShowFace { char_id: String, expression: String },
    HideFace { char_id: String },
    ShowCg { file: String, transition: Option<Transition> },
    HideCg { transition: Option<Transition> },
    PlayBgm { id: String, volume: Option<Real>, fade_in: Option<u64> },
    StopBgm { id: Option<String>, fade_out: Option<u64> },
    PlayBgmX { id: String, volume: Option<Real>, fade_in: Option<u64> },
    StopBgmX { id: Option<String>, fade_out: Option<u64> },
    PlaySe { file: String, volume: Option<Real> },
    LoopSe { file: String, volume: Option<Real>, channel: u32 },
    StopStreamingSe { channel: u32 },
    PlayVoice { file: String },
    AffectionChange { char_id: String, delta: i32 },
    AffectionCondition { char_id: String, value: i32, operator: ConditionOp, goto: String },
    Jump { target: String },
    Call { target: String },
    CallScript { script: String, label: Option<String> },
    Return,
    Condition { var: String, value: i32, operator: ConditionOp, goto: String },
    SavePoint,
    UnlockCg { file: String },
    ClearText,
    Wait { duration: u64 },
    DrawSprite {
        id: String,
        file: String,
        x: Real,
        y: Real,
        z: i32,
        alpha: i32,
        priority: i32,
        time: u64,
        rotation: Real,
        anchor_x: Real,
        anchor_y: Real,
        blend_mode: i32,
    },
    FadeSprite { id: String, time: u64 },
    MoveSprite { id: String, x: Real, y: Real, z: i32, alpha: i32, time: u64, wait: bool },
    PlayMovie { file: String },
    Label { name: String },
    SetFlag { name: String, value: i32 },
    Halt,
    ScreenOverlay { color: OverlayColor, time: u64 },
    ClearOverlay { time: u64 },
    Window { show: bool, time: Option<u64> },
    ChangeWindowColor { color_idx: i32 },
    ChangeWindowDesign { design: i32 },
    BgmVol { channel: u32, volume: String },
    Quake { power: Real, time: u64 },
    Flash { color: OverlayColor, time: u64, alpha: u8 },
    ScrollBg { file: String, x1: Real, y1: Real, x2: Real, y2: Real, fade: u64, wait: bool },
    AnimateSprite {
        id: String,
        file: String,
        max: u32,
        frame_time: u64,
        style: u32,
        x: Real,
        y: Real,
        z: i32,
        anchor_x: Real,
        anchor_y: Real,
        rotation: Real,
        draw: u32,
        alpha: i32,
        priority: i32,
        wait: bool,
    },
    View { char_id: String },
    SetGlobalFlag { index: u32, value: i32 },
    GetGlobalFlag { index: u32 },
    SetLocalFlag { index: u32, value: i32 },
    StoreValueToLocalWork { index: u32, value: i32, expression: Option<String> },
    LoadValueFromLocalWork { index: u32 },
    GetLocalFlag { index: u32 },
    RouteFlag,
    GameMode { mode: u32 },
    SetValidity { mode: ValidityMode, allowed: bool },
    Exif { expression: String },
    MovieInit,
    DrawSpriteEx {
        id: String,
        file: String,
        x: Real,
        y: Real,
        width: Real,
        height: Real,
        blend_mode: i32,
        display_mode: i32,
        priority: i32,
        visible: bool,
        wait: bool,
    },
    WaitToFinishMoviePlayingOnSprite { sprite_id: String },
    RainMja { file: String, loop_file: Option<String>, priority: i32, time: Option<u64> },
    SetRainValid { enabled: bool },
    SetRainQuantity { density: u32 },
    SetRainColor { r: u8, g: u8, b: u8, a: u8 },
    SetRainVector { direction: u32 },
    SetRainCameraAngle { x: u32, y: u32, z: u32 },
    SetRainPriority { priority: u32 },
    StopAllSe,
    PushHistory,
    WaitVoice,
    QueryMode { mode: String },
    StreamingSeVol { id: u32, volume: u32 },
    Blur { power: u32 },
    ShakeScreen { power: u32, time: u32 },
    ShakeSprite { id: u32, power: u32, time: u32 },
    MonologueColor { color: String },
    Tween { args: String },
    FadeScene { color: String, time: u32 },
    NoOp { tag: String },
}


/// The value of a choice option.
pub struct ChoiceV {
    pub text: Seq<char>,
    pub affection_change: Option<(Seq<char>, i32)>,
    pub goto: Option<Seq<char>>,
}

impl View for ChoiceOption {
    type V = ChoiceV;

    open spec fn view(&self) -> ChoiceV {
        ChoiceV {
            text: self.text@,
            affection_change: match self.affection_change {
                Some(p) => Some((p.0@, p.1)),
                None => None,
            },
            goto: opt_str_view(self.goto),
        }
    }
}

pub open spec fn opt_str_view(o: Option<String>) -> Option<Seq<char>> {
    match o {
        Some(s) => Some(s@),
        None => None,
    }
}

pub open spec fn opt_real_view(o: Option<Real>) -> Option<RealV> {
    match o {
        Some(r) => Some(r@),
        None => None,
    }
}

pub open spec fn choices_view(v: Seq<ChoiceOption>) -> Seq<ChoiceV> {
    v.map_values(|c: ChoiceOption| c@)
}

/// The values of a sequence of commands.
pub open spec fn cmds_view(v: Seq<ScriptCmd>) -> Seq<CmdV> {
    v.map_values(|c: ScriptCmd| c@)
}

/// The value of a command, with every string as its characters.
#[allow(inconsistent_fields)]
pub enum CmdV {
    Dialogue { speaker: Option<Seq<char>>, text: Seq<char> },
    Choice { options: Seq<ChoiceV> },
    SetBg { file: Seq<char>, transition: Option<Transition>, duration: Option<u64> },
    ShowFg { char_id: Seq<char>, expression: Seq<char>, position: FgPosition, transition: Option<Transition> },
    HideFg { char_id: Seq<char>, transition: Option<Transition> },
    ShowFace { char_id: Seq<char>, expression: Seq<char> },
    HideFace { char_id: Seq<char> },
    ShowCg { file: Seq<char>, transition: Option<Transition> },
    HideCg { transition: Option<Transition> },
    PlayBgm { id: Seq<char>, volume: Option<RealV>, fade_in: Option<u64> },
    StopBgm { id: Option<Seq<char>>, fade_out: Option<u64> },
    PlayBgmX { id: Seq<char>, volume: Option<RealV>, fade_in: Option<u64> },
    StopBgmX { id: Option<Seq<char>>, fade_out: Option<u64> },
    PlaySe { file: Seq<char>, volume: Option<RealV> },
    LoopSe { file: Seq<char>, volume: Option<RealV>, channel: u32 },
    StopStreamingSe { channel: u32 },
    PlayVoice { file: Seq<char> },
    AffectionChange { char_id: Seq<char>, delta: i32 },
    AffectionCondition { char_id: Seq<char>, value: i32, operator: ConditionOp, goto: Seq<char> },
    Jump { target: Seq<char> },
    Call { target: Seq<char> },
    CallScript { script: Seq<char>, label: Option<Seq<char>> },
    Return,
    Condition { var: Seq<char>, value: i32, operator: ConditionOp, goto: Seq<char> },
    SavePoint,
    UnlockCg { file: Seq<char> },
    ClearText,
    Wait { duration: u64 },
    DrawSprite { id: Seq<char>, file: Seq<char>, x: RealV, y: RealV, z: i32, alpha: i32, priority: i32, time: u64, rotation: RealV, anchor_x: RealV, anchor_y: RealV, blend_mode: i32 },
    FadeSprite { id: Seq<char>, time: u64 },
    MoveSprite { id: Seq<char>, x: RealV, y: RealV, z: i32, alpha: i32, time: u64, wait: bool },
    PlayMovie { file: Seq<char> },
    Label { name: Seq<char> },
    SetFlag { name: Seq<char>, value: i32 },
    Halt,
    ScreenOverlay { color: OverlayColor, time: u64 },
    ClearOverlay { time: u64 },
    Window { show: bool, time: Option<u64> },
    ChangeWindowColor { color_idx: i32 },
    ChangeWindowDesign { design: i32 },
    BgmVol { channel: u32, volume: Seq<char> },
    Quake { power: RealV, time: u64 },
    Flash { color: OverlayColor, time: u64, alpha: u8 },
    ScrollBg { file: Seq<char>, x1: RealV, y1: RealV, x2: RealV, y2: RealV, fade: u64, wait: bool },
    AnimateSprite { id: Seq<char>, file: Seq<char>, max: u32, frame_time: u64, style: u32, x: RealV, y: RealV, z: i32, anchor_x: RealV, anchor_y: RealV, rotation: RealV, draw: u32, alpha: i32, priority: i32, wait: bool },
    View { char_id: Seq<char> },
    SetGlobalFlag { index: u32, value: i32 },
    GetGlobalFlag { index: u32 },
    SetLocalFlag { index: u32, value: i32 },
    StoreValueToLocalWork { index: u32, value: i32, expression: Option<Seq<char>> },
    LoadValueFromLocalWork { index: u32 },
    GetLocalFlag { index: u32 },
    RouteFlag,
    GameMode { mode: u32 },
    SetValidity { mode: ValidityMode, allowed: bool },
    Exif { expression: Seq<char> },
    MovieInit,
    DrawSpriteEx { id: Seq<char>, file: Seq<char>, x: RealV, y: RealV, width: RealV, height: RealV, blend_mode: i32, display_mode: i32, priority: i32, visible: bool, wait: bool },
    WaitToFinishMoviePlayingOnSprite { sprite_id: Seq<char> },
    RainMja { file: Seq<char>, loop_file: Option<Seq<char>>, priority: i32, time: Option<u64> },
    SetRainValid { enabled: bool },
    SetRainQuantity { density: u32 },
    SetRainColor { r: u8, g: u8, b: u8, a: u8 },
    SetRainVector { direction: u32 },
    SetRainCameraAngle { x: u32, y: u32, z: u32 },
    SetRainPriority { priority: u32 },
    StopAllSe,
    PushHistory,
    WaitVoice,
    QueryMode { mode: Seq<char> },
    StreamingSeVol { id: u32, volume: u32 },
    Blur { power: u32 },
    ShakeScreen { power: u32, time: u32 },
    ShakeSprite { id: u32, power: u32, time: u32 },
    MonologueColor { color: Seq<char> },
    Tween { args: Seq<char> },
    FadeScene { color: Seq<char>, time: u32 },
    NoOp { tag: Seq<char> },
}

impl View for ScriptCmd {
    type V = CmdV;

    open spec fn view(&self) -> CmdV {
        match self {
            ScriptCmd::Dialogue { speaker, text } => CmdV::Dialogue { speaker: opt_str_view(*speaker), text: text@ },
            ScriptCmd::Choice { options } => CmdV::Choice { options: choices_view(options@) },
            ScriptCmd::SetBg { file, transition, duration } => CmdV::SetBg { file: file@, transition: *transition, duration: *duration },
            ScriptCmd::ShowFg { char_id, expression, position, transition } => CmdV::ShowFg { char_id: char_id@, expression: expression@, position: *position, transition: *transition },
            ScriptCmd::HideFg { char_id, transition } => CmdV::HideFg { char_id: char_id@, transition: *transition },
            ScriptCmd::ShowFace { char_id, expression } => CmdV::ShowFace { char_id: char_id@, expression: expression@ },
            ScriptCmd::HideFace { char_id } => CmdV::HideFace { char_id: char_id@ },
            ScriptCmd::ShowCg { file, transition } => CmdV::ShowCg { file: file@, transition: *transition },
            ScriptCmd::HideCg { transition } => CmdV::HideCg { transition: *transition },
            ScriptCmd::PlayBgm { id, volume, fade_in } => CmdV::PlayBgm { id: id@, volume: opt_real_view(*volume), fade_in: *fade_in },
            ScriptCmd::StopBgm { id, fade_out } => CmdV::StopBgm { id: opt_str_view(*id), fade_out: *fade_out },
            ScriptCmd::PlayBgmX { id, volume, fade_in } => CmdV::PlayBgmX { id: id@, volume: opt_real_view(*volume), fade_in: *fade_in },
            ScriptCmd::StopBgmX { id, fade_out } => CmdV::StopBgmX { id: opt_str_view(*id), fade_out: *fade_out },
            ScriptCmd::PlaySe { file, volume } => CmdV::PlaySe { file: file@, volume: opt_real_view(*volume) },
            ScriptCmd::LoopSe { file, volume, channel } => CmdV::LoopSe { file: file@, volume: opt_real_view(*volume), channel: *channel },
            ScriptCmd::StopStreamingSe { channel } => CmdV::StopStreamingSe { channel: *channel },
            ScriptCmd::PlayVoice { file } => CmdV::PlayVoice { file: file@ },
            ScriptCmd::AffectionChange { char_id, delta } => CmdV::AffectionChange { char_id: char_id@, delta: *delta },
            ScriptCmd::AffectionCondition { char_id, value, operator, goto } => CmdV::AffectionCondition { char_id: char_id@, value: *value, operator: *operator, goto: goto@ },
            ScriptCmd::Jump { target } => CmdV::Jump { target: target@ },
            ScriptCmd::Call { target } => CmdV::Call { target: target@ },
            ScriptCmd::CallScript { script, label } => CmdV::CallScript { script: script@, label: opt_str_view(*label) },
            ScriptCmd::Return => CmdV::Return,
            ScriptCmd::Condition { var, value, operator, goto } => CmdV::Condition { var: var@, value: *value, operator: *operator, goto: goto@ },
            ScriptCmd::SavePoint => CmdV::SavePoint,
            ScriptCmd::UnlockCg { file } => CmdV::UnlockCg { file: file@ },
            ScriptCmd::ClearText => CmdV::ClearText,
            ScriptCmd::Wait { duration } => CmdV::Wait { duration: *duration },
            ScriptCmd::DrawSprite { id, file, x, y, z, alpha, priority, time, rotation, anchor_x, anchor_y, blend_mode } => CmdV::DrawSprite { id: id@, file: file@, x: x@, y: y@, z: *z, alpha: *alpha, priority: *priority, time: *time, rotation: rotation@, anchor_x: anchor_x@, anchor_y: anchor_y@, blend_mode: *blend_mode },
            ScriptCmd::FadeSprite { id, time } => CmdV::FadeSprite { id: id@, time: *time },
            ScriptCmd::MoveSprite { id, x, y, z, alpha, time, wait } => CmdV::MoveSprite { id: id@, x: x@, y: y@, z: *z, alpha: *alpha, time: *time, wait: *wait },
            ScriptCmd::PlayMovie { file } => CmdV::PlayMovie { file: file@ },
            ScriptCmd::Label { name } => CmdV::Label { name: name@ },
            ScriptCmd::SetFlag { name, value } => CmdV::SetFlag { name: name@, value: *value },
            ScriptCmd::Halt => CmdV::Halt,
            ScriptCmd::ScreenOverlay { color, time } => CmdV::ScreenOverlay { color: *color, time: *time },
            ScriptCmd::ClearOverlay { time } => CmdV::ClearOverlay { time: *time },
            ScriptCmd::Window { show, time } => CmdV::Window { show: *show, time: *time },
            ScriptCmd::ChangeWindowColor { color_idx } => CmdV::ChangeWindowColor { color_idx: *color_idx },
            ScriptCmd::ChangeWindowDesign { design } => CmdV::ChangeWindowDesign { design: *design },
            ScriptCmd::BgmVol { channel, volume } => CmdV::BgmVol { channel: *channel, volume: volume@ },
            ScriptCmd::Quake { power, time } => CmdV::Quake { power: power@, time: *time },
            ScriptCmd::Flash { color, time, alpha } => CmdV::Flash { color: *color, time: *time, alpha: *alpha },
            ScriptCmd::ScrollBg { file, x1, y1, x2, y2, fade, wait } => CmdV::ScrollBg { file: file@, x1: x1@, y1: y1@, x2: x2@, y2: y2@, fade: *fade, wait: *wait },
            ScriptCmd::AnimateSprite { id, file, max, frame_time, style, x, y, z, anchor_x, anchor_y, rotation, draw, alpha, priority, wait } => CmdV::AnimateSprite { id: id@, file: file@, max: *max, frame_time: *frame_time, style: *style, x: x@, y: y@, z: *z, anchor_x: anchor_x@, anchor_y: anchor_y@, rotation: rotation@, draw: *draw, alpha: *alpha, priority: *priority, wait: *wait },
            ScriptCmd::View { char_id } => CmdV::View { char_id: char_id@ },
            ScriptCmd::SetGlobalFlag { index, value } => CmdV::SetGlobalFlag { index: *index, value: *value },
            ScriptCmd::GetGlobalFlag { index } => CmdV::GetGlobalFlag { index: *index },
            ScriptCmd::SetLocalFlag { index, value } => CmdV::SetLocalFlag { index: *index, value: *value },
            ScriptCmd::StoreValueToLocalWork { index, value, expression } => CmdV::StoreValueToLocalWork { index: *index, value: *value, expression: opt_str_view(*expression) },
            ScriptCmd::LoadValueFromLocalWork { index } => CmdV::LoadValueFromLocalWork { index: *index },
            ScriptCmd::GetLocalFlag { index } => CmdV::GetLocalFlag { index: *index },
            ScriptCmd::RouteFlag => CmdV::RouteFlag,
            ScriptCmd::GameMode { mode } => CmdV::GameMode { mode: *mode },
            ScriptCmd::SetValidity { mode, allowed } => CmdV::SetValidity { mode: *mode, allowed: *allowed },
            ScriptCmd::Exif { expression } => CmdV::Exif { expression: expression@ },
            ScriptCmd::MovieInit => CmdV::MovieInit,
            ScriptCmd::DrawSpriteEx { id, file, x, y, width, height, blend_mode, display_mode, priority, visible, wait } => CmdV::DrawSpriteEx { id: id@, file: file@, x: x@, y: y@, width: width@, height: height@, blend_mode: *blend_mode, display_mode: *display_mode, priority: *priority, visible: *visible, wait: *wait },
            ScriptCmd::WaitToFinishMoviePlayingOnSprite { sprite_id } => CmdV::WaitToFinishMoviePlayingOnSprite { sprite_id: sprite_id@ },
            ScriptCmd::RainMja { file, loop_file, priority, time } => CmdV::RainMja { file: file@, loop_file: opt_str_view(*loop_file), priority: *priority, time: *time },
            ScriptCmd::SetRainValid { enabled } => CmdV::SetRainValid { enabled: *enabled },
            ScriptCmd::SetRainQuantity { density } => CmdV::SetRainQuantity { density: *density },
            ScriptCmd::SetRainColor { r, g, b, a } => CmdV::SetRainColor { r: *r, g: *g, b: *b, a: *a },
            ScriptCmd::SetRainVector { direction } => CmdV::SetRainVector { direction: *direction },
            ScriptCmd::SetRainCameraAngle { x, y, z } => CmdV::SetRainCameraAngle { x: *x, y: *y, z: *z },
            ScriptCmd::SetRainPriority { priority } => CmdV::SetRainPriority { priority: *priority },
            ScriptCmd::StopAllSe => CmdV::StopAllSe,
            ScriptCmd::PushHistory => CmdV::PushHistory,
            ScriptCmd::WaitVoice => CmdV::WaitVoice,
            ScriptCmd::QueryMode { mode } => CmdV::QueryMode { mode: mode@ },
            ScriptCmd::StreamingSeVol { id, volume } => CmdV::StreamingSeVol { id: *id, volume: *volume },
            ScriptCmd::Blur { power } => CmdV::Blur { power: *power },
            ScriptCmd::ShakeScreen { power, time } => CmdV::ShakeScreen { power: *power, time: *time },
            ScriptCmd::ShakeSprite { id, power, time } => CmdV::ShakeSprite { id: *id, power: *power, time: *time },
            ScriptCmd::MonologueColor { color } => CmdV::MonologueColor { color: color@ },
            ScriptCmd::Tween { args } => CmdV::Tween { args: args@ },
            ScriptCmd::FadeScene { color, time } => CmdV::FadeScene { color: color@, time: *time },
            ScriptCmd::NoOp { tag } => CmdV::NoOp { tag: tag@ },
        }
    }
}

/// Whether `a op b` holds.
pub open spec fn op_holds(op: ConditionOp, a: int, b: int) -> bool {
    match op {
        ConditionOp::Greater => a > b,
        ConditionOp::Less => a < b,
        ConditionOp::Equal => a == b,
        ConditionOp::NotEqual => a != b,
        ConditionOp::GreaterEqual => a >= b,
        ConditionOp::LessEqual => a <= b,
    }
}

/// The operator that holds exactly where `op` does not.
pub open spec fn negate_op(op: ConditionOp) -> ConditionOp {
    match op {
        ConditionOp::Greater => ConditionOp::LessEqual,
        ConditionOp::Less => ConditionOp::GreaterEqual,
        ConditionOp::Equal => ConditionOp::NotEqual,
        ConditionOp::NotEqual => ConditionOp::Equal,
        ConditionOp::GreaterEqual => ConditionOp::Less,
        ConditionOp::LessEqual => ConditionOp::Greater,
    }
}

/// Negating an operator flips its outcome on every pair of values.
pub proof fn law_negate_op(op: ConditionOp, a: int, b: int)
    ensures
        op_holds(negate_op(op), a, b) == !op_holds(op, a, b),
        negate_op(negate_op(op)) == op,
{
}

/// Whether `a op b` holds.
pub fn op_holds_exec(op: &ConditionOp, a: i32, b: i32) -> (r: bool)
    ensures
        r == op_holds(*op, a as int, b as int),
{
    match op {
        ConditionOp::Greater => a > b,
        ConditionOp::Less => a < b,
        ConditionOp::Equal => a == b,
        ConditionOp::NotEqual => a != b,
        ConditionOp::GreaterEqual => a >= b,
        ConditionOp::LessEqual => a <= b,
    }
}

// ------------------------------------------------------------------
// Condition and value expressions
// ------------------------------------------------------------------

/// The value of the `tmp` flag, or 0.
pub open spec fn tmp_val(flags: Map<Seq<char>, i32>) -> int {
    if flags.dom().contains("tmp"@) {
        flags["tmp"@] as int
    } else {
        0
    }
}

/// The comparison operators, in the order in which they are tried.
pub open spec fn op_lit(k: int) -> Seq<char> {
    if k == 0 {
        "!="@
    } else if k == 1 {
        "=="@
    } else if k == 2 {
        ">="@
    } else if k == 3 {
        "<="@
    } else if k == 4 {
        ">"@
    } else {
        "<"@
    }
}

pub open spec fn apply_op(k: int, a: int, b: int) -> bool {
    if k == 0 {
        a != b
    } else if k == 1 {
        a == b
    } else if k == 2 {
        a >= b
    } else if k == 3 {
        a <= b
    } else if k == 4 {
        a > b
    } else {
        a < b
    }
}

/// The first operator, from the `k`-th on, that `e` starts with.
pub open spec fn first_prefix_op(e: Seq<char>, k: int) -> Option<int>
    decreases 6 - k,
{
    if k < 0 || k >= 6 {
        None
    } else if starts_with_spec(e, op_lit(k)) {
        Some(k)
    } else {
        first_prefix_op(e, k + 1)
    }
}

/// From the `k`-th operator on: the first whose first occurrence in `e` is
/// followed by a number, compared with `t`.
pub open spec fn split_phase(e: Seq<char>, k: int, t: int) -> Option<bool>
    decreases 6 - k,
{
    if k < 0 || k >= 6 {
        None
    } else {
        match split_once_spec(e, op_lit(k)) {
            Some(parts) => match parse_i32_spec(trim_spec(parts.1)) {
                Some(v) => Some(apply_op(k, t, v)),
                None => split_phase(e, k + 1, t),
            },
            None => split_phase(e, k + 1, t),
        }
    }
}

/// An expression that starts with an operator followed by a number: the
/// comparison of `t` with that number.
pub open spec fn leading_phase(e: Seq<char>, t: int) -> Option<bool> {
    match first_prefix_op(e, 0) {
        Some(k) => match parse_i32_spec(trim_spec(e.subrange(op_lit(k).len() as int, e.len() as int))) {
            Some(r) => Some(apply_op(k, t, r)),
            None => None,
        },
        None => None,
    }
}

/// What `evaluate_condition_expression` decides: the `tmp` flag compared
/// with the number in the expression; `true` where no comparison can be
/// read.
pub open spec fn eval_condition_spec(expr: Seq<char>, flags: Map<Seq<char>, i32>) -> bool {
    let e = trim_spec(expr);
    let t = tmp_val(flags);
    match leading_phase(e, t) {
        Some(b) => b,
        None => match split_phase(e, 0, t) {
            Some(b) => b,
            None => match parse_i32_spec(e) {
                Some(v) => t == v,
                None => true,
            },
        },
    }
}

proof fn lemma_first_prefix_op(e: Seq<char>, k: int)
    ensures
        first_prefix_op(e, k) matches Some(j) ==> 0 <= j < 6 && starts_with_spec(e, op_lit(j)),
    decreases 6 - k,
{
    if !(k < 0 || k >= 6) && !starts_with_spec(e, op_lit(k)) {
        lemma_first_prefix_op(e, k + 1);
    }
}

fn op_str(k: usize) -> (s: &'static str)
    requires
        k < 6,
    ensures
        s@ == op_lit(k as int),
{
    if k == 0 {
        "!="
    } else if k == 1 {
        "=="
    } else if k == 2 {
        ">="
    } else if k == 3 {
        "<="
    } else if k == 4 {
        ">"
    } else {
        "<"
    }
}

fn apply_op_exec(k: usize, a: i32, b: i32) -> (r: bool)
    ensures
        r == apply_op(k as int, a as int, b as int),
{
    if k == 0 {
        a != b
    } else if k == 1 {
        a == b
    } else if k == 2 {
        a >= b
    } else if k == 3 {
        a <= b
    } else if k == 4 {
        a > b
    } else {
        a < b
    }
}

fn tmp_flag(flags: &StrMap<i32>) -> (t: i32)
    requires
        flags.wf(),
    ensures
        t as int == tmp_val(flags.view()),
{
    match flags.get_str("tmp") {
        Some(v) => *v,
        None => 0,
    }
}

/// Decides a script condition such as `"== 3"`, `"t.tmp >= 2"` or `"4"`
/// against the `tmp` flag.
pub fn evaluate_condition_expression(expr: &str, flags: &StrMap<i32>) -> (r: bool)
    requires
        flags.wf(),
    ensures
        r == eval_condition_spec(expr@, flags.view()),
{
    let e = trim(&chars_of(expr));
    let t = tmp_flag(flags);
    let mut k: usize = 0;
    let mut found: Option<usize> = None;
    while k < 6
        invariant
            k <= 6,
            found is None ==> first_prefix_op(e@, 0) == first_prefix_op(e@, k as int),
            found matches Some(j) ==> first_prefix_op(e@, 0) == Some(j as int) && j < 6,
        decreases 6 - k,
    {
        if found.is_none() && starts_with_str(&e, op_str(k)) {
            found = Some(k);
        }
        k = k + 1;
    }
    proof {
        lemma_first_prefix_op(e@, 0);
    }
    if let Some(j) = found {
        let op = chars_of(op_str(j));
        let rhs = trim(&tail(&e, op.len()));
        if let Some(r) = parse_i32(&rhs) {
            return apply_op_exec(j, t, r);
        }
    }
    assert(leading_phase(e@, t as int) is None);
    let mut k: usize = 0;
    while k < 6
        invariant
            k <= 6,
            split_phase(e@, 0, t as int) == split_phase(e@, k as int, t as int),
            leading_phase(e@, t as int) is None,
            e@ == trim_spec(expr@),
            t as int == tmp_val(flags.view()),
        decreases 6 - k,
    {
        let parts = split_once_str(&e, op_str(k));
        if let Some((lhs, rhs)) = parts {
            let rt = trim(&rhs);
            if let Some(r) = parse_i32(&rt) {
                assert(split_once_spec(e@, op_lit(k as int)) == Some((lhs@, rhs@)));
                assert(split_phase(e@, k as int, t as int) == Some(apply_op(k as int, t as int, r as int)));
                return apply_op_exec(k, t, r);
            }
        }
        k = k + 1;
    }
    match parse_i32(&e) {
        Some(v) => t == v,
        None => true,
    }
}

/// `expr` with every `t.tmp` replaced by the decimal value of the `tmp` flag.
pub open spec fn resolve_tmp(expr: Seq<char>, flags: Map<Seq<char>, i32>) -> Seq<char> {
    if contains_spec(expr, "t.tmp"@) {
        replace_spec(expr, "t.tmp"@, int_digits(tmp_val(flags)))
    } else {
        expr
    }
}

/// A number, or 0 where the text is none.
pub open spec fn int_or_zero(s: Seq<char>) -> int {
    match parse_i32_spec(trim_spec(s)) {
        Some(v) => v,
        None => 0,
    }
}

/// The mathematical value of a script expression: `a + b`, `a - b` or `a`,
/// split at the first `+` (else the first `-`); a part that is not a number
/// counts as 0.
pub open spec fn script_expr_value(expr: Seq<char>, flags: Map<Seq<char>, i32>) -> int {
    let r = resolve_tmp(expr, flags);
    match split_once_spec(r, "+"@) {
        Some(p) => int_or_zero(p.0) + int_or_zero(p.1),
        None => match split_once_spec(r, "-"@) {
            Some(p) => int_or_zero(p.0) - int_or_zero(p.1),
            None => int_or_zero(r),
        },
    }
}

fn int_or_zero_exec(v: &[char]) -> (r: i32)
    ensures
        r as int == int_or_zero(v@),
{
    match parse_i32(&trim(v)) {
        Some(x) => x,
        None => 0,
    }
}

/// Evaluates an expression such as `"t.tmp+1"`, with `t.tmp` standing for
/// the `tmp` flag.  The value must fit an `i32`.
pub fn evaluate_script_expression(expr: &str, flags: &StrMap<i32>) -> (r: i32)
    requires
        flags.wf(),
        i32::MIN <= script_expr_value(expr@, flags.view()) <= i32::MAX,
    ensures
        r as int == script_expr_value(expr@, flags.view()),
{
    let e = chars_of(expr);
    proof {
        reveal_strlit("t.tmp");
    }
    let resolved = if contains_str(&e, "t.tmp") {
        let t = tmp_flag(flags);
        let digits = i32_chars(t);
        let ds = string_of(&digits);
        replace_str(&e, "t.tmp", ds.as_str())
    } else {
        e
    };
    if let Some((l, r)) = split_once_str(&resolved, "+") {
        let a = int_or_zero_exec(&l);
        let b = int_or_zero_exec(&r);
        a + b
    } else if let Some((l, r)) = split_once_str(&resolved, "-") {
        let a = int_or_zero_exec(&l);
        let b = int_or_zero_exec(&r);
        a - b
    } else {
        int_or_zero_exec(&resolved)
    }
}

/// Evaluates a script expression where its value fits an `i32`; `None`
/// where it does not.
pub fn checked_script_expression(expr: &str, flags: &StrMap<i32>) -> (r: Option<i32>)
    requires
        flags.wf(),
    ensures
        match r {
            Some(v) => v as int == script_expr_value(expr@, flags.view()),
            None => !(i32::MIN <= script_expr_value(expr@, flags.view()) <= i32::MAX),
        },
{
    let e = chars_of(expr);
    proof {
        reveal_strlit("t.tmp");
    }
    let resolved = if contains_str(&e, "t.tmp") {
        let t = tmp_flag(flags);
        let digits = i32_chars(t);
        let ds = string_of(&digits);
        replace_str(&e, "t.tmp", ds.as_str())
    } else {
        e
    };
    let v: i64 = if let Some((l, r)) = split_once_str(&resolved, "+") {
        let a = int_or_zero_exec(&l);
        let b = int_or_zero_exec(&r);
        a as i64 + b as i64
    } else if let Some((l, r)) = split_once_str(&resolved, "-") {
        let a = int_or_zero_exec(&l);
        let b = int_or_zero_exec(&r);
        a as i64 - b as i64
    } else {
        int_or_zero_exec(&resolved) as i64
    };
    if i32::MIN as i64 <= v && v <= i32::MAX as i64 {
        Some(v as i32)
    } else {
        None
    }
}

// ------------------------------------------------------------------
// The engine
// ------------------------------------------------------------------

/// Whether the command is a label with the given name.
pub open spec fn is_label_named(c: ScriptCmd, label: Seq<char>) -> bool {
    c matches ScriptCmd::Label { name } && name@ == label
}

/// The first index at or after `i` of a label named `label`.
pub open spec fn label_index_from(cmds: Seq<ScriptCmd>, label: Seq<char>, i: int) -> Option<int>
    decreases cmds.len() - i,
{
    if i < 0 || i >= cmds.len() {
        None
    } else if is_label_named(cmds[i], label) {
        Some(i)
    } else {
        label_index_from(cmds, label, i + 1)
    }
}

/// The index of the first label named `label`.
pub open spec fn label_index(cmds: Seq<ScriptCmd>, label: Seq<char>) -> Option<int> {
    label_index_from(cmds, label, 0)
}

/// A label found from line `i` on is at or after `i` and has that name;
/// where none is found, no line from `i` on is such a label.
pub proof fn lemma_label_index_from(cmds: Seq<ScriptCmd>, label: Seq<char>, i: int)
    requires
        0 <= i,
    ensures
        label_index_from(cmds, label, i) matches Some(k) ==> i <= k < cmds.len() && is_label_named(cmds[k], label),
        label_index_from(cmds, label, i) is None ==> forall|k: int| i <= k < cmds.len() ==> !is_label_named(#[trigger] cmds[k], label),
    decreases cmds.len() - i,
{
    if !(i < 0 || i >= cmds.len()) && !is_label_named(cmds[i], label) {
        lemma_label_index_from(cmds, label, i + 1);
    }
}

/// A place in the scripts: the script's name, the next line, and the
/// stack of places to return to.
pub type Pos = (Seq<char>, int, Seq<(Seq<char>, int)>);

/// The scripts by name.
pub type Scripts = Map<Seq<char>, Seq<ScriptCmd>>;

/// The line after the first label named `label` in the script `p.0`.
pub open spec fn jump_target(p: Pos, scripts: Scripts, label: Seq<char>) -> Option<int> {
    if scripts.dom().contains(p.0) {
        match label_index(scripts[p.0], label) {
            Some(i) => Some(i + 1),
            None => None,
        }
    } else {
        None
    }
}

/// Where `jump_to_label` leaves the engine.
pub open spec fn jump_pos(p: Pos, scripts: Scripts, label: Seq<char>) -> Pos {
    match jump_target(p, scripts, label) {
        Some(l) => (p.0, l, p.2),
        None => p,
    }
}

/// Where `call_label` leaves the engine: at the label, with the old place
/// pushed; unchanged where there is no such label.
pub open spec fn call_label_pos(p: Pos, scripts: Scripts, label: Seq<char>) -> Pos {
    match jump_target(p, scripts, label) {
        Some(l) => (p.0, l, p.2.push((p.0, p.1))),
        None => p,
    }
}

/// Where `call_script` leaves the engine: at the start of the script (or
/// after its label), with the old place pushed; unchanged where there is
/// no such script.  A label that is not found keeps the old line number.
pub open spec fn call_script_pos(p: Pos, scripts: Scripts, script: Seq<char>, label: Option<Seq<char>>) -> Pos {
    if scripts.dom().contains(script) {
        let line = match label {
            Some(l) => match label_index(scripts[script], l) {
                Some(i) => i + 1,
                None => p.1,
            },
            None => 0,
        };
        (script, line, p.2.push((p.0, p.1)))
    } else {
        p
    }
}

/// Where `return_from_call` leaves the engine: at the last pushed place.
pub open spec fn return_pos(p: Pos) -> Pos {
    if p.2.len() > 0 {
        (p.2.last().0, p.2.last().1, p.2.drop_last())
    } else {
        p
    }
}

/// The state of a running script.
pub struct ScriptEngine {
    pub current_script: String,
    pub current_line: usize,
    pub call_stack: Vec<(String, usize)>,
    pub flags: StrMap<i32>,
    pub global_flags: HashMap<u32, i32>,
    pub local_work: HashMap<u32, i32>,
    pub local_flags: HashMap<u32, i32>,
    pub scripts: StrMap<Vec<ScriptCmd>>,
    pub dialogue_idx: usize,
    pub finished: bool,
}

impl ScriptEngine {
    pub open spec fn wf(&self) -> bool {
        self.flags.wf() && self.scripts.wf()
    }

    pub open spec fn script_table(&self) -> Scripts {
        self.scripts.view().map_values(|v: Vec<ScriptCmd>| v@)
    }

    pub open spec fn stack_view(&self) -> Seq<(Seq<char>, int)> {
        self.call_stack@.map_values(|e: (String, usize)| (e.0@, e.1 as int))
    }

    pub open spec fn pos(&self) -> Pos {
        (self.current_script@, self.current_line as int, self.stack_view())
    }

    /// The commands of the current script, if it is loaded.
    pub open spec fn current_cmds(&self) -> Option<Seq<ScriptCmd>> {
        if self.script_table().dom().contains(self.current_script@) {
            Some(self.script_table()[self.current_script@])
        } else {
            None
        }
    }

    /// Everything but the place in the scripts is the same.
    pub open spec fn same_data(&self, other: &Self) -> bool {
        &&& self.flags == other.flags
        &&& self.global_flags@ == other.global_flags@
        &&& self.local_work@ == other.local_work@
        &&& self.local_flags@ == other.local_flags@
        &&& self.scripts == other.scripts
        &&& self.finished == other.finished
    }

    /// An engine with nothing loaded.
    pub fn new() -> (e: Self)
        ensures
            e.wf(),
            e.current_script@ == Seq::<char>::empty(),
            e.current_line == 0,
            e.call_stack@.len() == 0,
            e.flags.view() == Map::<Seq<char>, i32>::empty(),
            e.global_flags@ == Map::<u32, i32>::empty(),
            e.local_work@ == Map::<u32, i32>::empty(),
            e.local_flags@ == Map::<u32, i32>::empty(),
            e.scripts.view() == Map::<Seq<char>, Vec<ScriptCmd>>::empty(),
            e.dialogue_idx == 0,
            !e.finished,
    {
        ScriptEngine {
            current_script: String::new(),
            current_line: 0,
            call_stack: Vec::new(),
            flags: StrMap::new(),
            global_flags: HashMap::new(),
            local_work: HashMap::new(),
            local_flags: HashMap::new(),
            scripts: StrMap::new(),
            dialogue_idx: 0,
            finished: false,
        }
    }

    /// Stores `script` under `name` and starts it from its first line.
    pub fn load(&mut self, name: &str, script: Vec<ScriptCmd>)
        requires
            old(self).wf(),
        ensures
            final(self).wf(),
            final(self).current_script@ == name@,
            final(self).scripts.view() == old(self).scripts.view().insert(name@, script),
            final(self).current_line == 0,
            final(self).call_stack@.len() == 0,
            final(self).flags == old(self).flags,
            final(self).global_flags@ == old(self).global_flags@,
            final(self).local_work@ == old(self).local_work@,
            final(self).local_flags@ == old(self).local_flags@,
            final(self).dialogue_idx == old(self).dialogue_idx,
            final(self).finished == old(self).finished,
    {
        self.current_script = name.to_owned();
        let k = chars_of(name);
        self.scripts.insert(&k, script);
        self.current_line = 0;
        self.call_stack.clear();
    }

    /// The command at the current line.
    pub fn peek(&self) -> (r: Option<&ScriptCmd>)
        requires
            self.wf(),
        ensures
            r matches Some(c) ==> self.current_cmds() matches Some(cmds)
                && self.current_line < cmds.len() && *c == cmds[self.current_line as int],
            r is None ==> !(self.current_cmds() matches Some(cmds) && self.current_line < cmds.len()),
    {
        let k = chars_of(self.current_script.as_str());
        match self.scripts.get(&k) {
            Some(cmds) => {
                if self.current_line < cmds.len() {
                    Some(&cmds[self.current_line])
                } else {
                    None
                }
            },
            None => None,
        }
    }

    /// The command at the current line, moving past it.
    pub fn advance(&mut self) -> (r: Option<&ScriptCmd>)
        requires
            old(self).wf(),
        ensures
            final(self).wf(),
            final(self).same_data(old(self)),
            final(self).current_script == old(self).current_script,
            final(self).call_stack == old(self).call_stack,
            final(self).dialogue_idx == old(self).dialogue_idx,
            r matches Some(c) ==> old(self).current_cmds() matches Some(cmds)
                && old(self).current_line < cmds.len() && *c == cmds[old(self).current_line as int]
                && final(self).current_line == old(self).current_line + 1,
            r is None ==> !(old(self).current_cmds() matches Some(cmds) && old(self).current_line < cmds.len())
                && final(self).current_line == old(self).current_line,
    {
        let k = chars_of(self.current_script.as_str());
        let idx = self.current_line;
        match self.scripts.get(&k) {
            Some(cmds) => {
                if idx < cmds.len() {
                    self.current_line = idx + 1;
                    Some(&cmds[idx])
                } else {
                    None
                }
            },
            None => None,
        }
    }

    /// Whether the current script has a command at the current line.
    pub fn has_more(&self) -> (b: bool)
        requires
            self.wf(),
        ensures
            b == (self.current_cmds() matches Some(cmds) && self.current_line < cmds.len()),
    {
        let k = chars_of(self.current_script.as_str());
        match self.scripts.get(&k) {
            Some(cmds) => self.current_line < cmds.len(),
            None => false,
        }
    }

    /// The line after the first label named `label` in the current script.
    fn find_label(&self, label: &[char]) -> (r: Option<usize>)
        requires
            self.wf(),
        ensures
            r matches Some(l) ==> jump_target(self.pos(), self.script_table(), label@) == Some(l as int),
            r is None ==> jump_target(self.pos(), self.script_table(), label@) is None,
    {
        let k = chars_of(self.current_script.as_str());
        match self.scripts.get(&k) {
            Some(cmds) => {
                assert(self.script_table().dom().contains(k@));
                assert(self.script_table()[k@] == cmds@);
                let mut i: usize = 0;
                while i < cmds.len()
                    invariant
                        i <= cmds@.len(),
                        label_index(cmds@, label@) == label_index_from(cmds@, label@, i as int),
                        self.script_table().dom().contains(self.current_script@),
                        self.script_table()[self.current_script@] == cmds@,
                    decreases cmds@.len() - i,
                {
                    if let ScriptCmd::Label { name } = &cmds[i] {
                        let n = chars_of(name.as_str());
                        if eq(&n, label) {
                            assert(is_label_named(cmds@[i as int], label@));
                            return Some(i + 1);
                        }
                    }
                    i = i + 1;
                }
                None
            },
            None => None,
        }
    }

    /// Moves to the line after the first label named `label` in the current
    /// script; returns whether there is one.
    pub fn jump_to_label(&mut self, label: &str) -> (found: bool)
        requires
            old(self).wf(),
        ensures
            final(self).wf(),
            final(self).same_data(old(self)),
            final(self).dialogue_idx == old(self).dialogue_idx,
            found == (jump_target(old(self).pos(), old(self).script_table(), label@) is Some),
            final(self).pos() == jump_pos(old(self).pos(), old(self).script_table(), label@),
            final(self).current_script == old(self).current_script,
            final(self).call_stack == old(self).call_stack,
    {
        let l = chars_of(label);
        match self.find_label(&l) {
            Some(line) => {
                self.current_line = line;
                true
            },
            None => false,
        }
    }

    /// Jumps to the label and remembers where to return, where the label
    /// exists.
    pub fn call_label(&mut self, label: &str)
        requires
            old(self).wf(),
        ensures
            final(self).wf(),
            final(self).same_data(old(self)),
            final(self).dialogue_idx == old(self).dialogue_idx,
            final(self).pos() == call_label_pos(old(self).pos(), old(self).script_table(), label@),
    {
        let return_line = self.current_line;
        let ghost old_stack = self.stack_view();
        if self.jump_to_label(label) {
            let name = self.current_script.clone();
            self.call_stack.push((name, return_line));
            assert(self.stack_view() =~= old_stack.push((self.current_script@, return_line as int)));
        }
    }

    /// Switches to another loaded script (at `label`, or its start) and
    /// remembers where to return.  Does nothing where the script is not
    /// loaded.
    pub fn call_script(&mut self, script: &str, label: Option<&str>)
        requires
            old(self).wf(),
        ensures
            final(self).wf(),
            final(self).same_data(old(self)),
            final(self).pos() == call_script_pos(old(self).pos(), old(self).script_table(), script@,
                match label { Some(l) => Some(l@), None => None }),
            old(self).script_table().dom().contains(script@) ==> final(self).dialogue_idx == 0,
            !old(self).script_table().dom().contains(script@) ==> final(self).dialogue_idx == old(self).dialogue_idx,
    {
        let return_line = self.current_line;
        let return_script = self.current_script.clone();
        let ghost old_stack = self.stack_view();
        let ghost old_pos = self.pos();
        let k = chars_of(script);
        if self.scripts.contains_key(&k) {
            self.current_script = script.to_owned();
            self.dialogue_idx = 0;
            if let Some(lbl) = label {
                self.jump_to_label(lbl);
            } else {
                self.current_line = 0;
            }
            self.call_stack.push((return_script, return_line));
            assert(self.stack_view() =~= old_stack.push((old_pos.0, old_pos.1)));
        }
    }

    /// Goes back to the place saved by the last call, if any.
    pub fn return_from_call(&mut self)
        requires
            old(self).wf(),
        ensures
            final(self).wf(),
            final(self).same_data(old(self)),
            final(self).dialogue_idx == old(self).dialogue_idx,
            final(self).pos() == return_pos(old(self).pos()),
    {
        let ghost old_stack = self.stack_view();
        if let Some((script, line)) = self.call_stack.pop() {
            self.current_script = script;
            self.current_line = line;
            assert(self.stack_view() =~= old_stack.drop_last());
        }
    }
}

/// The first index at or after `i` that holds an ASCII digit.
pub open spec fn first_digit_from(s: Seq<char>, i: int) -> Option<int>
    decreases s.len() - i,
{
    if i < 0 || i >= s.len() {
        None
    } else if is_digit_spec(s[i]) {
        Some(i)
    } else {
        first_digit_from(s, i + 1)
    }
}

/// The number in a script name such as `aiy00010`: everything from the
/// first digit on, which must read as a `u32`.
pub open spec fn script_number(name: Seq<char>) -> Option<(int, int)> {
    match first_digit_from(name, 0) {
        Some(d) => if 0 <= d < name.len() {
            match parse_u32_spec(name.subrange(d, name.len() as int)) {
                Some(n) => Some((d, n)),
                None => None,
            }
        } else {
            None
        },
        None => None,
    }
}

/// The name of the script that follows `name`: its number plus ten,
/// zero-padded to the width the number had.
pub open spec fn next_script_name(name: Seq<char>) -> Option<Seq<char>> {
    match script_number(name) {
        Some((d, n)) => Some(name.subrange(0, d) + zero_pad(nat_digits((n + 10) as nat), (name.len() - d) as nat)),
        None => None,
    }
}

impl ScriptEngine {
    fn find_next_script(&self) -> (r: Option<Vec<char>>)
        requires
            self.wf(),
            script_number(self.current_script@) matches Some((d, n)) ==> n + 10 <= u32::MAX,
        ensures
            r matches Some(nm) ==> next_script_name(self.current_script@) == Some(nm@)
                && self.script_table().dom().contains(nm@),
            r is None ==> !(next_script_name(self.current_script@) matches Some(nm)
                && self.script_table().dom().contains(nm)),
    {
        let cur = chars_of(self.current_script.as_str());
        let mut i: usize = 0;
        while i < cur.len() && !is_digit(cur[i])
            invariant
                i <= cur@.len(),
                first_digit_from(cur@, 0) == first_digit_from(cur@, i as int),
            decreases cur@.len() - i,
        {
            i = i + 1;
        }
        if i >= cur.len() {
            return None;
        }
        let prefix = slice_of(&cur, 0, i);
        let num_part = tail(&cur, i);
        let width = num_part.len();
        let num = match parse_u32(&num_part) {
            Some(n) => n,
            None => return None,
        };
        let digits = u64_chars((num + 10) as u64);
        let padded = zero_pad_exec(&digits, width);
        let next_name = concat(&prefix, &padded);
        if self.scripts.contains_key(&next_name) {
            Some(next_name)
        } else {
            None
        }
    }

    /// Moves to the start of the script that follows the current one by
    /// number (`aiy00010` is followed by `aiy00020`), where it is loaded.
    pub fn next_script(&mut self) -> (moved: bool)
        requires
            old(self).wf(),
            script_number(old(self).current_script@) matches Some((d, n)) ==> n + 10 <= u32::MAX,
        ensures
            final(self).wf(),
            final(self).same_data(old(self)),
            final(self).call_stack == old(self).call_stack,
            moved == (next_script_name(old(self).current_script@) matches Some(nm)
                && old(self).script_table().dom().contains(nm)),
            moved ==> next_script_name(old(self).current_script@) == Some(final(self).current_script@)
                && final(self).current_line == 0 && final(self).dialogue_idx == 0,
            !moved ==> final(self).current_script == old(self).current_script
                && final(self).current_line == old(self).current_line
                && final(self).dialogue_idx == old(self).dialogue_idx,
    {
        match self.find_next_script() {
            Some(name) => {
                self.current_script = string_of(&name);
                self.current_line = 0;
                self.dialogue_idx = 0;
                true
            },
            None => false,
        }
    }
}

/// A call to a label that exists, then a return, comes back to where the
/// call was made.
pub proof fn law_call_label_return(p: Pos, scripts: Scripts, label: Seq<char>)
    requires
        jump_target(p, scripts, label) is Some,
    ensures
        return_pos(call_label_pos(p, scripts, label)) == p,
{
    assert(p.2.push((p.0, p.1)).drop_last() =~= p.2);
}

/// A call into a loaded script, then a return, comes back to where the call
/// was made, whether or not the label was found.
pub proof fn law_call_script_return(p: Pos, scripts: Scripts, script: Seq<char>, label: Option<Seq<char>>)
    requires
        scripts.dom().contains(script),
    ensures
        return_pos(call_script_pos(p, scripts, script, label)) == p,
{
    assert(p.2.push((p.0, p.1)).drop_last() =~= p.2);
}

/// A successful jump lands right after a label of that name, and no earlier
/// command of the script is such a label.
pub proof fn law_jump_lands_after_label(p: Pos, scripts: Scripts, label: Seq<char>)
    requires
        jump_target(p, scripts, label) is Some,
    ensures
        ({
            let q = jump_pos(p, scripts, label);
            let cmds = scripts[p.0];
            &&& q.0 == p.0
            &&& q.2 == p.2
            &&& 1 <= q.1 <= cmds.len()
            &&& is_label_named(cmds[q.1 - 1], label)
            &&& forall|k: int| 0 <= k < q.1 - 1 ==> !is_label_named(#[trigger] cmds[k], label)
        }),
{
    let cmds = scripts[p.0];
    lemma_label_index_from(cmds, label, 0);
    let i = label_index(cmds, label)->0;
    assert forall|k: int| 0 <= k < i implies !is_label_named(#[trigger] cmds[k], label) by {
        lemma_label_prefix(cmds, label, 0, k);
    }
}

proof fn lemma_label_prefix(cmds: Seq<ScriptCmd>, label: Seq<char>, i: int, k: int)
    requires
        0 <= i <= k,
        label_index_from(cmds, label, i) matches Some(j) && k < j,
    ensures
        !is_label_named(cmds[k], label),
    decreases k - i,
{
    if i < k {
        lemma_label_prefix(cmds, label, i + 1, k);
    }
}

} // verus!
