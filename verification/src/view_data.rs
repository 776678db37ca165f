//! The character-view table: for each character, the pictures and layout
//! of its view screen, and the pen animations that draw it.
use vstd::prelude::*;
use crate::number::{Real, RealV};
use crate::text::{chars_of, eq_str};

verus! {

/// The pictures and layout of one character's view screen.
#[derive(Clone, Copy)]
pub struct ViewEntry {
    pub name_file: &'static str,
    pub base_file: &'static str,
    pub mask_file: &'static str,
    pub name_w: u16,
    pub name_x: u16,
    pub pen_type: u8,
    pub window_color: u8,
}

pub struct ViewEntryV {
    pub name_file: Seq<char>,
    pub base_file: Seq<char>,
    pub mask_file: Seq<char>,
    pub name_w: u16,
    pub name_x: u16,
    pub pen_type: u8,
    pub window_color: u8,
}

impl View for ViewEntry {
    type V = ViewEntryV;

    open spec fn view(&self) -> ViewEntryV {
        ViewEntryV {
            name_file: self.name_file@,
            base_file: self.base_file@,
            mask_file: self.mask_file@,
            name_w: self.name_w,
            name_x: self.name_x,
            pen_type: self.pen_type,
            window_color: self.window_color,
        }
    }
}

pub open spec fn ventry(
    name_file: Seq<char>,
    base_file: Seq<char>,
    mask_file: Seq<char>,
    name_w: u16,
    name_x: u16,
    pen_type: u8,
    window_color: u8,
) -> ViewEntryV {
    ViewEntryV { name_file, base_file, mask_file, name_w, name_x, pen_type, window_color }
}

/// The view table, by character id.
pub open spec fn view_entry_spec(id: Seq<char>) -> Option<ViewEntryV> {
    if id == "OTH"@ {
        Some(ventry("view_name00"@, "view_base00"@, "view_mask02"@, 460, 718, 4, 2))
    } else if id == "EUS"@ {
        Some(ventry("view_name01"@, "view_base01"@, "view_mask02"@, 460, 718, 2, 3))
    } else if id == "ERI"@ {
        Some(ventry("view_name02"@, "view_base02"@, "view_mask02"@, 460, 718, 2, 3))
    } else if id == "IRE"@ {
        Some(ventry("view_name03"@, "view_base03"@, "view_mask02"@, 460, 718, 2, 3))
    } else if id == "LIC"@ {
        Some(ventry("view_name04"@, "view_base04"@, "view_mask01"@, 580, 598, 1, 3))
    } else if id == "FIO"@ {
        Some(ventry("view_name05"@, "view_base05"@, "view_mask02"@, 460, 718, 2, 3))
    } else if id == "EUSTIA"@ {
        Some(ventry("view_name06"@, "view_base01"@, "view_mask03"@, 220, 959, 3, 3))
    } else if id == "COL"@ {
        Some(ventry("view_name07"@, "view_base07"@, "view_mask03"@, 220, 959, 3, 3))
    } else if id == "LAV"@ {
        Some(ventry("view_name13"@, "view_base13"@, "view_mask03"@, 220, 959, 3, 3))
    } else if id == "LUC"@ {
        Some(ventry("view_name32"@, "view_base32"@, "view_mask01"@, 580, 598, 1, 1))
    } else if id == "VAR"@ {
        Some(ventry("view_name41"@, "view_base41"@, "view_mask02"@, 460, 718, 2, 1))
    } else if id == "ViewEnd"@ {
        Some(ventry("view_name99"@, "viewend_base"@, "view_mask02"@, 460, 718, 2, 0))
    } else {
        None
    }
}

fn entry(
    name_file: &'static str,
    base_file: &'static str,
    mask_file: &'static str,
    name_w: u16,
    name_x: u16,
    pen_type: u8,
    window_color: u8,
) -> (e: ViewEntry)
    ensures
        e@ == ventry(name_file@, base_file@, mask_file@, name_w, name_x, pen_type, window_color),
{
    ViewEntry { name_file, base_file, mask_file, name_w, name_x, pen_type, window_color }
}

/// The view entry of a character, by its id.
pub fn lookup_view_entry(char_id: &str) -> (r: Option<ViewEntry>)
    ensures
        match r {
            Some(e) => view_entry_spec(char_id@) == Some(e@),
            None => view_entry_spec(char_id@) is None,
        },
{
    let id = chars_of(char_id);
    if eq_str(&id, "OTH") {
        Some(entry("view_name00", "view_base00", "view_mask02", 460, 718, 4, 2))
    } else if eq_str(&id, "EUS") {
        Some(entry("view_name01", "view_base01", "view_mask02", 460, 718, 2, 3))
    } else if eq_str(&id, "ERI") {
        Some(entry("view_name02", "view_base02", "view_mask02", 460, 718, 2, 3))
    } else if eq_str(&id, "IRE") {
        Some(entry("view_name03", "view_base03", "view_mask02", 460, 718, 2, 3))
    } else if eq_str(&id, "LIC") {
        Some(entry("view_name04", "view_base04", "view_mask01", 580, 598, 1, 3))
    } else if eq_str(&id, "FIO") {
        Some(entry("view_name05", "view_base05", "view_mask02", 460, 718, 2, 3))
    } else if eq_str(&id, "EUSTIA") {
        Some(entry("view_name06", "view_base01", "view_mask03", 220, 959, 3, 3))
    } else if eq_str(&id, "COL") {
        Some(entry("view_name07", "view_base07", "view_mask03", 220, 959, 3, 3))
    } else if eq_str(&id, "LAV") {
        Some(entry("view_name13", "view_base13", "view_mask03", 220, 959, 3, 3))
    } else if eq_str(&id, "LUC") {
        Some(entry("view_name32", "view_base32", "view_mask01", 580, 598, 1, 1))
    } else if eq_str(&id, "VAR") {
        Some(entry("view_name41", "view_base41", "view_mask02", 460, 718, 2, 1))
    } else if eq_str(&id, "ViewEnd") {
        Some(entry("view_name99", "viewend_base", "view_mask02", 460, 718, 2, 0))
    } else {
        None
    }
}

/// One pen animation: the points its pen passes, and its timing in
/// milliseconds.
pub struct ViewTweenEntry {
    pub waypoints: Vec<(Real, Real)>,
    pub step_wait_ms: u64,
    pub step_duration_ms: u64,
    pub reveal_time_ms: u64,
}

pub struct ViewTweenV {
    pub waypoints: Seq<(RealV, RealV)>,
    pub step_wait_ms: u64,
    pub step_duration_ms: u64,
    pub reveal_time_ms: u64,
}

impl View for ViewTweenEntry {
    type V = ViewTweenV;

    open spec fn view(&self) -> ViewTweenV {
        ViewTweenV {
            waypoints: self.waypoints@.map_values(|p: (Real, Real)| (p.0@, p.1@)),
            step_wait_ms: self.step_wait_ms,
            step_duration_ms: self.step_duration_ms,
            reveal_time_ms: self.reveal_time_ms,
        }
    }
}

/// The points of pen animation 1.
pub open spec fn tween_points_1() -> Seq<(RealV, RealV)> {
    seq![
        (RealV::Lit("650.0"@), RealV::Lit("-100.0"@)),
        (RealV::Lit("300.0"@), RealV::Lit("50.0"@)),
        (RealV::Lit("-10.0"@), RealV::Lit("81.0"@)),
        (RealV::Lit("0.0"@), RealV::Lit("70.0"@)),
        (RealV::Lit("30.0"@), RealV::Lit("90.0"@)),
        (RealV::Lit("100.0"@), RealV::Lit("70.0"@)),
        (RealV::Lit("150.0"@), RealV::Lit("97.0"@)),
        (RealV::Lit("140.0"@), RealV::Lit("62.0"@)),
        (RealV::Lit("162.0"@), RealV::Lit("106.0"@)),
        (RealV::Lit("245.0"@), RealV::Lit("97.0"@)),
        (RealV::Lit("230.0"@), RealV::Lit("65.0"@)),
        (RealV::Lit("268.0"@), RealV::Lit("106.0"@)),
        (RealV::Lit("354.0"@), RealV::Lit("93.0"@)),
        (RealV::Lit("421.0"@), RealV::Lit("60.0"@)),
        (RealV::Lit("405.0"@), RealV::Lit("103.0"@)),
        (RealV::Lit("430.0"@), RealV::Lit("72.0"@)),
        (RealV::Lit("465.0"@), RealV::Lit("110.0"@)),
        (RealV::Lit("650.0"@), RealV::Lit("102.0"@)),
    ]
}

/// The points of pen animation 2.
pub open spec fn tween_points_2() -> Seq<(RealV, RealV)> {
    seq![
        (RealV::Lit("650.0"@), RealV::Lit("-100.0"@)),
        (RealV::Lit("300.0"@), RealV::Lit("50.0"@)),
        (RealV::Lit("136.0"@), RealV::Lit("81.0"@)),
        (RealV::Lit("180.0"@), RealV::Lit("62.0"@)),
        (RealV::Lit("214.0"@), RealV::Lit("106.0"@)),
        (RealV::Lit("218.0"@), RealV::Lit("82.0"@)),
        (RealV::Lit("389.0"@), RealV::Lit("106.0"@)),
        (RealV::Lit("401.0"@), RealV::Lit("63.0"@)),
        (RealV::Lit("485.0"@), RealV::Lit("72.0"@)),
        (RealV::Lit("495.0"@), RealV::Lit("110.0"@)),
        (RealV::Lit("650.0"@), RealV::Lit("62.0"@)),
    ]
}

/// The points of pen animation 3.
pub open spec fn tween_points_3() -> Seq<(RealV, RealV)> {
    seq![
        (RealV::Lit("650.0"@), RealV::Lit("-100.0"@)),
        (RealV::Lit("300.0"@), RealV::Lit("50.0"@)),
        (RealV::Lit("305.0"@), RealV::Lit("81.0"@)),
        (RealV::Lit("360.0"@), RealV::Lit("62.0"@)),
        (RealV::Lit("368.0"@), RealV::Lit("106.0"@)),
        (RealV::Lit("401.0"@), RealV::Lit("72.0"@)),
        (RealV::Lit("380.0"@), RealV::Lit("93.0"@)),
        (RealV::Lit("421.0"@), RealV::Lit("80.0"@)),
        (RealV::Lit("461.0"@), RealV::Lit("103.0"@)),
        (RealV::Lit("495.0"@), RealV::Lit("62.0"@)),
        (RealV::Lit("650.0"@), RealV::Lit("102.0"@)),
    ]
}

/// The points of pen animation 4.
pub open spec fn tween_points_4() -> Seq<(RealV, RealV)> {
    seq![
        (RealV::Lit("650.0"@), RealV::Lit("-100.0"@)),
        (RealV::Lit("300.0"@), RealV::Lit("50.0"@)),
        (RealV::Lit("136.0"@), RealV::Lit("81.0"@)),
        (RealV::Lit("180.0"@), RealV::Lit("62.0"@)),
        (RealV::Lit("214.0"@), RealV::Lit("106.0"@)),
        (RealV::Lit("218.0"@), RealV::Lit("82.0"@)),
        (RealV::Lit("389.0"@), RealV::Lit("106.0"@)),
        (RealV::Lit("401.0"@), RealV::Lit("93.0"@)),
        (RealV::Lit("485.0"@), RealV::Lit("102.0"@)),
        (RealV::Lit("495.0"@), RealV::Lit("62.0"@)),
        (RealV::Lit("650.0"@), RealV::Lit("102.0"@)),
    ]
}

/// The pen animations, numbered from 1.
pub open spec fn tween_spec(pen_type: int) -> Option<ViewTweenV> {

    if pen_type == 1 {
        Some(ViewTweenV { waypoints: tween_points_1(), step_wait_ms: 200, step_duration_ms: 81, reveal_time_ms: 1800 })
    } else if pen_type == 2 {
        Some(ViewTweenV { waypoints: tween_points_2(), step_wait_ms: 200, step_duration_ms: 111, reveal_time_ms: 1500 })
    } else if pen_type == 3 {
        Some(ViewTweenV { waypoints: tween_points_3(), step_wait_ms: 200, step_duration_ms: 111, reveal_time_ms: 1500 })
    } else if pen_type == 4 {
        Some(ViewTweenV { waypoints: tween_points_4(), step_wait_ms: 200, step_duration_ms: 111, reveal_time_ms: 1500 })
    } else {
        None
    }
}

fn tween_points_1_exec() -> (v: Vec<(Real, Real)>)
    ensures
        v@.map_values(|p: (Real, Real)| (p.0@, p.1@)) == tween_points_1(),
{
    let mut v: Vec<(Real, Real)> = Vec::new();
    v.push((Real::lit("650.0"), Real::lit("-100.0")));
    v.push((Real::lit("300.0"), Real::lit("50.0")));
    v.push((Real::lit("-10.0"), Real::lit("81.0")));
    v.push((Real::lit("0.0"), Real::lit("70.0")));
    v.push((Real::lit("30.0"), Real::lit("90.0")));
    v.push((Real::lit("100.0"), Real::lit("70.0")));
    v.push((Real::lit("150.0"), Real::lit("97.0")));
    v.push((Real::lit("140.0"), Real::lit("62.0")));
    v.push((Real::lit("162.0"), Real::lit("106.0")));
    v.push((Real::lit("245.0"), Real::lit("97.0")));
    v.push((Real::lit("230.0"), Real::lit("65.0")));
    v.push((Real::lit("268.0"), Real::lit("106.0")));
    v.push((Real::lit("354.0"), Real::lit("93.0")));
    v.push((Real::lit("421.0"), Real::lit("60.0")));
    v.push((Real::lit("405.0"), Real::lit("103.0")));
    v.push((Real::lit("430.0"), Real::lit("72.0")));
    v.push((Real::lit("465.0"), Real::lit("110.0")));
    v.push((Real::lit("650.0"), Real::lit("102.0")));
    assert(v@.map_values(|p: (Real, Real)| (p.0@, p.1@)) =~= tween_points_1());
    v
}

fn tween_points_2_exec() -> (v: Vec<(Real, Real)>)
    ensures
        v@.map_values(|p: (Real, Real)| (p.0@, p.1@)) == tween_points_2(),
{
    let mut v: Vec<(Real, Real)> = Vec::new();
    v.push((Real::lit("650.0"), Real::lit("-100.0")));
    v.push((Real::lit("300.0"), Real::lit("50.0")));
    v.push((Real::lit("136.0"), Real::lit("81.0")));
    v.push((Real::lit("180.0"), Real::lit("62.0")));
    v.push((Real::lit("214.0"), Real::lit("106.0")));
    v.push((Real::lit("218.0"), Real::lit("82.0")));
    v.push((Real::lit("389.0"), Real::lit("106.0")));
    v.push((Real::lit("401.0"), Real::lit("63.0")));
    v.push((Real::lit("485.0"), Real::lit("72.0")));
    v.push((Real::lit("495.0"), Real::lit("110.0")));
    v.push((Real::lit("650.0"), Real::lit("62.0")));
    assert(v@.map_values(|p: (Real, Real)| (p.0@, p.1@)) =~= tween_points_2());
    v
}

fn tween_points_3_exec() -> (v: Vec<(Real, Real)>)
    ensures
        v@.map_values(|p: (Real, Real)| (p.0@, p.1@)) == tween_points_3(),
{
    let mut v: Vec<(Real, Real)> = Vec::new();
    v.push((Real::lit("650.0"), Real::lit("-100.0")));
    v.push((Real::lit("300.0"), Real::lit("50.0")));
    v.push((Real::lit("305.0"), Real::lit("81.0")));
    v.push((Real::lit("360.0"), Real::lit("62.0")));
    v.push((Real::lit("368.0"), Real::lit("106.0")));
    v.push((Real::lit("401.0"), Real::lit("72.0")));
    v.push((Real::lit("380.0"), Real::lit("93.0")));
    v.push((Real::lit("421.0"), Real::lit("80.0")));
    v.push((Real::lit("461.0"), Real::lit("103.0")));
    v.push((Real::lit("495.0"), Real::lit("62.0")));
    v.push((Real::lit("650.0"), Real::lit("102.0")));
    assert(v@.map_values(|p: (Real, Real)| (p.0@, p.1@)) =~= tween_points_3());
    v
}

fn tween_points_4_exec() -> (v: Vec<(Real, Real)>)
    ensures
        v@.map_values(|p: (Real, Real)| (p.0@, p.1@)) == tween_points_4(),
{
    let mut v: Vec<(Real, Real)> = Vec::new();
    v.push((Real::lit("650.0"), Real::lit("-100.0")));
    v.push((Real::lit("300.0"), Real::lit("50.0")));
    v.push((Real::lit("136.0"), Real::lit("81.0")));
    v.push((Real::lit("180.0"), Real::lit("62.0")));
    v.push((Real::lit("214.0"), Real::lit("106.0")));
    v.push((Real::lit("218.0"), Real::lit("82.0")));
    v.push((Real::lit("389.0"), Real::lit("106.0")));
    v.push((Real::lit("401.0"), Real::lit("93.0")));
    v.push((Real::lit("485.0"), Real::lit("102.0")));
    v.push((Real::lit("495.0"), Real::lit("62.0")));
    v.push((Real::lit("650.0"), Real::lit("102.0")));
    assert(v@.map_values(|p: (Real, Real)| (p.0@, p.1@)) =~= tween_points_4());
    v
}

/// The pen animation of a view entry's pen type.  The pen type counts
/// from 1.
pub fn lookup_tween_entry(pen_type: u8) -> (r: Option<ViewTweenEntry>)
    requires
        pen_type >= 1,
    ensures
        match r {
            Some(e) => tween_spec(pen_type as int) == Some(e@),
            None => tween_spec(pen_type as int) is None,
        },
{
    if pen_type == 1 {
        Some(ViewTweenEntry { waypoints: tween_points_1_exec(), step_wait_ms: 200, step_duration_ms: 81, reveal_time_ms: 1800 })
    } else if pen_type == 2 {
        Some(ViewTweenEntry { waypoints: tween_points_2_exec(), step_wait_ms: 200, step_duration_ms: 111, reveal_time_ms: 1500 })
    } else if pen_type == 3 {
        Some(ViewTweenEntry { waypoints: tween_points_3_exec(), step_wait_ms: 200, step_duration_ms: 111, reveal_time_ms: 1500 })
    } else if pen_type == 4 {
        Some(ViewTweenEntry { waypoints: tween_points_4_exec(), step_wait_ms: 200, step_duration_ms: 111, reveal_time_ms: 1500 })
    } else {
        None
    }
}

} // verus!
