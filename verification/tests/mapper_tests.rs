use bevy_vn::asb::{AsbBlock, AsbCommand, AsbScript};
use bevy_vn::lua_config::GameConfig;
use bevy_vn::mapper::{map_command, map_script};
use bevy_vn::number::Real;
use bevy_vn::script::{OverlayColor, ScriptCmd};
use bevy_vn::strmap::StrMap;

fn real_value(r: &Real) -> f32 {
    match r {
        Real::Lit(t) => t.parse::<f32>().unwrap(),
        Real::Hundredth(t) => t.parse::<f32>().unwrap() / 100.0,
    }
}

fn cmd(tag: &str, attrs: Vec<(&str, &str)>) -> AsbCommand {
    let mut map = StrMap::new();
    for (k, v) in attrs {
        let key: Vec<char> = k.chars().collect();
        map.insert(&key, v.to_string());
    }
    AsbCommand { tag: tag.to_string(), attrs: map }
}

fn assert_wait(result: Option<Vec<ScriptCmd>>, expected: u64) {
    assert!(result.is_some());
    let cmds = result.unwrap();
    assert_eq!(cmds.len(), 1);
    assert!(matches!(&cmds[0], ScriptCmd::Wait { duration: d } if *d == expected));
}

fn assert_hide_fg(result: Option<Vec<ScriptCmd>>, expected: &str) {
    assert!(result.is_some());
    let cmds = result.unwrap();
    assert_eq!(cmds.len(), 1);
    assert!(matches!(&cmds[0], ScriptCmd::HideFg { char_id: ref c, .. } if c == expected));
}

fn choice_script(blocks: Vec<Vec<(&str, Vec<(&str, &str)>)>>) -> Vec<ScriptCmd> {
    let asb = AsbScript {
        blocks: blocks
            .into_iter()
            .map(|cmds| AsbBlock {
                label: "main".into(),
                commands: cmds.into_iter().map(|(tag, attrs)| cmd(tag, attrs)).collect(),
            })
            .collect(),
    };
    map_script(&asb, &GameConfig::default(), false)
}

#[test]
fn test_map_wait() {
    assert_wait(
        map_command("Wait", &cmd("Wait", vec![("0", "2000")]), &GameConfig::default()),
        2000,
    );
}

#[test]
fn test_map_wait_default() {
    assert_wait(
        map_command("Wait", &cmd("Wait", vec![]), &GameConfig::default()),
        1000,
    );
}

#[test]
fn test_map_voice() {
    let r = map_command("Voice", &cmd("Voice", vec![("0", "vo_001")]), &GameConfig::default());
    assert!(r.is_some());
    let cmds = r.unwrap();
    assert_eq!(cmds.len(), 1);
    assert!(matches!(&cmds[0], ScriptCmd::PlayVoice { ref file } if file == "vo_001"));
}

#[test]
fn test_map_tatifa() {
    let c = cmd("TatiFa", vec![("0", "001_eus"), ("1", "010003")]);
    let r = map_command("TatiFa", &c, &GameConfig::default());
    assert!(r.is_some());
    let cmds = r.unwrap();
    assert_eq!(cmds.len(), 1);
    assert!(matches!(&cmds[0], ScriptCmd::ShowFg { ref char_id, ref expression, .. }
        if char_id == "001_eus" && expression == "010003"));
}

#[test]
fn test_map_face() {
    let c = cmd("Face", vec![("0", "350101"), ("1", "000")]);
    let r = map_command("Face", &c, &GameConfig::default());
    assert!(r.is_some());
    let cmds = r.unwrap();
    assert_eq!(cmds.len(), 1);
    assert!(matches!(&cmds[0], ScriptCmd::ShowFace { ref char_id, ref expression }
        if char_id == "350101" && expression == "000"));
}

#[test]
fn test_map_clrface() {
    let r = map_command("ClrFace", &cmd("ClrFace", vec![]), &GameConfig::default());
    assert!(r.is_some());
    let cmds = r.unwrap();
    assert_eq!(cmds.len(), 1);
    assert!(matches!(&cmds[0], ScriptCmd::HideFace { .. }));
}

#[test]
fn test_map_clrtati() {
    assert_hide_fg(
        map_command("ClrTati", &cmd("ClrTati", vec![]), &GameConfig::default()),
        "all",
    );
}

#[test]
fn test_map_bgm_play() {
    let c = cmd("BgmPlay", vec![("1", "bgm_0101")]);
    let r = map_command("BgmPlay", &c, &GameConfig::default());
    assert!(r.is_some());
    let cmds = r.unwrap();
    assert_eq!(cmds.len(), 1);
    assert!(matches!(&cmds[0], ScriptCmd::PlayBgm { ref id, .. } if id == "bgm_0101"));
}

#[test]
fn test_map_bgm_stop() {
    let c = cmd("BgmStop", vec![("0", "bgm_0101")]);
    let r = map_command("BgmStop", &c, &GameConfig::default());
    assert!(r.is_some());
    let cmds = r.unwrap();
    assert_eq!(cmds.len(), 1);
    assert!(matches!(&cmds[0], ScriptCmd::StopBgm { id: None, .. }));
}

#[test]
fn test_map_se_play() {
    let c = cmd("SEPlay", vec![("0", "se_001")]);
    let r = map_command("SEPlay", &c, &GameConfig::default());
    assert!(r.is_some());
    let cmds = r.unwrap();
    assert_eq!(cmds.len(), 1);
    assert!(matches!(&cmds[0], ScriptCmd::PlaySe { ref file, .. } if file == "se_001"));
}

#[test]
fn test_map_return_main() {
    let c = cmd("return_main", vec![("0", "aiy00010")]);
    let r = map_command("return_main", &c, &GameConfig::default());
    assert!(r.is_some());
    let cmds = r.unwrap();
    assert_eq!(cmds.len(), 1);
    assert!(matches!(&cmds[0], ScriptCmd::Return));
}

#[test]
fn test_map_fadefilm_as_clear_overlay() {
    let r = map_command("FadeFilm", &cmd("FadeFilm", vec![("0", "1500")]), &GameConfig::default());
    assert!(r.is_some());
    let cmds = r.unwrap();
    assert_eq!(cmds.len(), 1);
    assert!(matches!(&cmds[0], ScriptCmd::ClearOverlay { time } if *time == 1500));
}

#[test]
fn test_map_msgon() {
    let r = map_command("msgon", &cmd("msgon", vec![]), &GameConfig::default());
    assert!(r.is_some());
    let cmds = r.unwrap();
    assert_eq!(cmds.len(), 1);
    assert!(matches!(&cmds[0], ScriptCmd::Window { show: true, .. }));
}

#[test]
fn test_draw_sprite() {
    let c = cmd("DrawSprite", vec![
        ("0", "01"), ("1", "sprite_01"), ("3", "100"), ("4", "200"),
        ("5", "50"), ("12", "255"), ("13", "10"), ("14", "300"),
    ]);
    let r = map_command("DrawSprite", &c, &GameConfig::default());
    assert!(r.is_some());
    let cmds = r.unwrap();
    assert_eq!(cmds.len(), 1);
    assert!(matches!(&cmds[0], ScriptCmd::DrawSprite { ref id, ref file, x, y, z, alpha, priority, time, rotation, anchor_x, anchor_y, blend_mode }
        if id == "01" && file == "sprite_01" && real_value(x) == 100.0 && real_value(y) == 200.0 && *z == 50 && *alpha == 255 && *priority == 10 && *time == 300
        && real_value(rotation) == 0.0 && real_value(anchor_x) == 0.5 && real_value(anchor_y) == 0.5 && *blend_mode == 0));
}

#[test]
fn test_draw_sprite_with_transform() {
    let c = cmd("DrawSprite", vec![
        ("0", "fx_01"), ("1", "sparkle"), ("2", "1"), ("3", "400"), ("4", "300"),
        ("5", "10"), ("6", "45.0"), ("7", "0.5"), ("8", "0.0"), ("12", "200"),
        ("13", "5"), ("14", "500"),
    ]);
    let r = map_command("DrawSprite", &c, &GameConfig::default());
    assert!(r.is_some());
    let cmds = r.unwrap();
    assert_eq!(cmds.len(), 1);
    assert!(matches!(&cmds[0], ScriptCmd::DrawSprite { ref id, ref file, x, y, z, alpha, priority, time, rotation, anchor_x, anchor_y, blend_mode }
        if id == "fx_01" && file == "sparkle" && real_value(x) == 400.0 && real_value(y) == 300.0 && *z == 10
        && *alpha == 200 && *priority == 5 && *time == 500
        && real_value(rotation) == 45.0 && real_value(anchor_x) == 0.5 && real_value(anchor_y) == 0.0 && *blend_mode == 1));
}

#[test]
fn test_fade_sprite() {
    let c = cmd("FadeSprite", vec![("0", "01"), ("1", "500")]);
    let r = map_command("FadeSprite", &c, &GameConfig::default());
    assert!(r.is_some());
    let cmds = r.unwrap();
    assert_eq!(cmds.len(), 1);
    assert!(matches!(&cmds[0], ScriptCmd::FadeSprite { ref id, time }
        if id == "01" && *time == 500));
}

#[test]
fn test_move_sprite() {
    let c = cmd("MoveSprite", vec![
        ("0", "01"), ("1", "300"), ("2", "400"), ("3", "0"),
        ("5", "128"), ("8", "1000"), ("9", "TRUE"),
    ]);
    let r = map_command("MoveSprite", &c, &GameConfig::default());
    assert!(r.is_some());
    let cmds = r.unwrap();
    assert_eq!(cmds.len(), 1);
    assert!(matches!(&cmds[0], ScriptCmd::MoveSprite { ref id, x, y, z, alpha, time, wait }
        if id == "01" && real_value(x) == 300.0 && real_value(y) == 400.0 && *z == 0 && *alpha == 128 && *time == 1000 && *wait));
}

#[test]
fn test_map_dialogue_sequence() {
    let asb = AsbScript {
        blocks: vec![AsbBlock {
            label: "main".into(),
            commands: vec![
                cmd("name", vec![("0", "ナユタ")]),
                cmd("print", vec![("data", "目が覚めたか。")]),
                cmd("click", vec![]),
                cmd("rp2", vec![]),
                cmd("print", vec![("data", "調子はどうだ？")]),
                cmd("click", vec![]),
                cmd("rp2", vec![]),
            ],
        }],
    };
    let result = map_script(&asb, &GameConfig::default(), false);
    assert_eq!(result.len(), 3);
    assert!(matches!(&result[0], ScriptCmd::Label { name } if name == "main"));
    assert!(
        matches!(&result[1], ScriptCmd::Dialogue { speaker: Some(s), text } if s == "ナユタ" && text == "目が覚めたか。")
    );
    assert!(
        matches!(&result[2], ScriptCmd::Dialogue { speaker: None, text } if text == "調子はどうだ？")
    );
}

#[test]
fn test_map_script_emits_labels() {
    let asb = AsbScript {
        blocks: vec![AsbBlock {
            label: "main".into(),
            commands: vec![],
        }],
    };
    let result = map_script(&asb, &GameConfig::default(), false);
    assert_eq!(result.len(), 1);
    assert!(matches!(&result[0], ScriptCmd::Label { name } if name == "main"));
}

#[test]
fn test_map_calllua_set_bg() {
    let c = cmd("calllua", vec![("function", "set_bg"), ("file", "bg_0001")]);
    let result = map_command("calllua", &c, &GameConfig::default());
    assert!(result.is_some());
    let cmds = result.unwrap();
    assert_eq!(cmds.len(), 1);
    assert!(matches!(&cmds[0], ScriptCmd::SetBg { ref file, .. } if file == "bg_0001"));
}

#[test]
fn test_map_blackout() {
    let cmd = cmd("Blackout", vec![("0", "1500")]);
    let result = map_command("Blackout", &cmd, &GameConfig::default());
    assert!(result.is_some());
    let commands = result.unwrap();
    assert_eq!(commands.len(), 1);
    match &commands[0] {
        ScriptCmd::ScreenOverlay { color, time } => {
            assert!(matches!(color, OverlayColor::Black));
            assert_eq!(*time, 1500);
        }
        _ => panic!("Expected ScreenOverlay"),
    }
}

#[test]
fn test_map_fadeout_black() {
    let cmd = cmd("Fadeout", vec![("0", "BLACK"), ("1", "FAST")]);
    let result = map_command("Fadeout", &cmd, &GameConfig::default());
    assert!(result.is_some());
    let commands = result.unwrap();
    assert_eq!(commands.len(), 4);
    assert!(matches!(&commands[0], ScriptCmd::ScreenOverlay { .. }));
    assert!(matches!(&commands[1], ScriptCmd::Wait { .. }));
    assert!(matches!(&commands[2], ScriptCmd::SetBg { .. }));
    assert!(matches!(&commands[3], ScriptCmd::ClearOverlay { .. }));
}

#[test]
fn test_map_window_off() {
    let cmd = cmd("Window", vec![("0", "OFF")]);
    let result = map_command("Window", &cmd, &GameConfig::default());
    assert!(result.is_some());
    let commands = result.unwrap();
    assert_eq!(commands.len(), 1);
    match &commands[0] {
        ScriptCmd::Window { show, .. } => assert!(!show),
        _ => panic!("Expected Window"),
    }
}

#[test]
fn test_map_change_window_color() {
    let cmd = cmd("ChangeWindowColor", vec![("0", "2")]);
    let result = map_command("ChangeWindowColor", &cmd, &GameConfig::default());
    assert!(result.is_some());
    let commands = result.unwrap();
    assert_eq!(commands.len(), 1);
    match &commands[0] {
        ScriptCmd::ChangeWindowColor { color_idx } => assert_eq!(*color_idx, 2),
        _ => panic!("Expected ChangeWindowColor"),
    }
}

// ── Choice / exswitch tests ──

#[test]
fn test_choice_basic_two_options() {
    let result = choice_script(vec![vec![
        ("sel_init", vec![]),
        ("sel_text", vec![("text", "选项A"), ("exp", "t.ens:0")]),
        ("sel_text", vec![("text", "选项B"), ("exp", "t.ens:1")]),
        ("select", vec![]),
    ]]);
    let choice_idx = result.iter().position(|c| matches!(c, ScriptCmd::Choice { .. }))
        .expect("Should have a Choice command");
    if let ScriptCmd::Choice { options } = &result[choice_idx] {
        assert_eq!(options.len(), 2);
        assert_eq!(options[0].text, "选项A");
        assert_eq!(options[1].text, "选项B");
        assert!(options[0].goto.is_none());
        assert!(options[1].goto.is_none());
    } else {
        panic!("Expected Choice");
    }
}

#[test]
fn test_choice_ignores_sel_init_select() {
    let result = choice_script(vec![vec![
        ("sel_init", vec![]),
        ("sel_text", vec![("text", "选项")]),
        ("select", vec![]),
        ("Select", vec![]),
    ]]);
    let choice_count = result.iter().filter(|c| matches!(c, ScriptCmd::Choice { .. })).count();
    assert_eq!(choice_count, 1);
    // sel_init, Select should not appear in output
    let labels = result.iter().filter(|c| matches!(c, ScriptCmd::Label { .. }));
    assert!(labels.count() >= 1);
}

#[test]
fn test_choice_with_exswitch_goto() {
    let result = choice_script(vec![vec![
        ("sel_init", vec![]),
        ("sel_text", vec![("text", "行く"), ("exp", "t.ens:0")]),
        ("sel_text", vec![("text", "止まる"), ("exp", "t.ens:1")]),
        ("select", vec![]),
        ("Select", vec![]),
        ("exswitch", vec![("data", "t.tmp<>0:route_a<>1:route_b<>default:route_default")]),
    ]]);
    let choice_idx = result.iter().position(|c| matches!(c, ScriptCmd::Choice { .. }))
        .expect("Should have a Choice command");
    if let ScriptCmd::Choice { options } = &result[choice_idx] {
        assert_eq!(options.len(), 2);
        assert_eq!(options[0].goto.as_deref(), Some("route_a"));
        assert_eq!(options[1].goto.as_deref(), Some("route_b"));
    } else {
        panic!("Expected Choice");
    }
}

#[test]
fn test_choice_exswitch_default_fallback() {
    let result = choice_script(vec![vec![
        ("sel_init", vec![]),
        ("sel_text", vec![("text", "X"), ("exp", "t.ens:0")]),
        ("sel_text", vec![("text", "Y"), ("exp", "t.ens:2")]),
        ("select", vec![]),
        ("Select", vec![]),
        ("exswitch", vec![("data", "t.tmp<>0:zero_path<>default:fallback")]),
    ]]);
    let choice_idx = result.iter().position(|c| matches!(c, ScriptCmd::Choice { .. }))
        .expect("Should have a Choice command");
    if let ScriptCmd::Choice { options } = &result[choice_idx] {
        assert_eq!(options.len(), 2);
        assert_eq!(options[0].goto.as_deref(), Some("zero_path"));
        assert_eq!(options[1].goto.as_deref(), Some("fallback"));
    } else {
        panic!("Expected Choice");
    }
}

#[test]
fn test_choice_exswitch_cross_block() {
    let asb = AsbScript {
        blocks: vec![
            AsbBlock {
                label: "main".into(),
                commands: vec![
                    cmd("sel_init", vec![]),
                    cmd("sel_text", vec![("text", "是"), ("exp", "t.ens:0")]),
                    cmd("sel_text", vec![("text", "否"), ("exp", "t.ens:1")]),
                    cmd("select", vec![]),
                ],
            },
            AsbBlock {
                label: "SelectItem000001".into(),
                commands: vec![
                    cmd("Select", vec![]),
                    cmd("exswitch", vec![("data", "t.tmp<>0:yes_branch<>1:no_branch<>default:common")]),
                ],
            },
        ],
    };
    let result = map_script(&asb, &GameConfig::default(), false);
    let choice_idx = result.iter().position(|c| matches!(c, ScriptCmd::Choice { .. }))
        .expect("Should have a Choice command");
    if let ScriptCmd::Choice { options } = &result[choice_idx] {
        assert_eq!(options.len(), 2);
        assert_eq!(options[0].goto.as_deref(), Some("yes_branch"));
        assert_eq!(options[1].goto.as_deref(), Some("no_branch"));
    } else {
        panic!("Expected Choice");
    }
}

#[test]
fn test_choice_no_exswitch() {
    let result = choice_script(vec![vec![
        ("sel_init", vec![]),
        ("sel_text", vec![("text", "继续"), ("exp", "t.ens:0")]),
        ("select", vec![]),
        // No exswitch — goto remains None
    ]]);
    let choice_idx = result.iter().position(|c| matches!(c, ScriptCmd::Choice { .. }))
        .expect("Should have a Choice command");
    if let ScriptCmd::Choice { options } = &result[choice_idx] {
        assert_eq!(options.len(), 1);
        assert!(options[0].goto.is_none());
    } else {
        panic!("Expected Choice");
    }
}

#[test]
fn test_choice_empty_exp_values() {
    let result = choice_script(vec![vec![
        ("sel_init", vec![]),
        ("sel_text", vec![("text", "A")]),  // no exp attribute
        ("sel_text", vec![("text", "B")]),  // no exp attribute
        ("select", vec![]),
        ("Select", vec![]),
        ("exswitch", vec![("data", "t.tmp<>0:branch_0<>1:branch_1<>default:fallback")]),
    ]]);
    let choice_idx = result.iter().position(|c| matches!(c, ScriptCmd::Choice { .. }))
        .expect("Should have a Choice command");
    if let ScriptCmd::Choice { options } = &result[choice_idx] {
        assert_eq!(options.len(), 2);
        // Without exp values, fall back to index-based mapping
        assert_eq!(options[0].goto.as_deref(), Some("branch_0"));
        assert_eq!(options[1].goto.as_deref(), Some("branch_1"));
    } else {
        panic!("Expected Choice");
    }
}

// ── Local work / flag map_command tests ──

#[test]
fn test_map_store_value_to_local_work() {
    let c = cmd("StoreValueToLocalWork", vec![("0", "1"), ("1", "5")]);
    let r = map_command("StoreValueToLocalWork", &c, &GameConfig::default());
    assert!(r.is_some());
    let cmds = r.unwrap();
    assert_eq!(cmds.len(), 1);
    assert!(matches!(&cmds[0], ScriptCmd::StoreValueToLocalWork { index, value, expression }
        if *index == 1 && *value == 5 && expression.is_none()));
}

#[test]
fn test_map_store_value_to_local_work_expression() {
    let c = cmd("StoreValueToLocalWork", vec![("0", "1"), ("1", "t.tmp+1")]);
    let r = map_command("StoreValueToLocalWork", &c, &GameConfig::default());
    assert!(r.is_some());
    let cmds = r.unwrap();
    assert_eq!(cmds.len(), 1);
    assert!(matches!(&cmds[0], ScriptCmd::StoreValueToLocalWork { index, value, expression }
        if *index == 1 && *value == 0 && expression.as_deref() == Some("t.tmp+1")));
}

#[test]
fn test_map_store_value_to_local_work_expression_plus2() {
    let c = cmd("StoreValueToLocalWork", vec![("0", "4"), ("1", "t.tmp+2")]);
    let r = map_command("StoreValueToLocalWork", &c, &GameConfig::default());
    assert!(r.is_some());
    let cmds = r.unwrap();
    assert_eq!(cmds.len(), 1);
    assert!(matches!(&cmds[0], ScriptCmd::StoreValueToLocalWork { index, value, expression }
        if *index == 4 && *value == 0 && expression.as_deref() == Some("t.tmp+2")));
}

#[test]
fn test_map_load_value_from_local_work() {
    let c = cmd("LoadValueFromLocalWork", vec![("0", "3")]);
    let r = map_command("LoadValueFromLocalWork", &c, &GameConfig::default());
    assert!(r.is_some());
    let cmds = r.unwrap();
    assert_eq!(cmds.len(), 1);
    assert!(matches!(&cmds[0], ScriptCmd::LoadValueFromLocalWork { index }
        if *index == 3));
}

#[test]
fn test_map_get_local_flag() {
    let c = cmd("GetLocalFlag", vec![("0", "42")]);
    let r = map_command("GetLocalFlag", &c, &GameConfig::default());
    assert!(r.is_some());
    let cmds = r.unwrap();
    assert_eq!(cmds.len(), 1);
    assert!(matches!(&cmds[0], ScriptCmd::GetLocalFlag { index }
        if *index == 42));
}

#[test]
fn test_map_set_local_flag() {
    let c = cmd("SetLocalFlag", vec![("0", "7"), ("1", "1")]);
    let r = map_command("SetLocalFlag", &c, &GameConfig::default());
    assert!(r.is_some());
    let cmds = r.unwrap();
    assert_eq!(cmds.len(), 1);
    assert!(matches!(&cmds[0], ScriptCmd::SetLocalFlag { index, value }
        if *index == 7 && *value == 1));
}

#[test]
fn test_map_get_global_flag() {
    let c = cmd("GetGlobalFlag", vec![("0", "51")]);
    let r = map_command("GetGlobalFlag", &c, &GameConfig::default());
    assert!(r.is_some());
    let cmds = r.unwrap();
    assert_eq!(cmds.len(), 1);
    assert!(matches!(&cmds[0], ScriptCmd::GetGlobalFlag { index }
        if *index == 51));
}

#[test]
fn test_map_save_point() {
    let c = cmd("SavePoint", vec![]);
    let r = map_command("SavePoint", &c, &GameConfig::default());
    assert!(r.is_some());
    let cmds = r.unwrap();
    assert_eq!(cmds.len(), 1);
    assert!(matches!(&cmds[0], ScriptCmd::SavePoint));
}

#[test]
fn test_map_refresh_is_ignored() {
    let c = cmd("Refresh", vec![]);
    let r = map_command("Refresh", &c, &GameConfig::default());
    assert!(r.is_none());
}
