use bevy_vn::iet::{parse_attrs, parse_condition_ext, parse_iet_content, IetError};
use bevy_vn::number::Real;
use bevy_vn::script::{ConditionOp, ScriptCmd};

fn real_value(r: &Real) -> f32 {
    match r {
        Real::Lit(t) => t.parse::<f32>().unwrap(),
        Real::Hundredth(t) => t.parse::<f32>().unwrap() / 100.0,
    }
}

#[test]
fn test_parse_simple_iet() {
    let input = r#"
*main
[CallScript aiy00010]
[CallScript aiy00020]
[TerminateExecutionOfScript]
"#;
    let result = parse_iet_content(input, false).unwrap();
    assert!(matches!(&result[0], ScriptCmd::Label { name } if name == "main"));
    assert!(matches!(&result[1], ScriptCmd::CallScript { script, .. } if script == "aiy00010"));
    assert!(matches!(&result[2], ScriptCmd::CallScript { script, .. } if script == "aiy00020"));
    assert!(matches!(&result[3], ScriptCmd::Halt));
}

#[test]
fn test_parse_if_else() {
    let input = r#"
*main
[LoadValueFromLocalWork 9]
[if estimate="$t.tmp == 0"]
[CallScript aiy10230]
[TerminateExecutionOfScript]
[else]
[CallScript aiy10200]
[/if]
[CallScript aiy20010]
"#;
    let result = parse_iet_content(input, false).unwrap();

    let labels: Vec<&str> = result
        .iter()
        .filter_map(|c| match c {
            ScriptCmd::Label { name } => Some(name.as_str()),
            _ => None,
        })
        .collect();
    assert!(labels.contains(&"iet_else_0"));
    assert!(labels.contains(&"iet_endif_0"));

    let has_condition = result.iter().any(|c| matches!(c, ScriptCmd::Condition { var, operator: ConditionOp::NotEqual, value: 0, goto } if var == "tmp" && goto == "iet_else_0"));
    assert!(has_condition, "Should have NotEqual condition jumping to else label");

    let has_jump_endif = result.iter().any(|c| matches!(c, ScriptCmd::Jump { target } if target == "iet_endif_0"));
    assert!(has_jump_endif, "Then block should jump to endif");
}

#[test]
fn test_parse_if_without_else() {
    let input = r#"
*main
[GetLocalFlag 202]
[if estimate="$t.tmp != 0"]
[CallScript aiy20220]
[/if]
[CallScript aiy20230]
"#;
    let result = parse_iet_content(input, false).unwrap();

    let has_condition = result.iter().any(|c| matches!(c, ScriptCmd::Condition { operator: ConditionOp::Equal, value: 0, .. }));
    assert!(has_condition, "!= 0 should negate to Equal 0");
}

#[test]
fn test_nested_if() {
    let input = r#"
*main
[GetLocalFlag 203]
[if estimate="$t.tmp != 0"]
[CallScript aiy30280]
[TerminateExecutionOfScript]
[else]
[GetLocalFlag 206]
[if estimate="$t.tmp != 0"]
[CallScript aiy30280a]
[TerminateExecutionOfScript]
[else]
[CallScript aiy30270]
[/if]
[/if]
"#;
    let result = parse_iet_content(input, false).unwrap();
    let labels: Vec<&str> = result
        .iter()
        .filter_map(|c| match c {
            ScriptCmd::Label { name } => Some(name.as_str()),
            _ => None,
        })
        .collect();
    assert!(labels.contains(&"iet_else_0"));
    assert!(labels.contains(&"iet_endif_0"));
    assert!(labels.contains(&"iet_else_1"));
    assert!(labels.contains(&"iet_endif_1"));
}

#[test]
fn test_store_load_localwork() {
    let input = r#"
*main
[StoreValueToLocalWork 1 0]
[StoreValueToLocalWork 4 0]
[LoadValueFromLocalWork 9]
"#;
    let result = parse_iet_content(input, false).unwrap();
    assert!(result.iter().any(|c| matches!(c, ScriptCmd::StoreValueToLocalWork { index: 1, value: 0, .. })));
    assert!(result.iter().any(|c| matches!(c, ScriptCmd::StoreValueToLocalWork { index: 4, value: 0, .. })));
    assert!(result.iter().any(|c| matches!(c, ScriptCmd::LoadValueFromLocalWork { index: 9 })));
}

#[test]
fn test_condition_negation() {
    let (op, val) = parse_condition_ext("$t.tmp == 0").unwrap();
    assert!(matches!(op, ConditionOp::NotEqual));
    assert_eq!(val, 0);

    let (op, val) = parse_condition_ext("$t.tmp != 0").unwrap();
    assert!(matches!(op, ConditionOp::Equal));
    assert_eq!(val, 0);

    let (op, val) = parse_condition_ext("$t.tmp >= 3").unwrap();
    assert!(matches!(op, ConditionOp::Less));
    assert_eq!(val, 3);
}

#[test]
fn test_return_command() {
    let input = "*main\n[return]\n";
    let result = parse_iet_content(input, false).unwrap();
    assert!(matches!(&result[0], ScriptCmd::Label { name } if name == "main"));
    assert!(matches!(&result[1], ScriptCmd::Return));
}

#[test]
fn test_jump_command() {
    let input = r#"[jump label="target_label"]"#;
    let result = parse_iet_content(input, false).unwrap();
    assert!(matches!(&result[0], ScriptCmd::Jump { target } if target == "target_label"));
}

#[test]
fn test_stop_command() {
    let input = "[stop]";
    let result = parse_iet_content(input, false).unwrap();
    assert!(matches!(&result[0], ScriptCmd::Halt));
}

#[test]
fn test_wait_command() {
    let input = r#"[wait time="1000"]"#;
    let result = parse_iet_content(input, false).unwrap();
    assert!(matches!(&result[0], ScriptCmd::Wait { duration: 1000 }));
}

#[test]
fn test_wt_commands() {
    let input = "[wt]\n[wt0]";
    let result = parse_iet_content(input, false).unwrap();
    assert!(matches!(&result[0], ScriptCmd::Wait { duration: 500 }));
    assert!(matches!(&result[1], ScriptCmd::Wait { duration: 0 }));
}

#[test]
fn test_calllua_choice() {
    let input = r#"[calllua function="tags.choice"]"#;
    let result = parse_iet_content(input, false).unwrap();
    assert!(matches!(&result[0], ScriptCmd::Choice { .. }));
}

#[test]
fn test_system_if_condition() {
    let input = "[if estimate=\"$s.status.commandskip == 1\"]\n[CallScript aiy00010]\n[/if]";
    let result = parse_iet_content(input, false).unwrap();
    assert!(result.iter().any(|c| matches!(c, ScriptCmd::Condition { .. })));
}

#[test]
fn test_or_condition() {
    let input = "[if estimate=\"$t.tmp == 0 || s.status.controlskip == 1\"]\n[CallScript aiy00010]\n[/if]";
    let result = parse_iet_content(input, false).unwrap();
    assert!(result.iter().any(|c| matches!(c, ScriptCmd::Condition { .. })));
}

#[test]
fn test_calllua_set_bg() {
    let input = r#"[calllua function="set_bg" file="bg_0001"]"#;
    let result = parse_iet_content(input, false).unwrap();
    assert!(matches!(&result[0], ScriptCmd::SetBg { file, .. } if file == "bg_0001"));
}

#[test]
fn test_calllua_voice_play() {
    let input = r#"[calllua function="voice_play" file="aiy010000010"]"#;
    let result = parse_iet_content(input, false).unwrap();
    assert!(matches!(&result[0], ScriptCmd::PlayVoice { file } if file == "aiy010000010"));
}

#[test]
fn test_calllua_save_point() {
    let input = r#"[calllua function="quicksave"]"#;
    let result = parse_iet_content(input, false).unwrap();
    assert!(matches!(&result[0], ScriptCmd::SavePoint));
}

#[test]
fn test_calllua_affection() {
    let input = r#"[calllua function="affection_change" char_id="01" delta="1"]"#;
    let result = parse_iet_content(input, false).unwrap();
    assert!(matches!(&result[0], ScriptCmd::AffectionChange { char_id, delta } if char_id == "01" && *delta == 1));
}

#[test]
fn test_calllua_bgm_play() {
    let input = r#"[calllua function="bgm_play" file="bgm_0101" vol="80"]"#;
    let result = parse_iet_content(input, false).unwrap();
    assert!(matches!(&result[0], ScriptCmd::PlayBgm { id, volume: Some(v), .. } if id == "bgm_0101" && real_value(v) == 0.8));
}

#[test]
fn test_parse_attrs_quoted() {
    let attrs = parse_attrs(r#"function="hello" id="123" mode="enable""#);
    assert_eq!(attrs.get_str("function").unwrap(), "hello");
    assert_eq!(attrs.get_str("id").unwrap(), "123");
    assert_eq!(attrs.get_str("mode").unwrap(), "enable");
}

#[test]
fn test_parse_attrs_mixed() {
    let attrs = parse_attrs(r#"id="1.120" mode="disable""#);
    assert_eq!(attrs.get_str("id").unwrap(), "1.120");
    assert_eq!(attrs.get_str("mode").unwrap(), "disable");
}

#[test]
fn test_set_global_flag() {
    let input = "[SetGlobalFlag 55 1]";
    let result = parse_iet_content(input, false).unwrap();
    assert!(matches!(&result[0], ScriptCmd::SetGlobalFlag { index: 55, value: 1 }));
}

#[test]
fn test_call_command() {
    let input = "[call some_label]";
    let result = parse_iet_content(input, false).unwrap();
    assert!(matches!(&result[0], ScriptCmd::Call { target } if target == "some_label"));
}

#[test]
fn test_calllua_hide_fg() {
    let input = r#"[calllua function="hide_fg" id="350101"]"#;
    let result = parse_iet_content(input, false).unwrap();
    assert!(matches!(&result[0], ScriptCmd::HideFg { char_id, .. } if char_id == "350101"));
}

#[test]
fn test_calllua_wait_tag() {
    let input = r#"[calllua function="tags.wt" time="2000"]"#;
    let result = parse_iet_content(input, false).unwrap();
    assert!(matches!(&result[0], ScriptCmd::Wait { duration: 2000 }));
}

#[test]
fn iet_else_without_if_is_an_error() {
    let result = parse_iet_content("[else]", false);
    assert!(matches!(result, Err(IetError::ElseWithoutIf)));
}

#[test]
fn iet_unreadable_condition_is_skipped() {
    let input = "[if estimate=\"$t.tmp ~ 1\"]\n[CallScript aiy00010]";
    let result = parse_iet_content(input, false).unwrap();
    assert!(!result.iter().any(|c| matches!(c, ScriptCmd::Condition { .. })));
    // The skipped [if] opens no block, so its [/if] has nothing to close.
    let closed = "[if estimate=\"$t.tmp ~ 1\"]\n[CallScript aiy00010]\n[/if]";
    assert!(matches!(parse_iet_content(closed, false), Err(IetError::EndIfWithoutIf)));
}

#[test]
fn condition_value_must_be_a_number() {
    assert!(parse_condition_ext("$t.tmp == x").is_err());
}

#[test]
fn store_with_bad_index_is_an_error() {
    let result = parse_iet_content("[StoreValueToLocalWork x 1]", false);
    assert!(matches!(result, Err(IetError::InvalidStoreIndex)));
}

#[test]
fn store_with_bad_value_is_an_error() {
    let result = parse_iet_content("[StoreValueToLocalWork 1 abc]", false);
    assert!(matches!(result, Err(IetError::InvalidStoreValue)));
}

#[test]
fn load_with_bad_index_is_an_error() {
    let result = parse_iet_content("[LoadValueFromLocalWork -1]", false);
    assert!(matches!(result, Err(IetError::InvalidLoadIndex)));
}

#[test]
fn flag_with_bad_index_is_an_error() {
    let result = parse_iet_content("[GetLocalFlag q]", false);
    assert!(matches!(result, Err(IetError::InvalidFlagIndex)));
}

#[test]
fn if_without_estimate_is_an_error() {
    let result = parse_iet_content("[if foo]", false);
    assert!(matches!(result, Err(IetError::MissingCondition)));
}

#[test]
fn endif_without_if_is_an_error() {
    let result = parse_iet_content("[/if]", false);
    assert!(matches!(result, Err(IetError::EndIfWithoutIf)));
}

#[test]
fn unclosed_if_is_an_error() {
    let result = parse_iet_content("[if estimate=\"$t.tmp == 0\"]\n[CallScript aiy00010]", false);
    assert!(matches!(result, Err(IetError::UnclosedIf)));
}

#[test]
fn store_with_expression_keeps_it() {
    let result = parse_iet_content("[StoreValueToLocalWork 2 t.tmp+1]", false).unwrap();
    assert!(matches!(&result[0], ScriptCmd::StoreValueToLocalWork { index: 2, value: 0, expression: Some(e) } if e == "t.tmp+1"));
}

#[test]
fn every_if_jump_lands_on_a_label() {
    let input = "[if estimate=\"$t.tmp == 1\"]\n[if estimate=\"$t.tmp > 2\"]\n[CallScript a]\n[else]\n[CallScript b]\n[/if]\n[/if]\n[if estimate=\"$t.tmp != 0\"]\n[else]\n[/if]";
    let out = parse_iet_content(input, false).unwrap();
    let labels: Vec<&String> = out
        .iter()
        .filter_map(|c| match c {
            ScriptCmd::Label { name } => Some(name),
            _ => None,
        })
        .collect();
    let mut conditions = 0;
    for c in &out {
        if let ScriptCmd::Condition { goto, .. } = c {
            conditions += 1;
            assert!(labels.contains(&goto), "{goto} has no label");
        }
    }
    assert_eq!(conditions, 3);
}

#[test]
fn a_system_condition_never_skips_its_block() {
    assert_eq!(parse_condition_ext("$s.status.commandskip == 1").unwrap(), (ConditionOp::Greater, i32::MAX));
    assert_eq!(parse_condition_ext("s.status.x != 0 || $t.tmp == 1").unwrap(), (ConditionOp::Greater, i32::MAX));
    let out = parse_iet_content("[if estimate=\"$s.status.commandskip == 1\"]\n[CallScript aiy00010]\n[/if]", false).unwrap();
    match &out[0] {
        ScriptCmd::Condition { operator, value, .. } => {
            assert_eq!(*operator, ConditionOp::Greater);
            assert_eq!(*value, i32::MAX);
        }
        _ => panic!("expected a condition"),
    }
}

#[test]
fn an_if_else_block_has_its_jump_and_labels() {
    let out = parse_iet_content("[if estimate=\"$t.tmp == 0\"]\n[return]\n[else]\n[return]\n[/if]", false).unwrap();
    assert_eq!(out.len(), 6);
    assert!(matches!(&out[0], ScriptCmd::Condition { goto, .. } if goto == "iet_else_0"));
    assert!(matches!(&out[2], ScriptCmd::Jump { target } if target == "iet_endif_0"));
    assert!(matches!(&out[3], ScriptCmd::Label { name } if name == "iet_else_0"));
    assert!(matches!(&out[5], ScriptCmd::Label { name } if name == "iet_endif_0"));
    let out2 = parse_iet_content("[if estimate=\"$t.tmp == 0\"]\n[return]\n[/if]", false).unwrap();
    assert_eq!(out2.len(), 4);
    assert!(matches!(&out2[2], ScriptCmd::Label { name } if name == "iet_else_0"));
    assert!(matches!(&out2[3], ScriptCmd::Label { name } if name == "iet_endif_0"));
}
