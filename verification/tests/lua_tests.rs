use bevy_vn::lua_config::{
    extract_bgm_table, extract_cg_table, extract_config_from, extract_fg_table, extract_init_table,
    extract_lua_value, extract_scene_table, extract_table_body, parse_key_value_table, split_table_entries,
    split_top_level, try_extract_config, try_extract_table_body, GameConfig,
};

#[test]
fn test_extract_lua_value_quoted() {
    assert_eq!(extract_lua_value(r#""hello""#), "hello");
}

#[test]
fn test_extract_lua_value_long_bracket() {
    assert_eq!(extract_lua_value("[[hello]]"), "hello");
    assert_eq!(extract_lua_value("[[001_eus/]]"), "001_eus/");
}

#[test]
fn test_extract_cg_set() {
    let content = r#"
        csv.extra_cgmode = {
            ["eve_0101"] = { 1, 1, [[eve_010101]], [[eve_010102]], [[eve_010103]], "", },
        }
    "#;
    let mut config = GameConfig::default();
    extract_cg_table(content, &mut config);
    assert!(config.cg_sets.get_str("eve_0101").is_some());
    assert_eq!(config.cg_sets.get_str("eve_0101").unwrap(), &vec!["eve_010101", "eve_010102", "eve_010103"]);
}

#[test]
fn test_extract_bgm_entry() {
    let content = r#"
        csv.extra_bgm = {
            ["bgm_0101"] = { 1, [[bgm_0101_a]], [[bgm_0101]], 135000, },
        }
    "#;
    let mut config = GameConfig::default();
    extract_bgm_table(content, &mut config);
    assert_eq!(config.bgm_files.get_str("bgm_0101").unwrap(), "bgm_0101_a");
}

#[test]
fn test_extract_scene_entry() {
    let content = r#"
        csv.extra_event = {
            ["201"] = { 1, 1, 50220, [[scene]], "", },
        }
    "#;
    let mut config = GameConfig::default();
    extract_scene_table(content, &mut config);
    let jumps = config.scene_jumps.get_str("201").unwrap();
    assert_eq!(jumps[0].file, "50220");
    assert_eq!(jumps[0].label, "scene");
}

#[test]
fn test_extract_fg_entry() {
    let content = r#"
        csv.fg = {
            ["01"] = { [[001_eus/]], },
            ["02"] = { [[002_eri/]], },
        }
    "#;
    let mut config = GameConfig::default();
    extract_fg_table(content, &mut config);
    assert_eq!(config.fg_paths.get_str("01").unwrap(), "001_eus");
    assert_eq!(config.fg_paths.get_str("02").unwrap(), "002_eri");
}

#[test]
fn test_extract_init_paths() {
    let content = r#"
        init = {
            ["bg_path"] = "image/bg/",
            ["fg_path"] = "image/fg/",
            ["bgm_path"] = "bgm/",
        }
    "#;
    let mut config = GameConfig::default();
    extract_init_table(content, &mut config);
    assert_eq!(config.init_paths.get_str("bg_path").unwrap(), "image/bg/");
    assert_eq!(config.init_paths.get_str("fg_path").unwrap(), "image/fg/");
    assert_eq!(config.init_paths.get_str("bgm_path").unwrap(), "bgm/");
}

#[test]
fn test_extract_multiple_cg_sets() {
    let content = r#"
        csv.extra_cgmode = {
            ["eve_0101"] = { 1, 1, [[eve_010101]], [[eve_010102]], },
            ["eve_0102"] = { 1, 2, [[eve_010201]], },
            ["hcg_0101"] = { 1, 3, [[hcg_010101]], [[hcg_010102]], [[hcg_010103]], },
        }
    "#;
    let mut config = GameConfig::default();
    extract_cg_table(content, &mut config);
    assert_eq!(config.cg_sets.len(), 3);
    assert_eq!(config.cg_sets.get_str("eve_0101").unwrap().len(), 2);
    assert_eq!(config.cg_sets.get_str("eve_0102").unwrap().len(), 1);
    assert_eq!(config.cg_sets.get_str("hcg_0101").unwrap().len(), 3);
}

#[test]
fn test_skip_numeric_key_in_extra_event() {
    let content = r#"
        csv.extra_event = {
            [1] = "image/image/ui/title/",
            ["201"] = { 1, 1, 50220, "", "", },
        }
    "#;
    let mut config = GameConfig::default();
    extract_scene_table(content, &mut config);
    assert!(config.scene_jumps.get_str("201").is_some());
    assert_eq!(config.scene_jumps.len(), 1);
}

#[test]
fn lua_value_plain_is_trimmed() {
    assert_eq!(extract_lua_value("  plain  "), "plain");
}

#[test]
fn table_body_skips_long_strings() {
    let body = extract_table_body("x = { a = [[ } ]], b = { 1 } } tail", "x =").unwrap();
    assert_eq!(body, " a = [[ } ]], b = { 1 } ");
    assert!(extract_table_body("no table here", "x =").is_none());
}

#[test]
fn table_body_cut_inside_a_character_is_refused() {
    // The closing brace is found by character, the body cut by byte.
    assert_eq!(try_extract_table_body("m = {é}", "m ="), None);
    // Where the character count and the byte count agree on a boundary, the body is cut.
    assert_eq!(try_extract_table_body("m = { é }", "m ="), Some(Some(" é".to_string())));
}

#[test]
fn entries_split_at_top_level_commas() {
    let entries = split_table_entries(r#"["a"] = { 1, 2 }, ["b"] = { [[x, y]] },"#);
    assert_eq!(entries, vec![r#"["a"] = { 1, 2 }"#.to_string(), r#"["b"] = { [[x, y]] }"#.to_string()]);
}

#[test]
fn top_level_drops_empty_quotes() {
    assert_eq!(split_top_level(r#"1, "", [[a]], "#), vec!["1".to_string(), "[[a]]".to_string()]);
}

#[test]
fn key_value_table_shapes() {
    let (k, v) = parse_key_value_table(r#"["eve"] = { 1, [[x]] }"#).unwrap();
    assert_eq!(k, "eve");
    assert_eq!(v, vec!["1".to_string(), "[[x]]".to_string()]);
    let (k2, _) = parse_key_value_table(r#"[[[long]]] = { 2 }"#).unwrap();
    assert_eq!(k2, "long");
    assert!(parse_key_value_table("[1] = { 2 }").is_none());
    assert!(parse_key_value_table(r#"["a"] = 3"#).is_none());
}

#[test]
fn scene_numbers_are_padded() {
    let content = r#"
        csv.extra_event = {
            ["7"] = { 1, 1, 42, },
            ["7"] = { 1, 1, x, [[lbl]] },
        }
    "#;
    let mut config = GameConfig::default();
    extract_scene_table(content, &mut config);
    let jumps = config.scene_jumps.get_str("7").unwrap();
    assert_eq!(jumps.len(), 2);
    assert_eq!(jumps[0].file, "00042");
    assert_eq!(jumps[0].label, "");
    assert_eq!(jumps[1].file, "00000");
    assert_eq!(jumps[1].label, "lbl");
}

#[test]
fn fg_without_trailing_slash_is_ignored() {
    let content = r#"csv.fg = { ["03"] = { [[no_slash]], }, }"#;
    let mut config = GameConfig::default();
    extract_fg_table(content, &mut config);
    assert!(config.fg_paths.get_str("03").is_none());
}

#[test]
fn whole_config_reads_every_table() {
    let content = r#"
        init = {
            ["se_path"] = "se/",
        }
        csv.extra_bgm = {
            ["b1"] = { 1, [[b1_a]], },
        }
        csv.fg = {
            ["01"] = { [[001_eus/]], },
        }
    "#;
    let config = extract_config_from(content);
    assert_eq!(config.init_paths.get_str("se_path").unwrap(), "se/");
    assert_eq!(config.bgm_files.get_str("b1").unwrap(), "b1_a");
    assert_eq!(config.fg_paths.get_str("01").unwrap(), "001_eus");
    assert_eq!(config.cg_sets.len(), 0);
    assert!(try_extract_config(content).is_some());
}
