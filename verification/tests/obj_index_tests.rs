use bevy_vn::obj_index::build_obj_index;

#[test]
fn each_stem_keeps_its_least_path() {
    let entries = vec![
        ("tree".to_string(), "image/obj/b/tree.png".to_string()),
        ("rock".to_string(), "image/obj/rock.png".to_string()),
        ("tree".to_string(), "image/obj/a/tree.png".to_string()),
        ("tree".to_string(), "image/obj/c/tree.png".to_string()),
    ];
    let m = build_obj_index(&entries);
    assert_eq!(m.len(), 2);
    assert_eq!(m.get_str("tree").map(|s| s.as_str()), Some("image/obj/a/tree.png"));
    assert_eq!(m.get_str("rock").map(|s| s.as_str()), Some("image/obj/rock.png"));
    assert!(build_obj_index(&Vec::new()).len() == 0);
}
