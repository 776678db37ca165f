use bevy_vn::asset_source::{bundle_candidates, bundle_paths, choose_asset_source, AssetSource};

#[test]
fn the_six_bundles_are_looked_for_in_order() {
    assert_eq!(
        bundle_paths("assets_pak"),
        vec![
            "assets_pak/data.pak",
            "assets_pak/bgm.pak",
            "assets_pak/voice.pak",
            "assets_pak/se.pak",
            "assets_pak/image.pak",
            "assets_pak/video.pak",
        ]
    );
    assert_eq!(bundle_paths("dir/")[0], "dir/data.pak");
    assert_eq!(bundle_paths("")[5], "video.pak");
}

#[test]
fn only_present_bundles_are_kept() {
    let present = vec![true, false, true, false, false, true];
    assert_eq!(
        bundle_candidates("assets_pak", &present),
        vec!["assets_pak/data.pak", "assets_pak/voice.pak", "assets_pak/video.pak"]
    );
    assert!(bundle_candidates("assets_pak", &vec![false; 6]).is_empty());
}

#[test]
fn bundles_then_single_then_files() {
    let b = vec!["assets_pak/data.pak".to_string()];
    assert!(matches!(choose_asset_source(true, b.clone(), true, true, true), AssetSource::Bundles(v) if v == b));
    assert!(matches!(choose_asset_source(true, b.clone(), false, true, true), AssetSource::Single));
    assert!(matches!(choose_asset_source(false, b.clone(), true, true, true), AssetSource::Single));
    assert!(matches!(choose_asset_source(true, Vec::new(), true, true, true), AssetSource::Single));
    assert!(matches!(choose_asset_source(true, Vec::new(), true, true, false), AssetSource::Files));
    assert!(matches!(choose_asset_source(false, b, false, false, false), AssetSource::Files));
}
