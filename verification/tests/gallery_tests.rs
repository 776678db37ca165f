use bevy_vn::gallery::{
    bgm_total_pages, cg_total_pages, chapter_label, filtered_bgm_ids, filtered_cg_files, gallery_page_nav, AllCgFiles,
};
use bevy_vn::strmap::StrMap;

fn names(v: &[&str]) -> Vec<String> {
    v.iter().map(|s| s.to_string()).collect()
}

#[test]
fn safe_mode_hides_adult_pictures() {
    let files = names(&["ev01", "hcg02", "ev03", "xhcg"]);
    assert_eq!(filtered_cg_files(&files, true), names(&["ev01", "ev03", "xhcg"]));
    assert_eq!(filtered_cg_files(&files, false), files);
}

#[test]
fn pages_round_up() {
    assert_eq!(cg_total_pages(0), 0);
    assert_eq!(cg_total_pages(9), 1);
    assert_eq!(cg_total_pages(10), 2);
}

#[test]
fn only_titled_tracks_once_clear() {
    let ids = names(&["bgm01", "bgm02", "bgm03"]);
    let mut titles = StrMap::new();
    let k: Vec<char> = "bgm02".chars().collect();
    titles.insert(&k, "Theme".to_string());
    assert_eq!(filtered_bgm_ids(&ids, &titles, true), names(&["bgm02"]));
    assert_eq!(filtered_bgm_ids(&ids, &titles, false), ids);
    assert_eq!(bgm_total_pages(&ids, &titles, false), 1);
    let many: Vec<String> = (0..13).map(|i| format!("b{}", i)).collect();
    assert_eq!(bgm_total_pages(&many, &titles, false), 2);
    assert_eq!(bgm_total_pages(&many, &titles, true), 0);
}

#[test]
fn chapters() {
    assert_eq!(chapter_label(1), "Chapter 1");
    assert_eq!(chapter_label(5), "Chapter 3");
    assert_eq!(chapter_label(6), "Chapter 5");
    assert_eq!(chapter_label(7), "");
}

#[test]
fn cg_files_are_sorted() {
    let all = AllCgFiles::scan(names(&["ev10", "ev02", "Ev01", "ev02", "é"]));
    assert_eq!(all.0, names(&["Ev01", "ev02", "ev02", "ev10", "é"]));
}

#[test]
fn gallery_pages_wrap_and_the_last_input_wins() {
    assert_eq!(gallery_page_nav(0, 3, true, false, false, false), 2);
    assert_eq!(gallery_page_nav(2, 3, false, true, false, false), 0);
    assert_eq!(gallery_page_nav(1, 3, true, true, false, false), 2);
    assert_eq!(gallery_page_nav(1, 3, false, true, true, false), 0);
    assert_eq!(gallery_page_nav(1, 3, false, false, false, false), 1);
    assert_eq!(gallery_page_nav(0, 0, true, false, false, false), 0);
    assert_eq!(gallery_page_nav(0, 0, false, true, false, false), 0);
}
