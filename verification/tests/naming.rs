use vxug_scraper::naming::{
    child_address, file_name_of_link, join_path, node_identity, resolve_url, sanitize_file_name,
};

#[test]
fn sanitize_replaces_each_illegal_character() {
    assert_eq!(sanitize_file_name("a/b:c.zip"), "a_b_c.zip");
    assert_eq!(sanitize_file_name("<>:/\\|?*"), "________");
    assert_eq!(sanitize_file_name(""), "");
    assert_eq!(sanitize_file_name("plain-name_1.7z"), "plain-name_1.7z");
}

#[test]
fn sanitize_twice_is_sanitize_once() {
    let once = sanitize_file_name("re?port*<v2>.pdf");
    assert_eq!(once, "re_port__v2_.pdf");
    assert_eq!(sanitize_file_name(&once), once);
}

#[test]
fn sanitize_agrees_with_the_character_class() {
    let class = regex::Regex::new(r"[<>:/\\|?*]").unwrap();
    for raw in ["a/b:c.zip", "x\\y|z", "what?.pdf", "é*ü", "", "no change", "a<b>c"] {
        assert_eq!(sanitize_file_name(raw), class.replace_all(raw, "_").to_string());
    }
}

#[test]
fn identity_is_the_last_segment_that_is_not_empty() {
    assert_eq!(node_identity("https://vx-underground.org/"), "vx-underground.org");
    assert_eq!(node_identity("https://vx-underground.org/Papers/Windows"), "Windows");
    assert_eq!(node_identity("https://vx-underground.org/Papers//"), "Papers");
    assert_eq!(node_identity(""), "");
    assert_eq!(node_identity("///"), "");
    assert_eq!(node_identity("single"), "single");
}

#[test]
fn link_name_is_what_follows_the_last_separator() {
    assert_eq!(file_name_of_link("/files/2021/report.pdf"), "report.pdf");
    assert_eq!(file_name_of_link("report.pdf"), "report.pdf");
    assert_eq!(file_name_of_link("/files/a:b?.zip"), "a_b_.zip");
    assert_eq!(file_name_of_link("/files/"), "");
}

#[test]
fn absolute_links_are_kept_and_others_go_behind_the_base() {
    assert_eq!(resolve_url("https://site.org", "/a/b.zip"), "https://site.org/a/b.zip");
    assert_eq!(resolve_url("https://site.org", "http://x/y.zip"), "http://x/y.zip");
    assert_eq!(resolve_url("https://site.org", "https://x/y.zip"), "https://x/y.zip");
    assert_eq!(resolve_url("https://site.org", "htt"), "https://site.orghtt");
    assert_eq!(resolve_url("", ""), "");
}

#[test]
fn children_are_joined_with_one_separator() {
    assert_eq!(join_path("Downloads", "Papers"), "Downloads/Papers");
    assert_eq!(join_path("", "x"), "/x");
    assert_eq!(child_address("https://site.org/", "Papers"), "https://site.org/Papers");
    assert_eq!(child_address("https://site.org/Papers", "Windows"), "https://site.org/Papers/Windows");
    assert_eq!(child_address("https://site.org///", "A"), "https://site.org/A");
}
