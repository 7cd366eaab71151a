use sitemirror::crawler::{Crawler, Step};
use sitemirror::paths::file_name;
use sitemirror::urls::CrawlTarget;

fn target_of(seed: &str) -> CrawlTarget {
    let mut c = Crawler::new(seed, false).expect("seed should parse");
    match c.step() {
        Step::Fetch(t) => t,
        _ => panic!("expected the seed to be handed out"),
    }
}

#[test]
fn default_filename_for_trailing_slash() {
    let t = target_of("https://x/a/");
    assert_eq!(t.mirror_path("root"), "root/a/index.html");
}

#[test]
fn html_appended_when_no_extension() {
    let t = target_of("https://x/a/b");
    assert_eq!(t.mirror_path("root"), "root/a/b.html");
}

#[test]
fn extension_kept_verbatim() {
    let t = target_of("https://x/a/b.css");
    assert_eq!(t.mirror_path("root"), "root/a/b.css");
}

#[test]
fn query_stripped_from_last_segment() {
    let t = target_of("https://x/a/b.js?v=2");
    assert_eq!(t.mirror_path("root"), "root/a/b.js");
}

#[test]
fn question_mark_inside_segment_stripped() {
    let t = CrawlTarget {
        url: "https://x/a/b.js?v=2".to_string(),
        scheme: "https".to_string(),
        host: "x".to_string(),
        segments: vec!["a".to_string(), "b.js?v=2".to_string()],
    };
    assert_eq!(t.mirror_path("root"), "root/a/b.js");
}

#[test]
fn root_url_maps_to_index_html() {
    let t = target_of("https://ex.com");
    assert_eq!(t.mirror_path("out"), "out/index.html");
}

#[test]
fn nested_directories_mirrored() {
    let t = target_of("https://ex.com/d1/d2/d3/page.html");
    assert_eq!(t.mirror_dir("out"), "out/d1/d2/d3");
    assert_eq!(t.mirror_path("out"), "out/d1/d2/d3/page.html");
}

#[test]
fn mapping_is_deterministic() {
    let t = target_of("https://ex.com/a/b.css");
    let p1 = t.mirror_path("out");
    let p2 = t.mirror_path("out");
    assert_eq!(p1, p2);
}

#[test]
fn file_name_of_empty_segments() {
    let segs: Vec<String> = Vec::new();
    assert_eq!(file_name(&segs), "index.html");
}

#[test]
fn file_name_with_dot_in_middle_segment_unused() {
    let segs = vec!["v1.2".to_string(), "page".to_string()];
    assert_eq!(file_name(&segs), "page.html");
}
