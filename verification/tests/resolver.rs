use mkbsd::MalformedResourceUrl;
use mkbsd::directory_path;
use mkbsd::final_path;
use mkbsd::resolve_descriptor;
use mkbsd::resolve_repo_id;
use mkbsd::stem_path;

#[test]
fn resolution_takes_the_last_two_path_segments() {
    let d = resolve_descriptor("https://cdn.example.com/data/20240916/collectionA/img123")
        .expect("a four-segment path must resolve");
    assert_eq!(d.source_url, "https://cdn.example.com/data/20240916/collectionA/img123");
    assert_eq!(d.local_directory, "collectionA");
    assert_eq!(d.local_stem, "img123");
}

#[test]
fn resolution_is_deterministic() {
    let url = "https://cdn.example.com/data/20240916/collectionA/img123";
    let first = resolve_descriptor(url).expect("must resolve");
    let second = resolve_descriptor(url).expect("must resolve");
    assert_eq!(first, second);
}

#[test]
fn a_single_segment_path_is_rejected_not_a_panic() {
    let r = resolve_descriptor("https://cdn.example.com/onlyone");
    assert_eq!(r.unwrap_err(), MalformedResourceUrl);
}

#[test]
fn an_unparseable_url_is_rejected() {
    assert_eq!(resolve_descriptor("not a url at all").unwrap_err(), MalformedResourceUrl);
    assert_eq!(resolve_descriptor("").unwrap_err(), MalformedResourceUrl);
}

#[test]
fn a_two_segment_path_resolves() {
    let d = resolve_descriptor("https://cdn.x/col/a1").expect("two segments suffice");
    assert_eq!(d.local_directory, "col");
    assert_eq!(d.local_stem, "a1");
}

#[test]
fn repo_id_is_the_last_segment() {
    let id = resolve_repo_id("https://storage.example.com/panels-api/data/20240916/media-1a")
        .expect("must resolve");
    assert_eq!(id, "media-1a");
}

#[test]
fn repo_id_of_unparseable_url_is_rejected() {
    assert_eq!(resolve_repo_id("::::").unwrap_err(), MalformedResourceUrl);
}

#[test]
fn path_builders_join_exactly() {
    assert_eq!(directory_path("downloads", "col"), "downloads/col");
    assert_eq!(stem_path("downloads", "col", "img"), "downloads/col/img");
    assert_eq!(final_path("downloads", "col", "img", "png"), "downloads/col/img.png");
}
