use mkbsd::CatalogError;
use mkbsd::Cdn;
use mkbsd::FetchError;
use mkbsd::Image;
use mkbsd::JsonValue;
use mkbsd::PanelMedia;
use mkbsd::Repo;
use mkbsd::Spec;
use mkbsd::classify_status;
use mkbsd::dry_run_outcome;
use mkbsd::DownloadErrorKind;
use mkbsd::DownloadOutcome;
use mkbsd::ResourceDescriptor;
use mkbsd::plan_image_downloads;

fn text(t: &str) -> JsonValue {
    JsonValue::Text(t.to_string())
}

fn obj(entries: Vec<(&str, JsonValue)>) -> JsonValue {
    JsonValue::Object(entries.into_iter().map(|(k, v)| (k.to_string(), v)).collect())
}

#[test]
fn iterate_all_builds_the_full_cross_product_in_order() {
    let media = PanelMedia {
        root: "R".to_string(),
        p: vec!["p1".to_string(), "p2".to_string()],
        b: vec!["b1".to_string(), "b2".to_string()],
    };
    assert_eq!(
        media.iterate_all(),
        vec![
            "R-p1-b1".to_string(),
            "R-p1-b2".to_string(),
            "R-p2-b1".to_string(),
            "R-p2-b2".to_string(),
        ]
    );
}

#[test]
fn iterate_all_of_empty_identifier_lists_is_empty() {
    let media = PanelMedia { root: "R".to_string(), p: vec![], b: vec!["b".to_string()] };
    assert!(media.iterate_all().is_empty());
    let media = PanelMedia { root: "R".to_string(), p: vec!["p".to_string()], b: vec![] };
    assert!(media.iterate_all().is_empty());
}

#[test]
fn spec_from_text_decodes_the_media_section() {
    let s = Spec::from_text(
        "{\"media\":{\"root\":\"R\",\"p\":[\"p1\",\"p2\"],\"b\":[\"b1\"]},\"extra\":null}",
    )
    .expect("a well-shaped catalog must decode");
    assert_eq!(s.media.root, "R");
    assert_eq!(s.media.iterate_all(), vec!["R-p1-b1".to_string(), "R-p2-b1".to_string()]);
}

#[test]
fn spec_from_text_without_a_media_section_is_malformed() {
    let r = Spec::from_text("{\"other\":1}");
    assert_eq!(r.unwrap_err(), CatalogError::Malformed);
}

#[test]
fn spec_from_text_with_a_non_string_identifier_is_malformed() {
    let r = Spec::from_text("{\"media\":{\"root\":\"R\",\"p\":[1],\"b\":[]}}");
    assert_eq!(r.unwrap_err(), CatalogError::Malformed);
}

#[test]
fn cdn_from_text_parses_and_finds_urls() {
    let cdn = Cdn::from_text("{\"a\":{\"url\":\"https://cdn.x/c/one\"}}")
        .expect("well-formed JSON must parse");
    assert_eq!(cdn.find_urls(), vec!["https://cdn.x/c/one".to_string()]);
}

#[test]
fn cdn_from_text_rejects_malformed_text() {
    assert_eq!(Cdn::from_text("[").unwrap_err(), CatalogError::Malformed);
}

#[test]
fn repo_decoding_and_flattening_keep_catalog_order() {
    let tree = obj(vec![(
        "data",
        obj(vec![
            ("img1", obj(vec![("dhd", text("u-dhd-1")), ("s", text("u-s-1"))])),
            ("img2", obj(vec![("dhd", text("u-dhd-2"))])),
        ]),
    )]);
    let repo = Repo::from_json("repoA".to_string(), &tree).expect("repo must decode");
    assert_eq!(repo.repo, "repoA");
    let downloads = plan_image_downloads(&vec![repo]);
    assert_eq!(downloads.len(), 3);
    assert_eq!(downloads[0].id, "img1");
    assert_eq!(downloads[0].form_factor, "dhd");
    assert_eq!(downloads[0].url, "u-dhd-1");
    assert_eq!(downloads[1].form_factor, "s");
    assert_eq!(downloads[2].id, "img2");

    let d = downloads[0].descriptor();
    assert_eq!(d.local_directory, "repoA");
    assert_eq!(d.local_stem, "img1-dhd");
    assert_eq!(d.source_url, "u-dhd-1");
}

#[test]
fn an_image_with_a_non_string_rendition_does_not_decode() {
    let bad = obj(vec![("dhd", JsonValue::Number("5".to_string()))]);
    assert!(Image::from_json(&bad).is_none());
    let tree = obj(vec![("data", obj(vec![("img1", bad)]))]);
    assert!(Repo::from_json("r".to_string(), &tree).is_none());
}

#[test]
fn a_repo_document_without_a_data_object_does_not_decode() {
    assert!(Repo::from_json("r".to_string(), &obj(vec![])).is_none());
    assert!(Repo::from_json("r".to_string(), &JsonValue::Null).is_none());
}

#[test]
fn status_codes_classify_exactly() {
    assert_eq!(classify_status(200), None);
    assert_eq!(classify_status(204), None);
    assert_eq!(classify_status(299), None);
    assert_eq!(classify_status(199), Some(FetchError::HttpStatus(199)));
    assert_eq!(classify_status(300), Some(FetchError::HttpStatus(300)));
    assert_eq!(classify_status(404), Some(FetchError::HttpStatus(404)));
    assert_eq!(classify_status(500), Some(FetchError::HttpStatus(500)));
}

#[test]
fn every_fetch_error_maps_to_its_task_error_kind() {
    assert_eq!(FetchError::Network.to_download_kind(), DownloadErrorKind::Network);
    assert_eq!(FetchError::BodyRead.to_download_kind(), DownloadErrorKind::BodyRead);
    assert_eq!(
        FetchError::HttpStatus(503).to_download_kind(),
        DownloadErrorKind::HttpStatus(503)
    );
}

#[test]
fn a_dry_run_outcome_describes_the_skipped_write() {
    let d = ResourceDescriptor {
        source_url: "https://cdn.x/col/a1".to_string(),
        local_directory: "col".to_string(),
        local_stem: "a1".to_string(),
    };
    match dry_run_outcome("downloads", &d) {
        DownloadOutcome::Success { bytes_written, resolved_extension, final_path } => {
            assert_eq!(bytes_written, 0);
            assert!(resolved_extension.is_empty());
            assert_eq!(final_path, "downloads/col/a1");
        },
        DownloadOutcome::Failure { .. } => panic!("a dry run records a success-shaped outcome"),
    }
}
