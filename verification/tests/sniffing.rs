use mkbsd::ResourceDescriptor;
use mkbsd::plan_write;
use mkbsd::write_plan_with_extension;

fn descriptor(url: &str, dir: &str, stem: &str) -> ResourceDescriptor {
    ResourceDescriptor {
        source_url: url.to_string(),
        local_directory: dir.to_string(),
        local_stem: stem.to_string(),
    }
}

fn png_bytes() -> Vec<u8> {
    vec![0x89, 0x50, 0x4E, 0x47, 0x0D, 0x0A, 0x1A, 0x0A, 0x00, 0x00, 0x00, 0x0D]
}

#[test]
fn png_signature_resolves_to_png_extension() {
    let d = descriptor("https://cdn.x/col/a1", "col", "a1");
    let plan = plan_write("root", &d, &png_bytes());
    assert_eq!(plan.extension, "png");
    assert_eq!(plan.directory, "root/col");
    assert_eq!(plan.path, "root/col/a1.png");
}

#[test]
fn jpeg_signature_resolves_to_jpg_extension() {
    let d = descriptor("https://cdn.x/col/a2", "col", "a2");
    let bytes: Vec<u8> = vec![0xFF, 0xD8, 0xFF, 0xE0, 0x00, 0x10, 0x4A, 0x46, 0x49, 0x46];
    let plan = plan_write("downloads", &d, &bytes);
    assert_eq!(plan.extension, "jpg");
    assert_eq!(plan.path, "downloads/col/a2.jpg");
}

#[test]
fn unrecognized_bytes_fall_back_to_the_generic_binary_extension() {
    let d = descriptor("https://cdn.x/col/blob", "col", "blob");
    let plan = plan_write("root", &d, &[0u8; 64]);
    assert_eq!(plan.extension, "bin");
    assert_eq!(plan.path, "root/col/blob.bin");
}

#[test]
fn an_empty_payload_still_yields_an_extension_not_a_failure() {
    let d = descriptor("https://cdn.x/col/empty", "col", "empty");
    let plan = plan_write("root", &d, &[]);
    assert!(!plan.extension.is_empty());
}

#[test]
fn write_plan_uses_the_given_extension_verbatim() {
    let d = descriptor("https://cdn.x/col/a3", "col", "a3");
    let plan = write_plan_with_extension("root", &d, "webp".to_string());
    assert_eq!(plan.path, "root/col/a3.webp");
}
