use document_parser::assets::{AssetType, LocalAssetStore};
use document_parser::classifier::{classify_bytes, detect_format, detect_protection, DetectedFormat};
use document_parser::digest::hex_lower;
use document_parser::json::{read_bool, read_str, read_u64, JsonNumber, JsonValue};
use document_parser::strmap::StringMap;
use document_parser::text::{join_strings, signed_decimal_string, squeeze_ws_chars, str_trim};

fn number(n: u64) -> JsonValue {
    JsonValue::Number(JsonNumber {
        as_i64: Some(n as i64),
        as_u64: Some(n),
        rounded: Some(n as i64),
        milli: Some(n as i64 * 1000),
    })
}

#[test]
fn sha256_of_abc_is_the_published_digest() {
    let c = classify_bytes("abc.txt", b"abc", 3);
    assert_eq!(c.sha256, "ba7816bf8f01cfea414140de5dae2223b00361a396177a9cb410ff61f20015ad");
    let empty = classify_bytes("empty.txt", b"", 0);
    assert_eq!(empty.sha256, "e3b0c44298fc1c149afbf4c8996fb92427ae41e4649b934ca495991b7852b855");
}

#[test]
fn hex_lower_writes_two_digits_per_byte() {
    assert_eq!(hex_lower(&[0x00, 0x0f, 0xa0, 0xff]), "000fa0ff");
    assert_eq!(hex_lower(&[]), "");
}

#[test]
fn detect_format_prefers_extension_rules_in_order() {
    assert_eq!(detect_format("pdf", None, None), DetectedFormat::Pdf);
    assert_eq!(detect_format("htm", None, None), DetectedFormat::Html);
    assert_eq!(detect_format("markdown", None, None), DetectedFormat::Md);
    assert_eq!(detect_format("jpeg", None, None), DetectedFormat::Image);
    assert_eq!(detect_format("log", None, None), DetectedFormat::Txt);
    assert_eq!(detect_format("bin", None, None), DetectedFormat::Unknown);
}

#[test]
fn detect_format_lets_content_mime_decide_over_extension_mime() {
    assert_eq!(
        detect_format("bin", Some("text/plain"), Some("APPLICATION/PDF")),
        DetectedFormat::Pdf
    );
    assert_eq!(detect_format("bin", Some("text/html"), None), DetectedFormat::Html);
    assert_eq!(detect_format("bin", None, Some("image/webp")), DetectedFormat::Image);
}

#[test]
fn only_pdfs_naming_encrypt_are_protected() {
    assert!(detect_protection(&DetectedFormat::Pdf, b"%PDF-1.7 << /Encrypt 5 0 R >>"));
    assert!(!detect_protection(&DetectedFormat::Pdf, b"%PDF-1.7 << /Root 1 0 R >>"));
    assert!(!detect_protection(&DetectedFormat::Docx, b"/Encrypt"));
}

#[test]
fn classify_bytes_reads_extension_magic_and_digest() {
    let bytes = b"%PDF-1.4\n1 0 obj << /Encrypt 2 0 R >>\n";
    let c = classify_bytes("docs/Report.PDF", bytes, bytes.len() as u64);
    assert_eq!(c.input_path, "docs/Report.PDF");
    assert_eq!(c.extension, "pdf");
    assert_eq!(c.mime_by_extension.as_deref(), Some("application/pdf"));
    assert_eq!(c.mime_by_magic.as_deref(), Some("application/pdf"));
    assert_eq!(c.size_bytes, bytes.len() as u64);
    assert_eq!(c.sha256.len(), 64);
    assert!(c.sha256.chars().all(|ch| ch.is_ascii_hexdigit() && !ch.is_ascii_uppercase()));
    assert_eq!(c.likely_format, DetectedFormat::Pdf);
    assert!(c.is_encrypted_or_protected);
}

#[test]
fn classify_bytes_of_png_magic_is_an_image() {
    let bytes = [0x89u8, b'P', b'N', b'G', 0x0d, 0x0a, 0x1a, 0x0a, 0, 0, 0, 0];
    let c = classify_bytes("scan", &bytes, 12);
    assert_eq!(c.extension, "");
    assert_eq!(c.mime_by_extension, None);
    assert_eq!(c.mime_by_magic.as_deref(), Some("image/png"));
    assert_eq!(c.likely_format, DetectedFormat::Image);
    assert!(!c.is_encrypted_or_protected);
}

#[test]
fn asset_type_names_and_folders() {
    assert_eq!(AssetType::PageRender.as_str(), "page_render");
    assert_eq!(AssetType::TableCsv.folder(), "tables");
    assert_eq!(AssetType::TableHtml.folder(), "tables");
    assert_eq!(AssetType::OcrCrop.folder(), "crops");
}

#[test]
fn sanitize_name_replaces_unsafe_characters() {
    assert_eq!(LocalAssetStore::sanitize_name("моё фото (1).png"), "__________1_.png");
    assert_eq!(LocalAssetStore::sanitize_name(""), "asset.bin");
    assert_eq!(LocalAssetStore::sanitize_name("a-b_c.d"), "a-b_c.d");
}

#[test]
fn extension_for_mime_follows_the_rules_in_order() {
    assert_eq!(LocalAssetStore::extension_for_mime("image/png"), "png");
    assert_eq!(LocalAssetStore::extension_for_mime("image/jpeg"), "jpg");
    assert_eq!(LocalAssetStore::extension_for_mime("text/csv"), "csv");
    assert_eq!(LocalAssetStore::extension_for_mime("application/octet-stream"), "bin");
}

#[test]
fn prepare_asset_fixes_path_and_digest() {
    let store = LocalAssetStore::new("out".to_string());
    assert_eq!(store.document_dir("doc1"), "out/doc1");
    let p = store.prepare_asset("doc1", AssetType::EmbeddedImage, "photo.png", b"abc", "image/png", "a1");
    assert_eq!(p.asset.asset_id, "a1");
    assert_eq!(p.asset.asset_type, "embedded_image");
    assert_eq!(p.asset.path, "assets/images/a1_photo.png");
    assert_eq!(p.asset.mime_type, "image/png");
    assert_eq!(
        p.asset.sha256.as_deref(),
        Some("ba7816bf8f01cfea414140de5dae2223b00361a396177a9cb410ff61f20015ad")
    );
    assert_eq!(p.absolute_path, "out/doc1/assets/images/a1_photo.png");
}

#[test]
fn prepare_asset_adds_the_mime_extension_to_a_bare_name() {
    let store = LocalAssetStore::new("out/".to_string());
    let p = store.prepare_asset("d", AssetType::TableCsv, "table", b"", "text/csv", "t9");
    assert_eq!(p.asset.path, "assets/tables/t9_table.csv");
    assert_eq!(p.absolute_path, "out/d/assets/tables/t9_table.csv");
}

#[test]
fn string_map_insert_replaces_and_counts_keys_once() {
    let mut m = StringMap::new();
    assert_eq!(m.len(), 0);
    m.insert("a", "1".to_string());
    m.insert("b", "2".to_string());
    m.insert("a", "3".to_string());
    assert_eq!(m.len(), 2);
    assert_eq!(m.get("a").map(|s| s.as_str()), Some("3"));
    assert_eq!(m.get("b").map(|s| s.as_str()), Some("2"));
    assert_eq!(m.get("c"), None);
    let pairs = m.to_pairs();
    assert_eq!(pairs.len(), 2);
}

#[test]
fn json_readers_fall_back_to_defaults() {
    let v = JsonValue::Object(vec![
        ("flag".to_string(), JsonValue::Bool(false)),
        ("name".to_string(), JsonValue::Str("ru".to_string())),
        ("count".to_string(), number(7)),
    ]);
    assert!(!read_bool(&v, "flag", true));
    assert!(read_bool(&v, "missing", true));
    assert!(read_bool(&v, "name", true));
    assert_eq!(read_str(&v, "name", "en"), "ru");
    assert_eq!(read_str(&v, "count", "en"), "en");
    assert_eq!(read_u64(&v, "count", 1), 7);
    assert_eq!(read_u64(&v, "flag", 1), 1);
}

#[test]
fn text_helpers_match_std() {
    assert_eq!(str_trim("  \t hi there \n"), "hi there");
    assert_eq!(join_strings(&vec!["a".to_string(), "b".to_string(), "c".to_string()], ", "), "a, b, c");
    assert_eq!(join_strings(&vec![], ", "), "");
    assert_eq!(signed_decimal_string(-42), "-42");
    assert_eq!(signed_decimal_string(0), "0");
    let squeezed: String = squeeze_ws_chars(&"  a \n\t b  c ".chars().collect::<Vec<_>>()).into_iter().collect();
    assert_eq!(squeezed, "a b c");
}
