use tribune_archivum::base::types::{ErrorCode, OpfMetadata};
use tribune_archivum::epub::opf::{build_opf_package, RawManifestItem, RawOpf, RawSpineItem};

fn item(id: &str, href: &str, media_type: &str, properties: Option<&str>) -> RawManifestItem {
    RawManifestItem {
        id: id.to_string(),
        href: href.to_string(),
        media_type: media_type.to_string(),
        properties: properties.map(|p| p.to_string()),
    }
}

fn itemref(idref: &str, linear: Option<&str>) -> RawSpineItem {
    RawSpineItem { idref: idref.to_string(), linear: linear.map(|l| l.to_string()), properties: None }
}

fn metadata(title: &str, creators: &[&str], identifiers: &[&str]) -> OpfMetadata {
    OpfMetadata {
        title: Some(title.to_string()),
        creators: creators.iter().map(|c| c.to_string()).collect(),
        language: Some("en".to_string()),
        identifiers: identifiers.iter().map(|i| i.to_string()).collect(),
    }
}

/// The package document of the valid test books, as decoded: three manifest
/// items (the navigation document marked `nav`) and one spine entry.
fn valid_opf() -> RawOpf {
    RawOpf {
        metadata: metadata("Test Book", &["Test Author"], &["test-123"]),
        manifest_items: vec![
            item("ncx", "toc.ncx", "application/x-dtbncx+xml", None),
            item("nav", "nav.xhtml", "application/xhtml+xml", Some("nav")),
            item("chapter1", "chapter1.xhtml", "application/xhtml+xml", None),
        ],
        spine_items: vec![itemref("chapter1", None)],
    }
}

fn opf_with(manifest: Vec<RawManifestItem>, spine: Vec<RawSpineItem>) -> RawOpf {
    RawOpf { metadata: metadata("Test Book", &[], &["test-123"]), manifest_items: manifest, spine_items: spine }
}

#[test]
fn test_valid_epub2_opf() {
    let result = build_opf_package(Some(valid_opf()));
    assert!(result.is_ok(), "Valid EPUB2 OPF should parse successfully");
    let opf = result.unwrap();
    assert_eq!(opf.metadata.title, Some("Test Book".to_string()));
    assert_eq!(opf.metadata.language, Some("en".to_string()));
    assert_eq!(opf.manifest_items.len(), 3);
    assert_eq!(opf.spine_items.len(), 1);
}

#[test]
fn test_valid_epub3_opf() {
    let result = build_opf_package(Some(valid_opf()));
    assert!(result.is_ok(), "Valid EPUB3 OPF should parse successfully");
    let opf = result.unwrap();
    assert_eq!(opf.metadata.title, Some("Test Book".to_string()));
    assert_eq!(opf.metadata.language, Some("en".to_string()));
    assert_eq!(opf.manifest_items.len(), 3);
    assert_eq!(opf.spine_items.len(), 1);
}

#[test]
fn test_invalid_opf_xml() {
    let result = build_opf_package(None);
    assert!(result.is_err(), "Invalid OPF XML should fail parsing");
    let validation_result = result.unwrap_err();
    assert!(validation_result.errors.iter().any(|e| e.code == ErrorCode::InvalidOpfXml), "Should report InvalidOpfXml error");
}

#[test]
fn test_invalid_utf8_opf() {
    let result = build_opf_package(None);
    assert!(result.is_err(), "Invalid UTF-8 should fail parsing");
    let validation_result = result.unwrap_err();
    assert!(validation_result.errors.iter().any(|e| e.code == ErrorCode::InvalidOpfXml), "Should report InvalidOpfXml error");
}

#[test]
fn test_missing_manifest() {
    let result = build_opf_package(Some(opf_with(vec![], vec![itemref("chapter1", None)])));
    assert!(result.is_ok(), "OPF without manifest should still parse");
    assert!(result.unwrap().manifest_items.is_empty(), "Manifest should be empty");
}

#[test]
fn test_missing_spine() {
    let result = build_opf_package(Some(opf_with(vec![item("chapter1", "chapter1.xhtml", "application/xhtml+xml", None)], vec![])));
    assert!(result.is_ok(), "OPF without spine should still parse");
    assert!(result.unwrap().spine_items.is_empty(), "Spine should be empty");
}

#[test]
fn opf_test_test_empty_manifest() {
    let result = build_opf_package(Some(opf_with(vec![], vec![])));
    assert!(result.is_ok(), "OPF with empty manifest should parse");
    let opf = result.unwrap();
    assert!(opf.manifest_items.is_empty(), "Manifest should be empty");
    assert!(opf.spine_items.is_empty(), "Spine should be empty");
}

#[test]
fn opf_test_test_empty_spine() {
    let result = build_opf_package(Some(opf_with(vec![item("chapter1", "chapter1.xhtml", "application/xhtml+xml", None)], vec![])));
    assert!(result.is_ok(), "OPF with empty spine should parse");
    let opf = result.unwrap();
    assert_eq!(opf.manifest_items.len(), 1);
    assert!(opf.spine_items.is_empty(), "Spine should be empty");
}

#[test]
fn test_multiple_creators() {
    let mut raw = valid_opf();
    raw.metadata = metadata("Test Book", &["Author One", "Author Two", "Author Three"], &["test-123"]);
    let result = build_opf_package(Some(raw));
    assert!(result.is_ok(), "OPF with multiple creators should parse");
    let creators = result.unwrap().metadata.creators;
    assert_eq!(creators.len(), 3);
    assert_eq!(creators[0], "Author One");
    assert_eq!(creators[1], "Author Two");
    assert_eq!(creators[2], "Author Three");
}

#[test]
fn test_multiple_identifiers() {
    let mut raw = valid_opf();
    raw.metadata = metadata("Test Book", &[], &["test-123", "other-identifier", "another-id"]);
    let result = build_opf_package(Some(raw));
    assert!(result.is_ok(), "OPF with multiple identifiers should parse");
    let identifiers = result.unwrap().metadata.identifiers;
    assert_eq!(identifiers.len(), 3);
    assert_eq!(identifiers[0], "test-123");
    assert_eq!(identifiers[1], "other-identifier");
    assert_eq!(identifiers[2], "another-id");
}

#[test]
fn opf_test_test_manifest_item_with_properties() {
    let raw = opf_with(
        vec![
            item("nav", "nav.xhtml", "application/xhtml+xml", Some("nav")),
            item("cover", "cover.jpg", "image/jpeg", Some("cover-image")),
            item("chapter1", "chapter1.xhtml", "application/xhtml+xml", None),
        ],
        vec![itemref("chapter1", None)],
    );
    let result = build_opf_package(Some(raw));
    assert!(result.is_ok(), "OPF with manifest properties should parse");
    let opf = result.unwrap();
    assert_eq!(opf.manifest_items.len(), 3);
    let nav_item = opf.manifest_items.iter().find(|i| i.id == "nav").unwrap();
    assert!(nav_item.properties.contains(&"nav".to_string()));
    let cover_item = opf.manifest_items.iter().find(|i| i.id == "cover").unwrap();
    assert!(cover_item.properties.contains(&"cover-image".to_string()));
}

#[test]
fn test_spine_item_with_properties() {
    let raw = opf_with(
        vec![
            item("chapter1", "chapter1.xhtml", "application/xhtml+xml", None),
            item("chapter2", "chapter2.xhtml", "application/xhtml+xml", None),
        ],
        vec![itemref("chapter1", Some("yes")), itemref("chapter2", Some("no"))],
    );
    let result = build_opf_package(Some(raw));
    assert!(result.is_ok(), "OPF with spine properties should parse");
    let opf = result.unwrap();
    assert_eq!(opf.spine_items.len(), 2);
    let chapter1 = opf.spine_items.iter().find(|i| i.idref == "chapter1").unwrap();
    assert_eq!(chapter1.linear, "yes");
    let chapter2 = opf.spine_items.iter().find(|i| i.idref == "chapter2").unwrap();
    assert_eq!(chapter2.linear, "no");
}

#[test]
fn test_manifest_item_without_media_type() {
    let raw = opf_with(vec![item("chapter1", "chapter1.xhtml", "", None)], vec![itemref("chapter1", None)]);
    let result = build_opf_package(Some(raw));
    assert!(result.is_ok(), "OPF without media-type should still parse");
    let opf = result.unwrap();
    assert_eq!(opf.manifest_items.len(), 1);
    assert_eq!(opf.manifest_items[0].media_type, "");
}

#[test]
fn test_manifest_item_without_properties() {
    let raw = opf_with(vec![item("chapter1", "chapter1.xhtml", "application/xhtml+xml", None)], vec![itemref("chapter1", None)]);
    let result = build_opf_package(Some(raw));
    assert!(result.is_ok(), "OPF without properties should parse");
    let opf = result.unwrap();
    assert_eq!(opf.manifest_items.len(), 1);
    assert!(opf.manifest_items[0].properties.is_empty());
}

#[test]
fn test_spine_item_without_linear_attribute() {
    let raw = opf_with(vec![item("chapter1", "chapter1.xhtml", "application/xhtml+xml", None)], vec![itemref("chapter1", None)]);
    let result = build_opf_package(Some(raw));
    assert!(result.is_ok(), "OPF without linear attribute should parse");
    let opf = result.unwrap();
    assert_eq!(opf.spine_items.len(), 1);
    assert_eq!(opf.spine_items[0].linear, "yes");
}

#[test]
fn test_opf_with_special_characters_in_metadata() {
    let mut raw = valid_opf();
    raw.metadata = metadata("Test Book & More", &["Author <Test>"], &["test-123"]);
    raw.manifest_items = vec![item("ncx", "toc.ncx", "application/x-dtbncx+xml", None)];
    let result = build_opf_package(Some(raw));
    assert!(result.is_ok(), "OPF with special characters should parse");
    let opf = result.unwrap();
    assert_eq!(opf.metadata.title, Some("Test Book & More".to_string()));
    assert_eq!(opf.metadata.creators[0], "Author <Test>");
}

#[test]
fn test_opf_version_attribute() {
    let result = build_opf_package(Some(valid_opf()));
    assert!(result.is_ok(), "EPUB2 OPF should parse");
    let opf = result.unwrap();
    assert!(opf.metadata.title.is_some());
}

#[test]
fn opf_properties_are_split_into_words() {
    let raw = opf_with(vec![item("c", "c.xhtml", "application/xhtml+xml", Some(" nav  scripted "))], vec![]);
    let opf = build_opf_package(Some(raw)).unwrap();
    assert_eq!(opf.manifest_items[0].properties, vec!["nav".to_string(), "scripted".to_string()]);
}
