use tribune_archivum::archive::archive_info;
use tribune_archivum::base::result::ValidationResult;
use tribune_archivum::base::types::{ArchiveInfo, ErrorCode, ValidationError, ValidationLocation};

/// An archive record holding a duplicate path, built directly (the zip
/// library refuses to write true duplicates).
fn create_test_archive_info_with_duplicates() -> ArchiveInfo {
    ArchiveInfo {
        entries: vec![
            "META-INF/container.xml".to_string(),
            "content.opf".to_string(),
            "chapter1.xhtml".to_string(),
            "chapter1.xhtml".to_string(), // Duplicate!
        ],
        duplicate_paths: vec!["chapter1.xhtml".to_string()],
    }
}

#[test]
fn test_validate_archive_duplicate_paths() {
    let archive_info = create_test_archive_info_with_duplicates();

    assert!(!archive_info.duplicate_paths.is_empty(), "Should detect duplicate paths");
    assert!(archive_info.duplicate_paths.contains(&"chapter1.xhtml".to_string()),
            "Should detect chapter1.xhtml as duplicate");
    assert_eq!(archive_info.entries.len(), 4, "Should have 4 entries including duplicate");
}

#[test]
fn test_validate_archive_unreadable_entry() {
    let mut result = ValidationResult::new();
    result.add_error(ValidationError::new(
        ErrorCode::UnreadableEntry,
        ValidationLocation::ArchiveEntry { path: "test.txt".to_string() },
    ));

    assert!(result.has_errors());
    assert_eq!(result.error_count(), 1);
    assert_eq!(result.errors[0].code, ErrorCode::UnreadableEntry);
}

#[test]
fn archive_info_reports_each_duplicate_once() {
    let names = vec![
        "META-INF/container.xml".to_string(),
        "content.opf".to_string(),
        "chapter1.xhtml".to_string(),
        "chapter1.xhtml".to_string(),
        "chapter1.xhtml".to_string(),
    ];
    let entry_names: Vec<Option<String>> = names.iter().map(|n| Some(n.clone())).collect();
    let info = archive_info(names.clone(), &entry_names);
    assert_eq!(info.entries, names);
    assert_eq!(info.duplicate_paths, vec!["chapter1.xhtml".to_string()]);
}

/// The listing of the test book: container, package document and one chapter,
/// each entry opening under its name.
fn test_epub_info() -> ArchiveInfo {
    let names: Vec<String> = ["META-INF/container.xml", "content.opf", "chapter1.xhtml"].iter().map(|s| s.to_string()).collect();
    let opened: Vec<Option<String>> = names.iter().map(|n| Some(n.clone())).collect();
    archive_info(names, &opened)
}

#[test]
fn test_validate_archive_valid_epub() {
    let archive_info = test_epub_info();
    assert!(archive_info.entries.contains(&"META-INF/container.xml".to_string()));
    assert!(archive_info.entries.contains(&"content.opf".to_string()));
    assert!(archive_info.entries.contains(&"chapter1.xhtml".to_string()));
    assert!(archive_info.duplicate_paths.is_empty());
}

#[test]
fn test_validate_archive_empty_zip() {
    let archive_info = archive_info(vec![], &[]);
    assert!(archive_info.entries.is_empty(), "Empty ZIP should have no entries");
    assert!(archive_info.duplicate_paths.is_empty());
}

#[test]
fn test_validate_archive_contains_expected_entries() {
    let archive_info = test_epub_info();
    assert!(archive_info.entries.iter().any(|e| e.starts_with("META-INF/")));
    assert!(archive_info.entries.iter().any(|e| e == "content.opf" || e.ends_with(".opf")));
}

#[test]
fn test_validate_archive_entry_count() {
    let archive_info = test_epub_info();
    assert!(archive_info.entries.len() >= 3);
}
