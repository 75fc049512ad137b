use std::io::{Cursor, Write};

use tribune_archivum::archive::find_entries;
use zip::write::SimpleFileOptions;

/// The entry names of a test archive with known contents, read back the way
/// the command line reads them.
fn create_test_archive() -> Vec<String> {
    let mut writer = zip::ZipWriter::new(Cursor::new(Vec::new()));
    let options = SimpleFileOptions::default().compression_method(zip::CompressionMethod::Stored);
    writer.start_file("file1.txt", options).unwrap();
    writer.write_all(b"Content of file 1").unwrap();
    writer.start_file("file2.txt", options).unwrap();
    writer.write_all(b"Content of file 2").unwrap();
    writer.start_file("dir1/file3.txt", options).unwrap();
    writer.write_all(b"Content of file 3 in subdirectory").unwrap();
    writer.start_file("dir1/file4.txt", options).unwrap();
    writer.write_all(b"Content of file 4 in subdirectory").unwrap();
    writer.start_file("dir1/dir2/file5.txt", options).unwrap();
    writer.write_all(b"Content of file 5 in nested subdirectory").unwrap();
    let bytes = writer.finish().unwrap().into_inner();
    let archive = zip::ZipArchive::new(Cursor::new(bytes)).unwrap();
    archive.file_names().map(|n| n.unwrap().to_string()).collect()
}

#[test]
fn test_find_entries_with_prefix() {
    let names = create_test_archive();
    let results = find_entries(&names, "dir1/");
    assert_eq!(results.len(), 3, "Should find 3 entries under dir1/");
    assert!(results.contains(&"dir1/file3.txt".to_string()));
    assert!(results.contains(&"dir1/file4.txt".to_string()));
    assert!(results.contains(&"dir1/dir2/file5.txt".to_string()));
}

#[test]
fn test_find_entries_with_extension() {
    let names = create_test_archive();
    let results = find_entries(&names, ".txt");
    assert_eq!(results.len(), 5, "Should find 5 .txt files");
    for result in &results {
        assert!(result.ends_with(".txt"), "All results should end with .txt");
    }
}

#[test]
fn test_find_entries_no_matches() {
    let names = create_test_archive();
    let results = find_entries(&names, ".xyz");
    assert!(results.is_empty(), "Should find no .xyz files");
}

#[test]
fn test_find_entries_exact_match() {
    let names = create_test_archive();
    let results = find_entries(&names, "file1.txt");
    assert_eq!(results.len(), 1, "Should find exactly one file1.txt");
    assert_eq!(results[0], "file1.txt");
}

#[test]
fn test_find_entries_case_sensitive() {
    let names = create_test_archive();
    let results_lower = find_entries(&names, "file1.txt");
    let results_upper = find_entries(&names, "FILE1.TXT");
    assert_eq!(results_lower.len(), 1, "Should find file1.txt with lowercase");
    assert!(results_upper.is_empty(), "Should not find file1.txt with uppercase (case-sensitive)");
}

#[test]
fn test_find_entries_root_level() {
    let names = create_test_archive();
    let results = find_entries(&names, "file");
    assert!(results.contains(&"file1.txt".to_string()));
    assert!(results.contains(&"file2.txt".to_string()));
}

#[test]
fn test_find_entries_directory_only() {
    let names = create_test_archive();
    let results = find_entries(&names, "dir1");
    assert_eq!(results.len(), 3);
    assert!(results.iter().all(|r| r.starts_with("dir1/")));
}

#[test]
fn find_entries_keeps_archive_order() {
    let names = vec!["b/x.txt".to_string(), "a.txt".to_string(), "b/y.txt".to_string()];
    assert_eq!(find_entries(&names, "b/"), vec!["b/x.txt".to_string(), "b/y.txt".to_string()]);
}
