use std::io::{Cursor, Write};

use tribune_archivum::library::opf_model::{Item, Itemref, Manifest, Metadata, Package, Spine};
use tribune_archivum::library::toc_model::{Content, DocTitle, Head, NavLabel, NavMap, NavPoint, Ncx};
use tribune_archivum::library::verifiers::{
    normalize_relative_path, toc_file_path, validate_playorder, validate_zip_safety, verify_toc_integrity,
    verify_zip_integrity, ZipEntryStats, ZipSafetyIssue, MAX_FILES, MAX_SINGLE_FILE,
    MAX_TOTAL_UNCOMPRESSED,
};
use zip::write::SimpleFileOptions;
use zip::CompressionMethod;

/// Builds an archive in memory and reads back each entry's name and sizes.
fn entry_stats<F>(build: F) -> Vec<ZipEntryStats>
where
    F: FnOnce(&mut zip::ZipWriter<Cursor<Vec<u8>>>),
{
    let mut writer = zip::ZipWriter::new(Cursor::new(Vec::new()));
    build(&mut writer);
    let bytes = writer.finish().unwrap().into_inner();
    let mut archive = zip::ZipArchive::new(Cursor::new(bytes)).unwrap();
    let mut stats = Vec::new();
    for i in 0..archive.len() {
        let entry = archive.by_index(i).unwrap();
        stats.push(ZipEntryStats {
            name: entry.name().unwrap().to_string(),
            compressed: entry.compressed_size(),
            uncompressed: entry.size(),
        });
    }
    stats
}

#[test]
fn zip_safety_valid_archive() {
    let stats = entry_stats(|zip| {
        let options = SimpleFileOptions::default().compression_method(CompressionMethod::Stored);
        zip.start_file("file.txt", options).unwrap();
        zip.write_all(b"hello world").unwrap();
    });
    assert!(validate_zip_safety(&stats).is_ok());
}

#[test]
fn zip_safety_too_many_files() {
    let stats = entry_stats(|zip| {
        let options = SimpleFileOptions::default();
        for i in 0..(MAX_FILES + 1) {
            zip.start_file(format!("f{}.txt", i), options).unwrap();
            zip.write_all(b"x").unwrap();
        }
    });
    assert!(validate_zip_safety(&stats).is_err());
}

#[test]
fn zip_safety_total_uncompressed_limit() {
    // Stored rather than deflated: the sizes are what the check reads, and
    // deflating half a gigabyte does not fit the time a test is given.
    let stats = entry_stats(|zip| {
        let options = SimpleFileOptions::default().compression_method(CompressionMethod::Stored);
        let chunk = vec![0u8; (MAX_TOTAL_UNCOMPRESSED / 2 + 1) as usize];
        zip.start_file("a.bin", options).unwrap();
        zip.write_all(&chunk).unwrap();
        zip.start_file("b.bin", options).unwrap();
        zip.write_all(&chunk).unwrap();
    });
    assert!(validate_zip_safety(&stats).is_err());
}

#[test]
fn zip_safety_single_file_limit() {
    let stats = entry_stats(|zip| {
        let options = SimpleFileOptions::default();
        let data = vec![0u8; (MAX_SINGLE_FILE + 1) as usize];
        zip.start_file("huge.bin", options).unwrap();
        zip.write_all(&data).unwrap();
    });
    assert!(validate_zip_safety(&stats).is_err());
}

#[test]
fn zip_safety_high_compression_ratio() {
    let stats = entry_stats(|zip| {
        let options = SimpleFileOptions::default().compression_method(CompressionMethod::Deflated);
        let data = vec![b'A'; 2_000_000];
        zip.start_file("bomb.txt", options).unwrap();
        zip.write_all(&data).unwrap();
    });
    assert!(validate_zip_safety(&stats).is_err());
}

#[test]
fn zip_safety_path_traversal_dotdot() {
    let stats = entry_stats(|zip| {
        let options = SimpleFileOptions::default();
        zip.start_file("../evil.txt", options).unwrap();
        zip.write_all(b"bad").unwrap();
    });
    assert!(validate_zip_safety(&stats).is_err());
}

#[test]
fn zip_safety_path_traversal_absolute() {
    let stats = entry_stats(|zip| {
        let options = SimpleFileOptions::default();
        zip.start_file("/root.txt", options).unwrap();
        zip.write_all(b"bad").unwrap();
    });
    assert!(validate_zip_safety(&stats).is_err());
}

#[test]
fn zip_safety_zero_compressed_size() {
    let stats = entry_stats(|zip| {
        let options = SimpleFileOptions::default().compression_method(CompressionMethod::Stored);
        zip.start_file("plain.txt", options).unwrap();
        zip.write_all(b"normal file").unwrap();
    });
    assert!(validate_zip_safety(&stats).is_ok());
}

fn stat(name: &str, compressed: u64, uncompressed: u64) -> ZipEntryStats {
    ZipEntryStats { name: name.to_string(), compressed, uncompressed }
}

#[test]
fn zip_safety_names_the_first_problem() {
    match validate_zip_safety(&[stat("a", 10, 10), stat("big", 1, MAX_SINGLE_FILE + 1)]) {
        Err(ZipSafetyIssue::FileTooLarge { name }) => assert_eq!(name, "big"),
        _ => panic!("expected a file-too-large issue"),
    }
    match validate_zip_safety(&[stat("r.txt", 10, 1001)]) {
        Err(ZipSafetyIssue::SuspiciousRatio { name, uncompressed, compressed }) => {
            assert_eq!((name.as_str(), uncompressed, compressed), ("r.txt", 1001, 10));
        }
        _ => panic!("expected a ratio issue"),
    }
    assert!(validate_zip_safety(&[stat("r.txt", 10, 1000)]).is_ok());
    match validate_zip_safety(&[stat("a/../b", 5, 5)]) {
        Err(ZipSafetyIssue::PathTraversal { name }) => assert_eq!(name, "a/../b"),
        _ => panic!("expected a traversal issue"),
    }
    let too_many: Vec<ZipEntryStats> = (0..MAX_FILES + 1).map(|i| stat(&format!("f{}", i), 1, 1)).collect();
    match validate_zip_safety(&too_many) {
        Err(ZipSafetyIssue::TooManyFiles { count }) => assert_eq!(count, MAX_FILES + 1),
        _ => panic!("expected too many files"),
    }
    let many: Vec<ZipEntryStats> = (0..11).map(|i| stat(&format!("part{}", i), MAX_SINGLE_FILE, MAX_SINGLE_FILE)).collect();
    match validate_zip_safety(&many) {
        Err(ZipSafetyIssue::TotalTooLarge) => {}
        _ => panic!("expected the total to be too large"),
    }
}

#[test]
fn validate_playorder_accepts_positive_numbers() {
    assert_eq!(validate_playorder("1"), Ok(1));
    assert_eq!(validate_playorder("+42"), Ok(42));
    assert_eq!(validate_playorder("4294967295"), Ok(4294967295));
}

#[test]
fn validate_playorder_rejects_the_rest() {
    assert_eq!(validate_playorder("0"), Err("playOrder must be positive: '0'".to_string()));
    assert_eq!(validate_playorder("one"), Err("Invalid playOrder, not a number: 'one'".to_string()));
    assert!(validate_playorder("").is_err());
    assert!(validate_playorder("+").is_err());
    assert!(validate_playorder("-1").is_err());
    assert!(validate_playorder("4294967296").is_err());
    assert!(validate_playorder(" 1").is_err());
}

#[test]
fn normalize_relative_path_resolves_dots() {
    assert_eq!(normalize_relative_path("OEBPS/../OEBPS/./Text/ch1.xhtml"), "OEBPS/Text/ch1.xhtml");
    assert_eq!(normalize_relative_path("/abs/x.xhtml"), "abs/x.xhtml");
    assert_eq!(normalize_relative_path("../../a.xhtml"), "a.xhtml");
    assert_eq!(normalize_relative_path(""), "");
}

/// The package that a generated test book carries: one item per chapter (id
/// and href are the file name), the NCX item when it has a table, and the
/// spine's `toc` attribute naming "ncx".
fn test_package(chapters: &[&str], spine: &[&str], with_toc: bool) -> Package {
    let mut items = Vec::new();
    if with_toc {
        items.push(Item { id: "ncx".to_string(), href: "toc.ncx".to_string(), media_type: "application/x-dtbncx+xml".to_string() });
    }
    for c in chapters {
        items.push(Item { id: c.to_string(), href: c.to_string(), media_type: "application/xhtml+xml".to_string() });
    }
    Package {
        version: "2.0".to_string(),
        xmlns: "http://www.idpf.org/2007/opf".to_string(),
        text: None,
        metadata: Metadata { text: None, title: "Happy Book".to_string() },
        manifest: Manifest { text: None, item: items },
        spine: Spine { toc: "ncx".to_string(), text: None, itemref: spine.iter().map(|s| Itemref { idref: s.to_string() }).collect() },
    }
}

/// The entry names of a generated test book.
fn test_names(chapters: &[&str], removed: &[&str], with_toc: bool) -> Vec<String> {
    let mut names = vec!["META-INF/container.xml".to_string(), "content.opf".to_string()];
    for c in chapters {
        if !removed.contains(c) {
            names.push(c.to_string());
        }
    }
    if with_toc {
        names.push("toc.ncx".to_string());
    }
    names
}

fn test_ncx(points: &[(&str, &str, &str)]) -> Ncx {
    Ncx {
        xmlns: "http://www.daisy.org/z3986/2005/ncx/".to_string(),
        text: None,
        head: Head {},
        doc_title: DocTitle { text: "Happy TOC".to_string() },
        nav_map: NavMap {
            nav_point: points
                .iter()
                .enumerate()
                .map(|(i, (href, text, order))| NavPoint {
                    id: format!("np{}", i + 1),
                    play_order: order.to_string(),
                    text: None,
                    nav_label: NavLabel { text: text.to_string() },
                    content: Content { src: href.to_string() },
                })
                .collect(),
        },
    }
}

#[test]
fn epub_integrity_happy_path() {
    let names = test_names(&["c1.xhtml", "c2.xhtml"], &[], true);
    let opf = test_package(&["c1.xhtml", "c2.xhtml"], &["c1.xhtml", "c2.xhtml"], true);
    let result = verify_zip_integrity(&names, "content.opf", &opf);
    assert!(result.is_ok());
    assert_eq!(result.unwrap(), false);
}

#[test]
fn epub_integrity_missing_file_from_manifest() {
    let names = test_names(&["c1.xhtml", "c2.xhtml"], &["c2.xhtml"], true);
    let opf = test_package(&["c1.xhtml", "c2.xhtml"], &["c1.xhtml", "c2.xhtml"], true);
    let result = verify_zip_integrity(&names, "content.opf", &opf);
    assert_eq!(result, Err("Missing file in zip: c2.xhtml".to_string()));
}

#[test]
fn epub_integrity_missing_toc() {
    let names = test_names(&["c1.xhtml", "c2.xhtml"], &[], false);
    let opf = test_package(&["c1.xhtml", "c2.xhtml"], &["c1.xhtml", "c2.xhtml"], false);
    let result = verify_zip_integrity(&names, "content.opf", &opf).unwrap();
    assert_eq!(result, true)
}

#[test]
fn zip_integrity_reports_unknown_idrefs_and_skips_without_toc() {
    let names = test_names(&["c1.xhtml"], &[], true);
    let opf = test_package(&["c1.xhtml"], &["c1.xhtml", "c9.xhtml"], true);
    assert_eq!(verify_zip_integrity(&names, "content.opf", &opf), Err("missing idref: c9.xhtml".to_string()));
    let mut no_toc = test_package(&["c1.xhtml"], &["c9.xhtml"], true);
    no_toc.spine.toc = String::new();
    assert_eq!(verify_zip_integrity(&names, "content.opf", &no_toc), Ok(true));
}

fn check_toc(points: &[(&str, &str, &str)]) -> Result<(), String> {
    let names = test_names(&["c1.xhtml", "c2.xhtml"], &[], true);
    let opf = test_package(&["c1.xhtml", "c2.xhtml"], &["c1.xhtml", "c2.xhtml"], true);
    assert_eq!(verify_zip_integrity(&names, "content.opf", &opf), Ok(false));
    let toc_file = toc_file_path("content.opf", &opf).unwrap();
    assert_eq!(toc_file, "toc.ncx");
    verify_toc_integrity(&names, &toc_file, &test_ncx(points))
}

#[test]
fn toc_happy_path() {
    assert!(check_toc(&[("c1.xhtml", "chap1", "1"), ("c2.xhtml", "chap2", "2")]).is_ok());
}

#[test]
fn toc_invalid_playorder() {
    let result = check_toc(&[("c1.xhtml", " chap1", "one"), ("c2.xhtml", "chap2", "two")]);
    assert_eq!(result, Err("play order is not a number: one".to_string()));
}

#[test]
fn toc_missing_file() {
    let result = check_toc(&[("c1.xhtml", "chap1", "1"), ("c3.xhtml", "chap2", "2")]);
    assert_eq!(result, Err("Nav point 'c3.xhtml' not found in EPUB (resolved path: 'c3.xhtml')".to_string()));
}

#[test]
fn toc_navlabel_length_limit() {
    let long_label = "A".repeat(500);
    let result = check_toc(&[("c1.xhtml", &long_label, "1"), ("c2.xhtml", "Chapter 2", "2")]);
    assert_eq!(result, Err("navpoint text too long".to_string()));
}

#[test]
fn toc_navlabel_empty() {
    let result = check_toc(&[("c1.xhtml", "", "1"), ("c2.xhtml", "Chapter 2", "2")]);
    assert_eq!(result, Err("navpoint text not existing".to_string()));
}

#[test]
fn toc_no_navpoints() {
    let result = check_toc(&[]);
    assert_eq!(result, Err("ToC did not contain any nav points".to_string()));
}

#[test]
fn toc_file_path_needs_the_ncx_item() {
    let opf = test_package(&["c1.xhtml"], &["c1.xhtml"], false);
    assert_eq!(toc_file_path("content.opf", &opf), Err("no toc file found".to_string()));
    let nested = test_package(&["c1.xhtml"], &["c1.xhtml"], true);
    assert_eq!(toc_file_path("OEBPS/content.opf", &nested), Ok("OEBPS/toc.ncx".to_string()));
}

#[test]
fn spine_generated_table_passes_the_toc_check() {
    let names = test_names(&["c1.xhtml", "c2.xhtml"], &[], true);
    let opf = test_package(&["c1.xhtml", "c2.xhtml"], &["c1.xhtml", "c2.xhtml"], true);
    let ncx = tribune_archivum::library::generator::spine_to_ncx(&opf).unwrap();
    assert_eq!(verify_toc_integrity(&names, "toc.ncx", &ncx), Ok(()));
}
