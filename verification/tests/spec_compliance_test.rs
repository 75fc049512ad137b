use tribune_archivum::analysis::{analyze_toc, chapter_entries, ncx_entry, ChapterFile, TocAnalysisResult};

fn chapter_xhtml(name: &str) -> String {
    let anchor = name.replace(".xhtml", "");
    format!(
        "<html xmlns=\"http://www.w3.org/1999/xhtml\">\n<body>\n<h1 id=\"{0}\">{0}</h1>\n<p>Content</p>\n</body>\n</html>",
        anchor
    )
}

/// The archive the original's test book builder writes: chapters under
/// `OEBPS/`, and optionally `OEBPS/toc.ncx` whose entries point at `toc`.
fn analyze_book(chapters: &[&str], toc: Option<&[&str]>) -> TocAnalysisResult {
    let mut names = vec!["mimetype".to_string(), "META-INF/container.xml".to_string(), "OEBPS/content.opf".to_string()];
    for ch in chapters {
        names.push(format!("OEBPS/{}", ch));
    }
    if toc.is_some() {
        names.push("OEBPS/toc.ncx".to_string());
    }
    let files: Vec<ChapterFile> = chapter_entries(&names)
        .into_iter()
        .map(|name| {
            let short = name.trim_start_matches("OEBPS/").to_string();
            ChapterFile { text: chapter_xhtml(&short), name }
        })
        .collect();
    let toc_arg = ncx_entry(&names).map(|p| (p, toc.unwrap().iter().map(|s| s.to_string()).collect::<Vec<_>>()));
    analyze_toc(&files, toc_arg)
}

#[test]
fn detects_toc_presence() {
    let result = analyze_book(&["c1.xhtml", "c2.xhtml"], Some(&["c1.xhtml", "c2.xhtml"]));
    assert!(result.toc_present);
}

#[test]
fn detects_missing_toc() {
    let result = analyze_book(&["c1.xhtml", "c2.xhtml"], None);
    assert!(!result.toc_present);
}

#[test]
fn validates_perfect_toc() {
    let result = analyze_book(&["c1.xhtml", "c2.xhtml"], Some(&["c1.xhtml", "c2.xhtml"]));
    assert!(result.toc_matches_chapters);
    assert!(result.missing_chapters.is_empty());
    assert!(result.orphan_toc_entries.is_empty());
}

#[test]
fn detects_missing_chapter() {
    let result = analyze_book(&["c1.xhtml", "c2.xhtml"], Some(&["c1.xhtml"]));
    assert!(!result.toc_matches_chapters);
    assert_eq!(result.missing_chapters.len(), 1);
}

#[test]
fn detects_orphan_toc_entry() {
    let result = analyze_book(&["c1.xhtml"], Some(&["c1.xhtml", "ghost.xhtml"]));
    assert!(!result.toc_matches_chapters);
    assert_eq!(result.orphan_toc_entries.len(), 1);
}

#[test]
fn detects_order_mismatch() {
    let result = analyze_book(&["c1.xhtml", "c2.xhtml"], Some(&["c2.xhtml", "c1.xhtml"]));
    assert!(!result.toc_matches_chapters);
}

#[test]
fn detects_broken_anchor() {
    let result = analyze_book(&["c1.xhtml"], Some(&["c1.xhtml#missing_anchor"]));
    assert!(!result.toc_matches_chapters);
}

#[test]
fn detects_duplicate_toc_entries() {
    let result = analyze_book(&["c1.xhtml"], Some(&["c1.xhtml", "c1.xhtml"]));
    assert!(!result.toc_matches_chapters);
}

#[test]
fn analysis_names_the_missing_and_orphan_files() {
    let result = analyze_book(&["c1.xhtml", "c2.xhtml", "c3.xhtml"], Some(&["c1.xhtml#c1", "ghost.xhtml", "c3.xhtml"]));
    assert_eq!(result.chapter_files, vec!["OEBPS/c1.xhtml", "OEBPS/c2.xhtml", "OEBPS/c3.xhtml"]);
    assert_eq!(result.missing_chapters, vec!["OEBPS/c2.xhtml".to_string()]);
    assert_eq!(result.orphan_toc_entries, vec!["OEBPS/ghost.xhtml".to_string()]);
    let srcs: Vec<&str> = result.toc_entries.iter().map(|e| e.src.as_str()).collect();
    assert_eq!(srcs, vec!["OEBPS/c1.xhtml#c1", "OEBPS/ghost.xhtml", "OEBPS/c3.xhtml"]);
    assert!(!result.toc_matches_chapters);
}

#[test]
fn analysis_accepts_declared_anchors() {
    let result = analyze_book(&["c1.xhtml", "c2.xhtml"], Some(&["c1.xhtml#c1", "c2.xhtml#c2"]));
    assert!(result.toc_matches_chapters);
}

#[test]
fn analysis_without_a_table_misses_every_chapter() {
    let result = analyze_book(&["c1.xhtml"], None);
    assert!(!result.toc_matches_chapters);
    assert_eq!(result.missing_chapters, vec!["OEBPS/c1.xhtml".to_string()]);
    assert!(result.toc_entries.is_empty());
}
