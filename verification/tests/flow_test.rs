use tribune_archivum::analysis::{chapter_entries, ncx_entry};
use tribune_archivum::base::result::ValidationResult;
use tribune_archivum::base::types::{ErrorCode, OpfMetadata, ValidationError, ValidationLocation};
use tribune_archivum::epub::container::ContainerDocument;
use tribune_archivum::epub::navigation::{DocumentLoad, NavDocument, NavElement, NavItem, NavLink, NavList};
use tribune_archivum::epub::opf::{RawManifestItem, RawOpf, RawSpineItem};
use tribune_archivum::library::helpers::{
    container_entry, count_lines, library_file_kind, opf_path_from_container, rewrite_fate, strip_epub_boilerplate,
    LibraryFileKind, RewriteFate,
};
use tribune_archivum::library::orchestrator::{begin_process_epub, process_epub, EpubAction, EpubEvent, EpubProcess};
use tribune_archivum::report::print_text_output;
use tribune_archivum::validator::{advance, begin_validation, EntryLoad, Reply, Request, Validation};

fn raw_item(id: &str, href: &str, media_type: &str, properties: Option<&str>) -> RawManifestItem {
    RawManifestItem {
        id: id.to_string(),
        href: href.to_string(),
        media_type: media_type.to_string(),
        properties: properties.map(|p| p.to_string()),
    }
}

fn book_opf() -> RawOpf {
    RawOpf {
        metadata: OpfMetadata { title: Some("Book".to_string()), creators: vec![], language: None, identifiers: vec![] },
        manifest_items: vec![
            raw_item("nav", "nav.xhtml", "application/xhtml+xml", Some("nav")),
            raw_item("c1", "c1.xhtml", "application/xhtml+xml", None),
        ],
        spine_items: vec![RawSpineItem { idref: "c1".to_string(), linear: None, properties: None }],
    }
}

fn nav_doc(hrefs: &[&str]) -> NavDocument {
    NavDocument {
        nav_element: NavElement {
            ordered_list: Some(NavList {
                list_items: hrefs
                    .iter()
                    .map(|h| NavItem { links: vec![NavLink { href: h.to_string(), title: Some("Chapter".to_string()) }], subitems: None })
                    .collect(),
            }),
        },
    }
}

/// Runs a validation, answering each request from the given book.
fn run(opf: RawOpf, nav: NavDocument, present: bool) -> ValidationResult {
    let (mut state, mut request) = begin_validation();
    let mut opf = Some(opf);
    let mut nav = Some(nav);
    loop {
        let reply = match request {
            Request::OpenArchive => Reply::ArchiveOpened(true),
            Request::LoadContainer => Reply::Container(EntryLoad::Present(DocumentLoad::Loaded(ContainerDocument {
                root_files: vec!["content.opf".to_string()],
            }))),
            Request::LoadOpf { .. } => Reply::Opf(EntryLoad::Present(DocumentLoad::Loaded(opf.take().unwrap()))),
            Request::LoadNav { .. } => Reply::Nav(EntryLoad::Present(DocumentLoad::Loaded(nav.take().unwrap()))),
            Request::LoadNcx { .. } => Reply::Ncx(EntryLoad::Missing),
            Request::CheckEntries { paths } => Reply::Entries(paths.iter().map(|_| present).collect()),
            Request::Finish { result } => return result,
        };
        let next = advance(state, reply);
        state = next.0;
        request = next.1;
    }
}

#[test]
fn validation_of_a_sound_book_passes() {
    let result = run(book_opf(), nav_doc(&["c1.xhtml"]), true);
    assert!(result.passed);
    assert!(result.errors.is_empty());
}

#[test]
fn validation_reports_missing_archive_entries() {
    let result = run(book_opf(), nav_doc(&["c1.xhtml"]), false);
    assert!(!result.passed);
    assert!(result.errors.iter().all(|e| e.code == ErrorCode::ManifestArchiveMismatch));
    assert_eq!(result.errors.len(), 2);
}

#[test]
fn validation_reports_navigation_outside_the_spine() {
    let result = run(book_opf(), nav_doc(&["elsewhere.xhtml"]), true);
    assert!(result.errors.iter().any(|e| e.code == ErrorCode::NavSpineMismatch));
}

#[test]
fn validation_stops_on_an_empty_spine() {
    let mut opf = book_opf();
    opf.spine_items.clear();
    let result = run(opf, nav_doc(&["c1.xhtml"]), true);
    assert_eq!(result.errors.len(), 1);
    assert_eq!(result.errors[0].code, ErrorCode::EmptySpine);
}

#[test]
fn validation_stops_when_the_archive_does_not_open() {
    let (state, _) = begin_validation();
    let (next, request) = advance(state, Reply::ArchiveOpened(false));
    assert!(matches!(next, Validation::Finished));
    match request {
        Request::Finish { result } => {
            assert_eq!(result.errors.len(), 1);
            assert_eq!(result.errors[0].code, ErrorCode::InvalidZip);
        }
        _ => panic!("expected the validation to finish"),
    }
}

#[test]
fn validation_reports_a_missing_container() {
    let (state, _) = begin_validation();
    let (state, _) = advance(state, Reply::ArchiveOpened(true));
    match advance(state, Reply::Container(EntryLoad::Missing)).1 {
        Request::Finish { result } => assert_eq!(result.errors[0].code, ErrorCode::MissingContainerXml),
        _ => panic!("expected the validation to finish"),
    }
}

#[test]
fn process_epub_regenerates_once_when_the_toc_fails() {
    let (s, a) = begin_process_epub();
    assert!(matches!(a, EpubAction::CheckZip));
    let (s, a) = process_epub(s, EpubEvent::ZipChecked(Ok(true)));
    assert!(matches!(a, EpubAction::CheckToc));
    let (s, a) = process_epub(s, EpubEvent::TocChecked(Err("bad".to_string())));
    assert!(matches!(a, EpubAction::GenerateToc));
    let (s, a) = process_epub(s, EpubEvent::TocGenerated(Ok(())));
    assert!(matches!(a, EpubAction::CheckZip));
    let (s, a) = process_epub(s, EpubEvent::ZipChecked(Ok(false)));
    assert!(matches!(a, EpubAction::CheckToc));
    let (s, a) = process_epub(s, EpubEvent::TocChecked(Err("still bad".to_string())));
    assert!(matches!(s, EpubProcess::Finished));
    match a {
        EpubAction::Done(Err(m)) => assert_eq!(m, "TOC still invalid after regeneration"),
        _ => panic!("expected a failure"),
    }
}

#[test]
fn process_epub_passes_a_sound_book_and_stops_on_errors() {
    let (s, _) = begin_process_epub();
    let (s1, _) = process_epub(s, EpubEvent::ZipChecked(Ok(true)));
    match process_epub(s1, EpubEvent::TocChecked(Ok(()))).1 {
        EpubAction::Done(Ok(())) => {}
        _ => panic!("expected success"),
    }
    let (s, _) = begin_process_epub();
    match process_epub(s, EpubEvent::ZipChecked(Err("broken".to_string()))).1 {
        EpubAction::Done(Err(m)) => assert_eq!(m, "broken"),
        _ => panic!("expected the check's error"),
    }
    let (s, _) = begin_process_epub();
    let (s, a) = process_epub(s, EpubEvent::ZipChecked(Ok(false)));
    assert!(matches!(a, EpubAction::GenerateToc));
    let (s, _) = process_epub(s, EpubEvent::TocGenerated(Ok(())));
    match process_epub(s, EpubEvent::ZipChecked(Err("x".to_string()))).1 {
        EpubAction::Done(Err(m)) => assert_eq!(m, "ZIP integrity failed after regeneration"),
        _ => panic!("expected a failure"),
    }
}

#[test]
fn print_text_output_of_a_passing_result() {
    assert_eq!(print_text_output(&ValidationResult::new(), false), "\u{2713} EPUB validation passed\n");
}

#[test]
fn print_text_output_lists_errors_and_requested_warnings() {
    let mut result = ValidationResult::new();
    result.add_error(ValidationError::new(ErrorCode::InvalidZip, ValidationLocation::Root));
    result.add_warning(ValidationError::warning(ErrorCode::MissingCover, ValidationLocation::ArchiveEntry { path: "OEBPS/cover.jpg".to_string() }));
    let shown = print_text_output(&result, true);
    let expected = format!(
        "\u{2717} EPUB validation failed\n  1 errors, 1 warnings\n\nWarnings:\n  \u{26a0} [{}] OEBPS/cover.jpg: {}\n\nErrors:\n  \u{2717} [Not a valid ZIP archive] root: Not a valid ZIP archive\n\n",
        ErrorCode::MissingCover.message(),
        ErrorCode::MissingCover.message()
    );
    assert_eq!(shown, expected);
    let hidden = print_text_output(&result, false);
    assert_eq!(
        hidden,
        "\u{2717} EPUB validation failed\n  1 errors, 1 warnings\n\nErrors:\n  \u{2717} [Not a valid ZIP archive] root: Not a valid ZIP archive\n\n"
    );
    assert!(!hidden.contains("\u{26a0}"));
}

#[test]
fn chapter_entries_and_ncx_entry_survey_the_names() {
    let names: Vec<String> = ["OEBPS/toc.xhtml", "OEBPS/c1.xhtml", "OEBPS/toc.ncx", "mimetype"].iter().map(|s| s.to_string()).collect();
    assert_eq!(chapter_entries(&names), vec!["OEBPS/c1.xhtml".to_string()]);
    assert_eq!(ncx_entry(&names), Some("OEBPS/toc.ncx".to_string()));
    assert_eq!(ncx_entry(&["a.xhtml".to_string()]), None);
}

#[test]
fn epub_integrity_missing_container() {
    let names = vec!["content.opf".to_string(), "c1.xhtml".to_string()];
    assert_eq!(container_entry(&names), Err("container.xml not found".to_string()));
    let nested = vec!["x/META-INF/container.xml".to_string()];
    assert_eq!(container_entry(&nested), Ok("x/META-INF/container.xml".to_string()));
}

#[test]
fn opf_path_from_container_reads_full_path() {
    let xml = "<container><rootfiles><rootfile media-type=\"application/oebps-package+xml\" full-path=\"OEBPS/content.opf\"/></rootfiles></container>";
    assert_eq!(opf_path_from_container(xml), Ok("OEBPS/content.opf".to_string()));
    assert_eq!(opf_path_from_container("<container/>"), Err("No rootfile element with full-path found".to_string()));
}

#[test]
fn strip_epub_boilerplate_keeps_the_body() {
    let xhtml = "<?xml version=\"1.0\"?>\n<html xmlns=\"x\"><head><title>t</title></head><body class=\"b\">\n<p>Hi</p>\n</body></html>\n";
    assert_eq!(strip_epub_boilerplate(xhtml), "<p>Hi</p>");
}

#[test]
fn library_file_kind_by_extension() {
    assert!(matches!(library_file_kind("EPUB"), LibraryFileKind::Epub));
    assert!(matches!(library_file_kind("azw3"), LibraryFileKind::Convertible));
    assert!(matches!(library_file_kind("txt"), LibraryFileKind::Other));
}

#[test]
fn rewrite_fate_of_entries() {
    assert!(matches!(rewrite_fate("OEBPS/content.opf"), RewriteFate::Package));
    assert!(matches!(rewrite_fate("OEBPS/toc.ncx"), RewriteFate::Drop));
    assert!(matches!(rewrite_fate("OEBPS/toc.ncx.bak"), RewriteFate::Drop));
    assert!(matches!(rewrite_fate("OEBPS/c1.xhtml"), RewriteFate::Copy));
}

#[test]
fn count_lines_counts_split_pieces() {
    assert_eq!(count_lines(""), 1);
    assert_eq!(count_lines("a"), 1);
    assert_eq!(count_lines("a\nb\n"), 3);
    assert_eq!(count_lines("a\nb\n").to_owned(), "a\nb\n".split('\n').count());
}
