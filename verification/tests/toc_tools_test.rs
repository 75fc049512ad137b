use tribune_archivum::library::create::{make_ncx, scan_spine_for_headings, xml_escape, SpineChapter, TocEntry};
use tribune_archivum::library::generator::{find_nav_item, find_toc_nav, nav_to_ncx, spine_to_ncx, toc_placement};
use tribune_archivum::library::nav_model::{Body, Head as NavHead, Html, Li, Nav, Ol, A};
use tribune_archivum::library::opf_model::{Item, Itemref, Manifest, Metadata, Package, Spine};
use tribune_archivum::library::verify::{
    check_title, clean_path, extract_clean_text, extract_heading, heading_among, title_in_heading, verify_toc,
    SelectedElement, TocPoint,
};

fn chapter_html(heading: &str) -> String {
    format!(
        "<?xml version=\"1.0\"?><html><head><title>t</title></head><body><h1 class=\"title\">{}</h1><p>Some text.</p></body></html>",
        heading
    )
}

fn package(items: &[(&str, &str)], refs: &[&str], toc: &str) -> Package {
    Package {
        version: "2.0".to_string(),
        xmlns: "http://www.idpf.org/2007/opf".to_string(),
        text: None,
        metadata: Metadata { text: None, title: "Happy Book".to_string() },
        manifest: Manifest {
            text: None,
            item: items
                .iter()
                .map(|(id, href)| Item {
                    id: id.to_string(),
                    href: href.to_string(),
                    media_type: "application/xhtml+xml".to_string(),
                })
                .collect(),
        },
        spine: Spine {
            toc: toc.to_string(),
            text: None,
            itemref: refs.iter().map(|r| Itemref { idref: r.to_string() }).collect(),
        },
    }
}

fn toc_nav(entries: Vec<Li>) -> Nav {
    Nav { epub_type: "toc".to_string(), hidden: None, h1: None, h2: None, ol: Ol { li: entries } }
}

fn link(href: &str, text: &str) -> Li {
    Li { a: Some(A { href: href.to_string(), epub_type: None, text: Some(text.to_string()) }) }
}

#[test]
fn xml_escape_replaces_the_five_specials() {
    assert_eq!(xml_escape("a<b & 'c' \"d\" >"), "a&lt;b &amp; &apos;c&apos; &quot;d&quot; &gt;");
    assert_eq!(xml_escape("plain text"), "plain text");
    assert_eq!(xml_escape(""), "");
}

#[test]
fn xml_escape_is_not_applied_twice() {
    assert_eq!(xml_escape("&amp;"), "&amp;amp;");
}

#[test]
fn make_ncx_writes_numbered_escaped_entries() {
    let toc = vec![TocEntry { title: "A & B".to_string(), file: "OEBPS/c1".to_string(), anchor: Some("x".to_string()) }];
    let expected = "<?xml version=\"1.0\" encoding=\"UTF-8\"?>\n<ncx xmlns=\"http://www.daisy.org/z3986/2005/ncx/\" version=\"2005-1\">\n  <head>\n    <meta name=\"dtb:uid\" content=\"id1\"/>\n  </head>\n  <docTitle><text>id1</text></docTitle>\n  <navMap>\n    <navPoint id=\"navPoint-0\" playOrder=\"0\">\n    <navLabel>\n        <text>A &amp; B</text>\n    </navLabel>\n    <content src=\"OEBPS/c1#x\"/>\n</navPoint>\n\n  </navMap>\n</ncx>";
    assert_eq!(make_ncx(&toc, "id1"), expected);
}

#[test]
fn make_ncx_numbers_from_zero() {
    let toc = vec![
        TocEntry { title: "One".to_string(), file: "a".to_string(), anchor: None },
        TocEntry { title: "Two".to_string(), file: "b".to_string(), anchor: None },
    ];
    let out = make_ncx(&toc, "b1");
    assert!(out.contains("<navPoint id=\"navPoint-0\" playOrder=\"0\">"));
    assert!(out.contains("<navPoint id=\"navPoint-1\" playOrder=\"1\">"));
    assert!(out.contains("<content src=\"b\"/>"));
}

#[test]
fn extract_heading_finds_a_chapter_heading() {
    assert_eq!(extract_heading(&chapter_html("Chapter 1: The Start")), Some("Chapter 1: The Start".to_string()));
}

#[test]
fn extract_heading_accepts_a_prologue_and_skips_the_body() {
    let html = "<html><body class=\"chapter\"><p class=\"c\">Prologue</p></body></html>";
    assert_eq!(extract_heading(html), Some("Prologue".to_string()));
}

#[test]
fn extract_heading_needs_a_class_and_a_short_text() {
    assert_eq!(extract_heading("<html><body><h1>Chapter 1</h1></body></html>"), None);
    let long = "<html><body><p class=\"a\">chapter one two three four five six seven eight nine ten eleven twelve</p></body></html>";
    assert_eq!(extract_heading(long), None);
}

#[test]
fn extract_heading_joins_text_nodes() {
    let html = "<html><body><div class=\"h\"> <span>Chapter</span>  <span>Two</span> </div></body></html>";
    assert_eq!(extract_heading(html), Some("Chapter Two".to_string()));
}

#[test]
fn heading_among_takes_the_first_heading() {
    let els = vec![
        SelectedElement { tag: "body".to_string(), texts: vec!["Chapter 9".to_string()] },
        SelectedElement { tag: "p".to_string(), texts: vec!["intro".to_string()] },
        SelectedElement { tag: "h2".to_string(), texts: vec![" CHAPTER ".to_string(), "Three".to_string()] },
        SelectedElement { tag: "h2".to_string(), texts: vec!["Chapter Four".to_string()] },
    ];
    assert_eq!(heading_among(&els), Some("CHAPTER Three".to_string()));
    assert_eq!(heading_among(&[]), None);
}

#[test]
fn extract_clean_text_trims_and_joins() {
    let texts = vec!["  a ".to_string(), "   ".to_string(), "b".to_string()];
    assert_eq!(extract_clean_text(&texts), "a b");
}

#[test]
fn clean_path_keeps_the_file_name() {
    assert_eq!(clean_path("../Text/chapter1.xhtml#sec"), "chapter1.xhtml");
    assert_eq!(clean_path("a/b/c.xhtml?x=1#y"), "c.xhtml");
    assert_eq!(clean_path("plain.xhtml"), "plain.xhtml");
    assert_eq!(clean_path("dir/"), "");
}

#[test]
fn title_in_heading_compares_words_ignoring_case() {
    let h = Some("Chapter 1: The Beginning".to_string());
    assert!(title_in_heading(&h, "The Beginning"));
    assert!(title_in_heading(&h, "chapter 1"));
    assert!(!title_in_heading(&h, "1. The Beginning"));
    assert!(title_in_heading(&h, "\u{2014}"));
    assert!(!title_in_heading(&None, "The Beginning"));
}

#[test]
fn check_title_reads_the_chapter_heading() {
    assert!(check_title(&Some(chapter_html("Chapter Two")), "Chapter Two"));
    assert!(!check_title(&Some(chapter_html("Chapter Two")), "Chapter Three"));
    assert!(!check_title(&None, "Chapter Two"));
}

#[test]
fn verify_toc_returns_the_last_matched_chapter() {
    let toc = vec![
        TocPoint { content: Some("Text/c1.xhtml#a".to_string()), label: "The Start".to_string() },
        TocPoint { content: Some("notes.xhtml".to_string()), label: "Notes".to_string() },
        TocPoint { content: Some("c2.xhtml".to_string()), label: "Chapter Two".to_string() },
    ];
    let spine = vec!["c1.xhtml".to_string(), "c2.xhtml".to_string()];
    let chapters = vec![Some(chapter_html("Chapter 1: The Start")), Some(chapter_html("Chapter Two"))];
    assert_eq!(verify_toc(&toc, &spine, &chapters), Ok(1));
}

#[test]
fn verify_toc_reports_its_failures() {
    let spine = vec!["c1.xhtml".to_string()];
    let chapters = vec![Some(chapter_html("Chapter 1: The Start"))];
    assert_eq!(verify_toc(&[], &spine, &chapters), Err("no toc found".to_string()));
    let unaligned = vec![TocPoint { content: Some("c1.xhtml".to_string()), label: "Elsewhere".to_string() }];
    assert_eq!(verify_toc(&unaligned, &spine, &chapters), Err("Toc not Aligned".to_string()));
    let unreadable = vec![TocPoint { content: None, label: "x".to_string() }];
    assert_eq!(verify_toc(&unreadable, &spine, &chapters), Err("could not extract content str".to_string()));
    let elsewhere = vec![TocPoint { content: Some("notes.xhtml".to_string()), label: "x".to_string() }];
    assert_eq!(verify_toc(&elsewhere, &spine, &chapters), Ok(0));
}

#[test]
fn scan_spine_for_headings_collects_headed_chapters() {
    let chapters = vec![
        SpineChapter { idref: "c1".to_string(), text: Some(chapter_html("Chapter 1")) },
        SpineChapter { idref: "c2".to_string(), text: None },
        SpineChapter { idref: "c3".to_string(), text: Some("<p>no heading</p>".to_string()) },
    ];
    let toc = scan_spine_for_headings(&chapters);
    assert_eq!(toc.len(), 1);
    assert_eq!(toc[0].title, "Chapter 1");
    assert_eq!(toc[0].file, "OEBPS/c1");
    assert!(toc[0].anchor.is_none());
}

#[test]
fn spine_to_ncx_numbers_chapters_from_one() {
    let opf = package(&[("c1", "Text/c1.xhtml"), ("c2", "Text/c2.xhtml")], &["c2", "c1"], "ncx");
    let ncx = spine_to_ncx(&opf).unwrap();
    assert_eq!(ncx.xmlns, "http://www.daisy.org/z3986/2005/ncx/");
    assert_eq!(ncx.doc_title.text, "Happy Book");
    let points = &ncx.nav_map.nav_point;
    assert_eq!(points.len(), 2);
    assert_eq!(points[0].id, "navPoint-1");
    assert_eq!(points[0].play_order, "1");
    assert_eq!(points[0].nav_label.text, "Chapter 1");
    assert_eq!(points[0].content.src, "Text/c2.xhtml");
    assert_eq!(points[1].id, "navPoint-2");
    assert_eq!(points[1].content.src, "Text/c1.xhtml");
}

#[test]
fn spine_to_ncx_rejects_bad_spines() {
    let dangling = package(&[("c1", "c1.xhtml")], &["c1", "c9"], "ncx");
    assert_eq!(spine_to_ncx(&dangling).err(), Some("Spine references missing manifest item".to_string()));
    let empty = package(&[("c1", "c1.xhtml")], &[], "ncx");
    assert_eq!(spine_to_ncx(&empty).err(), Some("Spine contains no items".to_string()));
}

#[test]
fn nav_to_ncx_decodes_and_trims_links() {
    let nav = toc_nav(vec![link(" c1%20a.xhtml ", " One "), link("c2.xhtml#x", "Two")]);
    let ncx = nav_to_ncx(&nav, "Title".to_string()).unwrap();
    let points = &ncx.nav_map.nav_point;
    assert_eq!(ncx.doc_title.text, "Title");
    assert_eq!(points.len(), 2);
    assert_eq!(points[0].nav_label.text, "One");
    assert_eq!(points[0].content.src, "c1 a.xhtml");
    assert_eq!(points[1].id, "navPoint-2");
    assert_eq!(points[1].play_order, "2");
    assert_eq!(points[1].content.src, "c2.xhtml#x");
}

#[test]
fn nav_to_ncx_reports_each_invalid_entry() {
    let mut landmarks = toc_nav(vec![link("a.xhtml", "A")]);
    landmarks.epub_type = "landmarks".to_string();
    assert_eq!(nav_to_ncx(&landmarks, String::new()).err(), Some("Nav is not a TOC (epub:type != toc)".to_string()));
    assert_eq!(nav_to_ncx(&toc_nav(vec![link("a.xhtml", "  ")]), String::new()).err(), Some("Nav entry text is empty".to_string()));
    assert_eq!(nav_to_ncx(&toc_nav(vec![link("a.xhtml", &"x".repeat(100))]), String::new()).err(), Some("Nav entry text too long".to_string()));
    assert!(nav_to_ncx(&toc_nav(vec![link("a.xhtml", &"x".repeat(99))]), String::new()).is_ok());
    assert_eq!(nav_to_ncx(&toc_nav(vec![link(" ", "A")]), String::new()).err(), Some("Nav entry href is empty".to_string()));
    assert_eq!(nav_to_ncx(&toc_nav(vec![]), String::new()).err(), Some("Nav contains no entries".to_string()));
    assert_eq!(nav_to_ncx(&toc_nav(vec![Li { a: None }]), String::new()).err(), Some("Nav entry text is empty".to_string()));
    assert!(nav_to_ncx(&toc_nav(vec![link("%FF", "A")]), String::new()).is_err());
}

#[test]
fn find_nav_item_and_toc_nav() {
    let opf = package(&[("c1", "c1.xhtml"), ("nav.xhtml", "nav.xhtml")], &["c1"], "ncx");
    assert_eq!(find_nav_item(&opf), Some(1));
    let plain = package(&[("c1", "c1.xhtml")], &["c1"], "ncx");
    assert_eq!(find_nav_item(&plain), None);
    let mut landmarks = toc_nav(vec![]);
    landmarks.epub_type = "landmarks".to_string();
    let html = Html {
        xmlns: String::new(),
        xmlns_epub: String::new(),
        text: None,
        head: NavHead { title: None },
        body: Body { nav: vec![landmarks, toc_nav(vec![])] },
    };
    assert_eq!(find_toc_nav(&html), Ok(1));
    let none = Html { xmlns: String::new(), xmlns_epub: String::new(), text: None, head: NavHead { title: None }, body: Body { nav: vec![] } };
    assert_eq!(find_toc_nav(&none), Err("No nav with epub:type='toc' found".to_string()));
}

#[test]
fn toc_placement_is_relative_to_the_package() {
    assert_eq!(
        toc_placement("OEBPS/nav.xhtml", "OEBPS/content.opf"),
        Ok(("OEBPS/toc.ncx".to_string(), "toc.ncx".to_string()))
    );
    assert_eq!(
        toc_placement("OEBPS/Text/nav.xhtml", "OEBPS/content.opf"),
        Ok(("OEBPS/Text/toc.ncx".to_string(), "Text/toc.ncx".to_string()))
    );
    assert_eq!(toc_placement("nav.xhtml", "/"), Err("opf has no parent".to_string()));
}

#[test]
fn xml_escape_decodes_back_to_its_input() {
    let input = "Tom & Jerry <say> \"hi\" 'there' &amp;";
    let escaped = xml_escape(input);
    let decoded = escaped
        .replace("&lt;", "<")
        .replace("&gt;", ">")
        .replace("&quot;", "\"")
        .replace("&apos;", "'")
        .replace("&amp;", "&");
    assert_eq!(decoded, input);
}
