use std::collections::hash_map::DefaultHasher;
use std::hash::{Hash, Hasher};

use tribune_archivum::library::info_sender::{
    aslugify, begin_book_data, book_data_step, book_placement, book_record, clean_title, epub_file_name,
    pick_search_hit, remove_whitespace, sanitize_component, search_query, slugify, title_cut_is_safe, u64_to_hex,
    BookData, BookLookup, LookupAction, LookupEvent, OpfBookInfo, SearchHit,
};

fn hash_hex(s: &str) -> String {
    let mut hasher = DefaultHasher::new();
    s.hash(&mut hasher);
    format!("{:x}", hasher.finish())
}

#[test]
fn book_data_new_is_empty() {
    let b = BookData::new();
    assert_eq!(b.author, "");
    assert_eq!(b.title, "");
    assert_eq!(b.series, "");
    assert_eq!(b.pos, 0);
}

#[test]
fn slugify_joins_alphanumeric_runs() {
    assert_eq!(slugify("Hello, World!"), "hello-world");
    assert_eq!(slugify("  --Brandon Sanderson--  "), "brandon-sanderson");
    assert_eq!(slugify("Élan vital"), "lan-vital");
    assert_eq!(aslugify("J.R.R. Tolkien"), "j-r-r-tolkien");
}

#[test]
fn slugify_falls_back_to_a_hash() {
    assert_eq!(slugify("!!!"), format!("book-{}", hash_hex("!!!")));
    assert_eq!(aslugify(""), format!("author-{}", hash_hex("")));
}

#[test]
fn slug_of_a_slug_is_itself() {
    for s in ["Hello, World!", "!!!", "a--b", "Mixed CASE 42"] {
        let once = slugify(s);
        assert_eq!(slugify(&once), once);
        assert!(once.chars().all(|c| c.is_ascii_lowercase() || c.is_ascii_digit() || c == '-'));
    }
}

#[test]
fn u64_to_hex_matches_format() {
    assert_eq!(u64_to_hex(0), "0");
    assert_eq!(u64_to_hex(255), "ff");
    assert_eq!(u64_to_hex(u64::MAX), format!("{:x}", u64::MAX));
}

#[test]
fn remove_whitespace_keeps_lowercased_letters() {
    assert_eq!(remove_whitespace(&"J. R. R. Tolkien".to_string()), "jrrtolkien");
    assert_eq!(remove_whitespace(&"Book 2: Élan".to_string()), "booklan");
    assert_eq!(remove_whitespace(&"".to_string()), "");
}

#[test]
fn sanitize_component_drops_path_characters() {
    assert_eq!(sanitize_component("  A: B/C?  "), "A BC");
    assert_eq!(sanitize_component("<>:\"/\\|?*"), "");
    assert_eq!(sanitize_component("Plain"), "Plain");
}

#[test]
fn clean_title_drops_the_author_suffix() {
    let author = Some("Brandon Sanderson".to_string());
    assert_eq!(clean_title("The Way of Kings - Brandon Sanderson", &author), "The Way of Kings");
    assert_eq!(clean_title("  Title  - BRANDON sanderson ", &author), "Title");
    assert_eq!(clean_title(" Elantris ", &author), "Elantris");
    assert_eq!(clean_title(" Elantris ", &None), "Elantris");
}

#[test]
fn search_query_cuts_at_the_first_parenthesis() {
    assert_eq!(search_query("Mistborn (The Final Empire) "), "Mistborn");
    assert_eq!(search_query(" Warbreaker "), "Warbreaker");
    assert_eq!(search_query("A(b) (c)"), "A(b)");
}

fn hit(title: &str, author: Option<&str>, featured: Option<Option<bool>>) -> SearchHit {
    SearchHit {
        title: Some(title.to_string()),
        author_names: author.map(|a| vec![a.to_string(), "Other".to_string()]),
        featured_series: featured,
    }
}

#[test]
fn pick_search_hit_prefers_featured_series() {
    let hits = vec![
        hit("First", Some("A"), None),
        hit("Half", Some("B"), Some(None)),
        hit("Featured", Some("C"), Some(Some(false))),
        hit("Later", Some("D"), Some(Some(true))),
    ];
    assert_eq!(pick_search_hit(&hits), (Some("Featured".to_string()), Some("C".to_string())));
    let plain = vec![hit("First", None, None), hit("Second", Some("B"), None)];
    assert_eq!(pick_search_hit(&plain), (Some("First".to_string()), None));
    assert_eq!(pick_search_hit(&[]), (None, None));
}

#[test]
fn book_placement_uses_slugs_and_sanitized_names() {
    let data = BookData { author: "Brandon Sanderson".to_string(), title: "Mistborn: The Final Empire".to_string(), series: "Mistborn".to_string(), pos: 1 };
    let p = book_placement(&data);
    assert_eq!(p.author_id, "brandonsanderson");
    assert_eq!(p.series_dir, Some("mistborn".to_string()));
    assert_eq!(p.file_title, "Mistborn The Final Empire");
    let lone = BookData { author: "A".to_string(), title: "T".to_string(), series: "???".to_string(), pos: 0 };
    assert_eq!(book_placement(&lone).series_dir, None);
}

#[test]
fn book_record_fills_in_a_missing_series() {
    let data = BookData { author: "Brandon Sanderson".to_string(), title: "Elantris".to_string(), series: String::new(), pos: 7 };
    let r = book_record(&data, "/lib/brandonsanderson/Elantris.epub".to_string());
    assert_eq!(r.id, "brandon-sandersonelantris");
    assert_eq!(r.title, "Elantris");
    assert_eq!(r.author_id, "brandonsanderson");
    assert_eq!(r.series_id, "elantris");
    assert_eq!(r.series_name, "Elantris");
    assert_eq!(r.series_order, 1);
    assert_eq!(r.file_path, "/lib/brandonsanderson/Elantris.epub");
    let in_series = BookData { author: "A B".to_string(), title: "T".to_string(), series: "The Saga".to_string(), pos: 3 };
    let r2 = book_record(&in_series, "p".to_string());
    assert_eq!(r2.series_id, "thesaga");
    assert_eq!(r2.series_name, "The Saga");
    assert_eq!(r2.series_order, 3);
}

#[test]
fn epub_file_name_numbers_copies() {
    assert_eq!(epub_file_name("Dune", 0), "Dune.epub");
    assert_eq!(epub_file_name("Dune", 2), "Dune (2).epub");
}

#[test]
fn title_cut_is_safe_for_ordinary_titles() {
    let author = Some("Brandon Sanderson".to_string());
    assert!(title_cut_is_safe("The Way of Kings - Brandon Sanderson", &author));
    assert!(title_cut_is_safe("Elantris", &author));
    assert!(title_cut_is_safe("Elantris", &None));
}

fn opf_info(title: Option<&str>, author: Option<&str>, series: Option<&str>, pos: Option<u32>) -> OpfBookInfo {
    OpfBookInfo {
        title: title.map(|t| t.to_string()),
        author: author.map(|a| a.to_string()),
        series: series.map(|s| s.to_string()),
        series_position: pos,
    }
}

#[test]
fn book_lookup_uses_the_package_series() {
    let (s, a) = begin_book_data();
    assert!(matches!(a, LookupAction::ReadOpf));
    let info = opf_info(Some("Mistborn - Brandon Sanderson"), Some("Brandon Sanderson"), Some("Mistborn"), Some(1));
    let (s, a) = book_data_step(s, LookupEvent::OpfRead(Ok(info)));
    assert!(matches!(s, BookLookup::Finished));
    match a {
        LookupAction::Done(Ok(d)) => {
            assert_eq!((d.title.as_str(), d.author.as_str(), d.series.as_str(), d.pos), ("Mistborn", "Brandon Sanderson", "Mistborn", 1));
        }
        _ => panic!("expected the package's data"),
    }
}

#[test]
fn book_lookup_needs_title_and_author() {
    let (s, _) = begin_book_data();
    match book_data_step(s, LookupEvent::OpfRead(Ok(opf_info(Some("T"), None, None, None)))).1 {
        LookupAction::Done(Err(m)) => assert_eq!(m, "no title and author"),
        _ => panic!("expected a failure"),
    }
}

#[test]
fn book_lookup_falls_back_to_a_search() {
    let (s, _) = begin_book_data();
    let (s, a) = book_data_step(s, LookupEvent::OpfRead(Ok(opf_info(Some("Warbreaker (Special)"), Some("B. S."), None, None))));
    match &a {
        LookupAction::QuerySeries { title, author } => assert_eq!((title.as_str(), author.as_str()), ("Warbreaker (Special)", "B. S.")),
        _ => panic!("expected a series query"),
    }
    let (s, a) = book_data_step(s, LookupEvent::SeriesFound(Err("no results".to_string())));
    match &a {
        LookupAction::Search { query } => assert_eq!(query, "Warbreaker"),
        _ => panic!("expected a search"),
    }
    let hits = vec![SearchHit { title: Some("Warbreaker".to_string()), author_names: Some(vec!["Brandon Sanderson".to_string()]), featured_series: None }];
    let (s, a) = book_data_step(s, LookupEvent::SearchDone(Ok(hits)));
    assert!(matches!(a, LookupAction::QuerySeries { .. }));
    let (_, a) = book_data_step(s, LookupEvent::SeriesFound(Ok(Some(("Warbreaker".to_string(), Some(1))))));
    match a {
        LookupAction::Done(Ok(d)) => {
            assert_eq!((d.title.as_str(), d.author.as_str(), d.series.as_str(), d.pos), ("Warbreaker", "Brandon Sanderson", "Warbreaker", 1));
        }
        _ => panic!("expected the found book"),
    }
}

#[test]
fn book_lookup_keeps_the_book_without_a_series() {
    let (s, _) = begin_book_data();
    let (s, _) = book_data_step(s, LookupEvent::OpfRead(Ok(opf_info(Some("Elantris"), Some("Brandon Sanderson"), Some("S"), None))));
    match book_data_step(s, LookupEvent::SeriesFound(Ok(Some(("Elantris".to_string(), None))))).1 {
        LookupAction::Done(Ok(d)) => assert_eq!((d.series.as_str(), d.pos), ("", 0)),
        _ => panic!("expected the book as found"),
    }
}

#[test]
fn slug_shape_keeps_letters_and_digits_between_single_dashes() {
    let s = slugify("  --Mist*born:: The  Final__Empire 2!");
    assert_eq!(s, "mist-born-the-final-empire-2");
    assert!(!s.starts_with('-') && !s.ends_with('-') && !s.contains("--"));
    assert_eq!(s.replace('-', ""), "mistbornthefinalempire2");
}

#[test]
fn author_and_book_slugs_share_the_slug_or_the_hash() {
    assert_eq!(aslugify("Brandon Sanderson"), slugify("Brandon Sanderson"));
    let a = aslugify("¡¿!?");
    let b = slugify("¡¿!?");
    assert!(a.starts_with("author-") && b.starts_with("book-"));
    assert_eq!(&a["author-".len()..], &b["book-".len()..]);
    assert!(a.len() > "author-".len());
}
