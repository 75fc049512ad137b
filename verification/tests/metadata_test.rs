use tribune_archivum::library::metadata::{extract_title_author, scan_metadata, MetaStep};

#[test]
fn extract_title_author_reads_calibre_metadata() {
    let xml = "<?xml version=\"1.0\"?><package><metadata xmlns:dc=\"http://purl.org/dc/elements/1.1/\">\
        <dc:title>Mistborn - Brandon Sanderson</dc:title>\n  <dc:creator>Brandon Sanderson</dc:creator>\
        <dc:creator>Someone Else</dc:creator>\
        <meta name=\"calibre:series\" content=\"Mistborn\"/><meta name=\"calibre:series_index\" content=\"1.0\"/>\
        </metadata></package>";
    let (title, author, series, index) = extract_title_author(xml).unwrap();
    assert_eq!(title, Some("Mistborn - Brandon Sanderson".to_string()));
    assert_eq!(author, Some("Brandon Sanderson".to_string()));
    assert_eq!(series, Some("Mistborn".to_string()));
    assert_eq!(index, Some("1.0".to_string()));
}

#[test]
fn extract_title_author_without_metadata() {
    let (title, author, series, index) = extract_title_author("<package><metadata/></package>").unwrap();
    assert_eq!((title, author, series, index), (None, None, None, None));
}

#[test]
fn extract_title_author_reports_broken_documents() {
    assert!(extract_title_author("<package><metadata></package>").is_err());
}

#[test]
fn scan_metadata_follows_the_steps() {
    let steps = vec![
        MetaStep::Open("dc:title".to_string()),
        MetaStep::Text("First".to_string()),
        MetaStep::Close("dc:title".to_string()),
        MetaStep::Open("dc:title".to_string()),
        MetaStep::Text("Second".to_string()),
        MetaStep::Close("dc:title".to_string()),
        MetaStep::Empty(
            "meta".to_string(),
            vec![
                Some(("name".to_string(), "calibre:series".to_string())),
                None,
                Some(("content".to_string(), "Old".to_string())),
                Some(("content".to_string(), "New".to_string())),
            ],
        ),
        MetaStep::Other,
        MetaStep::End,
        MetaStep::Text("ignored".to_string()),
    ];
    let (title, author, series, index) = scan_metadata(&steps).unwrap();
    assert_eq!(title, Some("First".to_string()));
    assert_eq!(author, None);
    assert_eq!(series, Some("New".to_string()));
    assert_eq!(index, None);
}

#[test]
fn scan_metadata_stops_at_a_read_error() {
    let steps = vec![MetaStep::Open("dc:creator".to_string()), MetaStep::Failed("bad xml".to_string()), MetaStep::End];
    assert_eq!(scan_metadata(&steps), Err("bad xml".to_string()));
}
