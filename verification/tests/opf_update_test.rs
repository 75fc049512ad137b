use tribune_archivum::library::generator::{opf_update_step, update_opf, OpfPass};
use tribune_archivum::library::xml_steps::{write_step, XmlStep};

#[test]
fn update_opf_adds_the_ncx_item_and_spine_reference() {
    let xml = "<?xml version=\"1.0\"?><package><manifest>\
        <item id=\"c1\" href=\"c1.xhtml\" media-type=\"application/xhtml+xml\"/></manifest>\
        <spine><itemref idref=\"c1\"/></spine></package>";
    let updated = update_opf(xml, "toc.ncx").unwrap();
    assert_eq!(
        updated,
        "<?xml version=\"1.0\"?><package><manifest>\
        <item id=\"c1\" href=\"c1.xhtml\" media-type=\"application/xhtml+xml\"/>\
        <item id=\"ncx\" href=\"toc.ncx\" media-type=\"application/x-dtbncx+xml\"/></manifest>\
        <spine toc=\"ncx\"><itemref idref=\"c1\"/></spine></package>"
    );
}

#[test]
fn update_opf_keeps_a_listed_ncx_and_replaces_the_spine_attributes() {
    let xml = "<package><manifest><item id=\"ncx\" href=\"old.ncx\" media-type=\"application/x-dtbncx+xml\"/>\
        </manifest><spine toc=\"old\" page-progression-direction=\"ltr\"></spine></package>";
    let updated = update_opf(xml, "toc.ncx").unwrap();
    assert_eq!(
        updated,
        "<package><manifest><item id=\"ncx\" href=\"old.ncx\" media-type=\"application/x-dtbncx+xml\"/>\
        </manifest><spine toc=\"ncx\"></spine></package>"
    );
}

#[test]
fn update_opf_keeps_other_spine_attributes_and_escapes_the_path() {
    let xml = "<package><manifest></manifest><spine page-progression-direction=\"rtl\"/><!-- note --></package>";
    let updated = update_opf(xml, "a&b \"x\".ncx").unwrap();
    assert_eq!(
        updated,
        "<package><manifest><item id=\"ncx\" href=\"a&amp;b &quot;x&quot;.ncx\" media-type=\"application/x-dtbncx+xml\"/>\
        </manifest><spine page-progression-direction=\"rtl\"/><!-- note --></package>"
    );
}

#[test]
fn update_opf_reports_broken_documents() {
    assert!(update_opf("<package><manifest></package>", "toc.ncx").is_err());
}

#[test]
fn update_opf_reports_unreadable_item_attributes() {
    assert!(update_opf("<package><manifest><item id=ncx/></manifest></package>", "toc.ncx").is_err());
}

#[test]
fn update_opf_ignores_items_outside_the_manifest() {
    let xml = "<package><item id=\"ncx\"/><manifest></manifest></package>";
    let updated = update_opf(xml, "toc.ncx").unwrap();
    assert_eq!(
        updated,
        "<package><item id=\"ncx\"/><manifest><item id=\"ncx\" href=\"toc.ncx\" media-type=\"application/x-dtbncx+xml\"/>\
        </manifest></package>"
    );
}

#[test]
fn opf_update_step_closes_the_manifest_with_the_ncx_item() {
    let mut pass = OpfPass { inside_manifest: true, manifest_has_ncx: false };
    let text = opf_update_step(&mut pass, &XmlStep::Close("manifest".to_string()), &Ok(Vec::new()), "nav/toc.ncx").unwrap();
    assert_eq!(text, "<item id=\"ncx\" href=\"nav/toc.ncx\" media-type=\"application/x-dtbncx+xml\"/></manifest>");
    assert!(!pass.inside_manifest);
    assert!(!pass.manifest_has_ncx);
}

#[test]
fn opf_update_step_marks_a_listed_ncx() {
    let mut pass = OpfPass { inside_manifest: true, manifest_has_ncx: false };
    let step = XmlStep::Empty("item id=\"ncx\"".to_string(), "item".to_string());
    let attrs = Ok(vec![("id".to_string(), "ncx".to_string())]);
    let text = opf_update_step(&mut pass, &step, &attrs, "toc.ncx").unwrap();
    assert_eq!(text, "<item id=\"ncx\"/>");
    assert!(pass.manifest_has_ncx);
}

#[test]
fn opf_update_step_passes_on_an_attribute_error() {
    let mut pass = OpfPass { inside_manifest: false, manifest_has_ncx: false };
    let step = XmlStep::Open("spine toc".to_string(), "spine".to_string());
    let attrs = Err("bad attribute".to_string());
    assert_eq!(opf_update_step(&mut pass, &step, &attrs, "toc.ncx"), Err("bad attribute".to_string()));
}

#[test]
fn write_step_wraps_each_event_in_its_delimiters() {
    let mut out = String::new();
    write_step(&mut out, &XmlStep::Decl("xml version=\"1.0\"".to_string()));
    write_step(&mut out, &XmlStep::DocType("html".to_string()));
    write_step(&mut out, &XmlStep::Open("a x=\"1\"".to_string(), "a".to_string()));
    write_step(&mut out, &XmlStep::Text("t &lt;".to_string()));
    write_step(&mut out, &XmlStep::Reference("amp".to_string()));
    write_step(&mut out, &XmlStep::CData("c".to_string()));
    write_step(&mut out, &XmlStep::Comment(" k ".to_string()));
    write_step(&mut out, &XmlStep::Pi("p q".to_string()));
    write_step(&mut out, &XmlStep::Empty("b".to_string(), "b".to_string()));
    write_step(&mut out, &XmlStep::Close("a".to_string()));
    write_step(&mut out, &XmlStep::End);
    assert_eq!(
        out,
        "<?xml version=\"1.0\"?><!DOCTYPE html><a x=\"1\">t &lt;&amp;<![CDATA[c]]><!-- k --><?p q?><b/></a>"
    );
}
