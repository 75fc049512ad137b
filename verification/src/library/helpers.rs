//! Locating a book's package document and cleaning chapter text.

use vstd::prelude::*;

use crate::text::{opt_view, text_ends_with, to_lower};

verus! {

/// The first entry name that ends with `META-INF/container.xml`.
pub open spec fn container_entry_index(names: Seq<Seq<char>>, i: int) -> Option<int>
    decreases names.len() - i,
{
    if i < 0 || i >= names.len() {
        None
    } else if crate::library::info_sender::ends_with(names[i], "META-INF/container.xml"@) {
        Some(i)
    } else {
        container_entry_index(names, i + 1)
    }
}

/// Finds the container document among an archive's entry names: the first
/// that ends with `META-INF/container.xml`.
pub fn container_entry(names: &[String]) -> (r: Result<String, String>)
    ensures
        match r {
            Ok(n) => container_entry_index(names@.map_values(|s: String| s@), 0) matches Some(i)
                && n@ == names@[i]@,
            Err(m) => container_entry_index(names@.map_values(|s: String| s@), 0) is None
                && m@ == "container.xml not found"@,
        },
{
    let ghost nv = names@.map_values(|s: String| s@);
    let mut i: usize = 0;
    while i < names.len()
        invariant
            i <= names@.len(),
            nv == names@.map_values(|s: String| s@),
            container_entry_index(nv, 0) == container_entry_index(nv, i as int),
        decreases names@.len() - i,
    {
        if text_ends_with(names[i].as_str(), "META-INF/container.xml") {
            return Ok(names[i].clone());
        }
        i = i + 1;
    }
    Err(String::from_str("container.xml not found"))
}

/// What matching `pattern` against `text` with the `regex` crate gives: an
/// error message when the pattern does not compile, no match, or the groups
/// of the first match (group 0 is the whole match; a group that took no part
/// is absent).
pub uninterp spec fn regex_captures(pattern: Seq<char>, text: Seq<char>) -> Result<Option<Seq<Option<Seq<char>>>>, Seq<char>>;

/// `regex::Regex::new(pattern)` then `captures(text)`: the groups of the
/// first match as text; named by `regex_captures`.
#[verifier::external_body]
fn first_captures(pattern: &str, text: &str) -> (r: Result<Option<Vec<Option<String>>>, String>)
    ensures
        regex_captures(pattern@, text@) == match r {
            Ok(Some(groups)) => Ok(Some(groups@.map_values(|g: Option<String>| opt_view(g)))),
            Ok(None) => Ok(None),
            Err(e) => Err(e@),
        },
{
    let re = regex::Regex::new(pattern).map_err(|e| e.to_string())?;
    Ok(re.captures(text).map(|caps| caps.iter().map(|m| m.map(|m| m.as_str().to_string())).collect()))
}

/// The pattern of a `rootfile` element's `full-path` attribute.
pub open spec fn rootfile_pattern() -> Seq<char> {
    "<rootfile[^>]*\\sfull-path=\"([^\"]+)\""@
}

/// What reading the package path out of a container document gives: the
/// first `rootfile` element's `full-path`, or the message of what is wrong.
pub open spec fn container_opf_outcome(xml: Seq<char>) -> Result<Seq<char>, Seq<char>> {
    match regex_captures(rootfile_pattern(), xml) {
        Ok(Some(groups)) => if groups.len() > 1 && groups[1] is Some {
            if groups[1]->0.len() == 0 {
                Err("Rootfile full-path is empty"@)
            } else {
                Ok(groups[1]->0)
            }
        } else {
            Err("No rootfile element with full-path found"@)
        },
        Ok(None) => Err("No rootfile element with full-path found"@),
        Err(e) => Err(e),
    }
}

/// Reads the package document's path out of a container document: the
/// `full-path` of its first `rootfile` element.
pub fn opf_path_from_container(xml: &str) -> (r: Result<String, String>)
    ensures
        crate::text::text_result(r) == container_opf_outcome(xml@),
{
    match first_captures("<rootfile[^>]*\\sfull-path=\"([^\"]+)\"", xml) {
        Err(e) => Err(e),
        Ok(None) => Err(String::from_str("No rootfile element with full-path found")),
        Ok(Some(groups)) => {
            if groups.len() > 1 {
                match &groups[1] {
                    Some(p) => {
                        if p.as_str().is_empty() {
                            Err(String::from_str("Rootfile full-path is empty"))
                        } else {
                            Ok(p.clone())
                        }
                    },
                    None => Err(String::from_str("No rootfile element with full-path found")),
                }
            } else {
                Err(String::from_str("No rootfile element with full-path found"))
            }
        },
    }
}

/// What `regex::Regex::new(pattern)` followed by `replace_all(text, with)`
/// gives; `None` when the pattern does not compile.
pub uninterp spec fn regex_replaced(pattern: Seq<char>, text: Seq<char>, with: Seq<char>) -> Option<Seq<char>>;

/// `regex::Regex::new(pattern)` then `replace_all(text, with)`; named by
/// `regex_replaced`.
#[verifier::external_body]
fn replace_all(pattern: &str, text: &str, with: &str) -> (r: Option<String>)
    ensures
        opt_view(r) == regex_replaced(pattern@, text@, with@),
{
    let re = regex::Regex::new(pattern).ok()?;
    Some(re.replace_all(text, with).to_string())
}

/// The pattern of the XHTML wrapper around a chapter's body.
pub open spec fn boilerplate_pattern() -> Seq<char> {
    "(?s)^<\\?xml[^>]*>\\s*<html[^>]*>.*?<body[^>]*>\\s*|\\s*</body>\\s*</html>\\s*$"@
}

/// The body of a chapter document: the XML declaration, the `html` and
/// `head` elements and the `body` tags removed (the text as it is if the
/// pattern did not compile, which it does).
pub fn strip_epub_boilerplate(xhtml: &str) -> (r: String)
    ensures
        r@ == match regex_replaced(boilerplate_pattern(), xhtml@, ""@) {
            Some(t) => t,
            None => xhtml@,
        },
{
    match replace_all("(?s)^<\\?xml[^>]*>\\s*<html[^>]*>.*?<body[^>]*>\\s*|\\s*</body>\\s*</html>\\s*$", xhtml, "") {
        Some(t) => t,
        None => xhtml.to_owned(),
    }
}

/// What the library does with a file, by its extension.
pub enum LibraryFileKind {
    /// An EPUB book, repaired in place.
    Epub,
    /// A book in another format, converted to EPUB first.
    Convertible,
    /// Anything else, passed over.
    Other,
}

/// The kind of a file whose lower-cased extension is `ext`.
pub open spec fn file_kind_of(ext: Seq<char>) -> LibraryFileKind {
    if ext == "epub"@ {
        LibraryFileKind::Epub
    } else if ext == "pdf"@ || ext == "mobi"@ || ext == "azw"@ || ext == "azw3"@ || ext == "kfx"@ {
        LibraryFileKind::Convertible
    } else {
        LibraryFileKind::Other
    }
}

/// Classifies a file of the library by its extension, ignoring case: EPUB
/// books, books that calibre converts (PDF, MOBI, AZW, AZW3, KFX), and the rest.
pub fn library_file_kind(extension: &str) -> (r: LibraryFileKind)
    ensures
        r == file_kind_of(crate::text::lowercase(extension@)),
{
    let ext = to_lower(extension);
    let e = ext.as_str();
    if crate::text::same_text(e, "epub") {
        LibraryFileKind::Epub
    } else if crate::text::same_text(e, "pdf") || crate::text::same_text(e, "mobi")
        || crate::text::same_text(e, "azw") || crate::text::same_text(e, "azw3")
        || crate::text::same_text(e, "kfx") {
        LibraryFileKind::Convertible
    } else {
        LibraryFileKind::Other
    }
}

/// What rewriting a book does with one of its entries.
pub enum RewriteFate {
    /// Copied as it is.
    Copy,
    /// Dropped: an old NCX file, replaced by the new one.
    Drop,
    /// Read as the package document, then written anew.
    Package,
}

/// The fate of the entry `name` when a book is rewritten with a new NCX file.
pub open spec fn rewrite_fate_of(name: Seq<char>) -> RewriteFate {
    if crate::library::info_sender::ends_with(name, ".opf"@) {
        RewriteFate::Package
    } else if crate::text::contains_seq(name, "toc.ncx"@) {
        RewriteFate::Drop
    } else {
        RewriteFate::Copy
    }
}

/// Decides what rewriting a book does with the entry `name`: package
/// documents (`.opf`) are rewritten, entries whose name contains `toc.ncx`
/// dropped, and everything else copied.
pub fn rewrite_fate(name: &str) -> (r: RewriteFate)
    ensures
        r == rewrite_fate_of(name@),
{
    if text_ends_with(name, ".opf") {
        RewriteFate::Package
    } else if crate::text::text_contains(name, "toc.ncx") {
        RewriteFate::Drop
    } else {
        RewriteFate::Copy
    }
}

/// The number of line breaks in `s`.
pub open spec fn line_breaks(s: Seq<char>) -> nat
    decreases s.len(),
{
    if s.len() == 0 {
        0
    } else if s.last() == '\n' {
        line_breaks(s.drop_last()) + 1
    } else {
        line_breaks(s.drop_last())
    }
}

/// The number of pieces that splitting `text` at each `\n` gives (one more
/// than its line breaks): the chunks a chapter is read out in.
pub fn count_lines(text: &str) -> (r: usize)
    requires
        text@.len() < usize::MAX,
    ensures
        r == line_breaks(text@) + 1,
{
    let cs = crate::text::chars_of(text);
    let mut n: usize = 1;
    let mut i: usize = 0;
    while i < cs.len()
        invariant
            i <= cs@.len(),
            cs@ == text@,
            cs@.len() < usize::MAX,
            n == line_breaks(cs@.take(i as int)) + 1,
            n <= i + 1,
        decreases cs@.len() - i,
    {
        proof {
            assert(cs@.take(i + 1).drop_last() =~= cs@.take(i as int));
            assert(cs@.take(i + 1).last() == cs@[i as int]);
        }
        if cs[i] == '\n' {
            n = n + 1;
        }
        i = i + 1;
    }
    assert(cs@.take(cs@.len() as int) =~= cs@);
    n
}

} // verus!
