//! The vocabulary of validation reports: severities, categories, error codes,
//! locations, and the plain records that the validation phases hand on.

use vstd::prelude::*;

use std::collections::HashMap;

use crate::text::{decimal, push_str, usize_to_decimal};

verus! {

/// Severity level of a validation issue.
#[derive(Debug, Clone, Copy, PartialEq, Eq, Structural)]
pub enum Severity {
    /// An error causes rejection of the EPUB.
    Error,
    /// A warning does not cause rejection.
    Warning,
}

/// Category of validation error: the phase of validation it belongs to.
#[derive(Debug, Clone, Copy, PartialEq, Eq, Structural)]
pub enum ValidationCategory {
    Archive,
    Container,
    Opf,
    Spine,
    Manifest,
    Navigation,
    Content,
    Cover,
    Consistency,
}

/// Error codes for validation issues.
#[derive(Debug, Clone, Copy, PartialEq, Eq, Structural)]
pub enum ErrorCode {
    // Archive errors
    InvalidZip,
    UnreadableEntry,
    DuplicatePath,
    // Container errors
    MissingContainerXml,
    InvalidContainerXml,
    MissingOpfReference,
    InvalidOpfReference,
    // OPF errors
    MissingOpf,
    InvalidOpfXml,
    MissingSpine,
    MissingManifest,
    // Spine errors
    EmptySpine,
    MissingItemRef,
    // Manifest errors
    DuplicateManifestId,
    InvalidManifestId,
    MissingMediaType,
    // Navigation errors
    MissingNavDocument,
    InvalidNavXml,
    InvalidNcxXml,
    MissingTocNav,
    EmptyToc,
    InvalidTocEntry,
    // Content errors
    MissingChapterFile,
    UnparsableHtml,
    // Cover errors
    MissingCover,
    UnreadableCover,
    InvalidCoverFormat,
    // Consistency errors
    SpineManifestMismatch,
    ManifestArchiveMismatch,
    NavSpineMismatch,
}

/// The category that each error code belongs to.
pub open spec fn category_of(code: ErrorCode) -> ValidationCategory {
    match code {
        ErrorCode::InvalidZip | ErrorCode::UnreadableEntry | ErrorCode::DuplicatePath =>
            ValidationCategory::Archive,
        ErrorCode::MissingContainerXml
        | ErrorCode::InvalidContainerXml
        | ErrorCode::MissingOpfReference
        | ErrorCode::InvalidOpfReference => ValidationCategory::Container,
        ErrorCode::MissingOpf
        | ErrorCode::InvalidOpfXml
        | ErrorCode::MissingSpine
        | ErrorCode::MissingManifest => ValidationCategory::Opf,
        ErrorCode::EmptySpine | ErrorCode::MissingItemRef => ValidationCategory::Spine,
        ErrorCode::DuplicateManifestId
        | ErrorCode::InvalidManifestId
        | ErrorCode::MissingMediaType => ValidationCategory::Manifest,
        ErrorCode::MissingNavDocument
        | ErrorCode::InvalidNavXml
        | ErrorCode::InvalidNcxXml
        | ErrorCode::MissingTocNav
        | ErrorCode::EmptyToc
        | ErrorCode::InvalidTocEntry => ValidationCategory::Navigation,
        ErrorCode::MissingChapterFile | ErrorCode::UnparsableHtml => ValidationCategory::Content,
        ErrorCode::MissingCover
        | ErrorCode::UnreadableCover
        | ErrorCode::InvalidCoverFormat => ValidationCategory::Cover,
        ErrorCode::SpineManifestMismatch
        | ErrorCode::ManifestArchiveMismatch
        | ErrorCode::NavSpineMismatch => ValidationCategory::Consistency,
    }
}

/// The human-readable message of each error code.
pub open spec fn message_of(code: ErrorCode) -> Seq<char> {
    match code {
        ErrorCode::InvalidZip => "Not a valid ZIP archive"@,
        ErrorCode::UnreadableEntry => "Cannot read archive entry"@,
        ErrorCode::DuplicatePath => "Duplicate archive path"@,
        ErrorCode::MissingContainerXml => "META-INF/container.xml not found"@,
        ErrorCode::InvalidContainerXml => "container.xml is not valid XML"@,
        ErrorCode::MissingOpfReference => "No valid OPF reference in container.xml"@,
        ErrorCode::InvalidOpfReference => "OPF file not found"@,
        ErrorCode::MissingOpf => "OPF file cannot be read"@,
        ErrorCode::InvalidOpfXml => "OPF is not valid XML"@,
        ErrorCode::MissingSpine => "OPF missing <spine> element"@,
        ErrorCode::MissingManifest => "OPF missing <manifest> element"@,
        ErrorCode::EmptySpine => "Spine has no linear items"@,
        ErrorCode::MissingItemRef => "Item reference missing from manifest"@,
        ErrorCode::DuplicateManifestId => "Duplicate manifest ID"@,
        ErrorCode::InvalidManifestId => "Empty manifest ID"@,
        ErrorCode::MissingMediaType => "Missing media-type attribute"@,
        ErrorCode::MissingNavDocument => "No EPUB3 nav or EPUB2 NCX found"@,
        ErrorCode::InvalidNavXml => "Nav document is not valid HTML"@,
        ErrorCode::InvalidNcxXml => "NCX document is not valid XML"@,
        ErrorCode::MissingTocNav => "No <nav epub:type=\"toc\"> found"@,
        ErrorCode::EmptyToc => "TOC has no usable entries"@,
        ErrorCode::InvalidTocEntry => "TOC entry has empty href"@,
        ErrorCode::MissingChapterFile => "Chapter file not found in archive"@,
        ErrorCode::UnparsableHtml => "Chapter HTML cannot be parsed"@,
        ErrorCode::MissingCover => "No cover image found"@,
        ErrorCode::UnreadableCover => "Cover file cannot be read"@,
        ErrorCode::InvalidCoverFormat => "Cover is not a supported format"@,
        ErrorCode::SpineManifestMismatch => "Spine itemref not found in manifest"@,
        ErrorCode::ManifestArchiveMismatch => "Manifest item not found in archive"@,
        ErrorCode::NavSpineMismatch => "Navigation target not in spine"@,
    }
}

impl ErrorCode {
    /// The validation phase this code belongs to.
    pub fn category(&self) -> (c: ValidationCategory)
        ensures
            c == category_of(*self),
    {
        match self {
            ErrorCode::InvalidZip | ErrorCode::UnreadableEntry | ErrorCode::DuplicatePath =>
                ValidationCategory::Archive,
            ErrorCode::MissingContainerXml
            | ErrorCode::InvalidContainerXml
            | ErrorCode::MissingOpfReference
            | ErrorCode::InvalidOpfReference => ValidationCategory::Container,
            ErrorCode::MissingOpf
            | ErrorCode::InvalidOpfXml
            | ErrorCode::MissingSpine
            | ErrorCode::MissingManifest => ValidationCategory::Opf,
            ErrorCode::EmptySpine | ErrorCode::MissingItemRef => ValidationCategory::Spine,
            ErrorCode::DuplicateManifestId
            | ErrorCode::InvalidManifestId
            | ErrorCode::MissingMediaType => ValidationCategory::Manifest,
            ErrorCode::MissingNavDocument
            | ErrorCode::InvalidNavXml
            | ErrorCode::InvalidNcxXml
            | ErrorCode::MissingTocNav
            | ErrorCode::EmptyToc
            | ErrorCode::InvalidTocEntry => ValidationCategory::Navigation,
            ErrorCode::MissingChapterFile | ErrorCode::UnparsableHtml =>
                ValidationCategory::Content,
            ErrorCode::MissingCover
            | ErrorCode::UnreadableCover
            | ErrorCode::InvalidCoverFormat => ValidationCategory::Cover,
            ErrorCode::SpineManifestMismatch
            | ErrorCode::ManifestArchiveMismatch
            | ErrorCode::NavSpineMismatch => ValidationCategory::Consistency,
        }
    }

    /// The human-readable message; it is also how a code is displayed.
    pub fn message(&self) -> (m: &'static str)
        ensures
            m@ == message_of(*self),
    {
        match self {
            ErrorCode::InvalidZip => "Not a valid ZIP archive",
            ErrorCode::UnreadableEntry => "Cannot read archive entry",
            ErrorCode::DuplicatePath => "Duplicate archive path",
            ErrorCode::MissingContainerXml => "META-INF/container.xml not found",
            ErrorCode::InvalidContainerXml => "container.xml is not valid XML",
            ErrorCode::MissingOpfReference => "No valid OPF reference in container.xml",
            ErrorCode::InvalidOpfReference => "OPF file not found",
            ErrorCode::MissingOpf => "OPF file cannot be read",
            ErrorCode::InvalidOpfXml => "OPF is not valid XML",
            ErrorCode::MissingSpine => "OPF missing <spine> element",
            ErrorCode::MissingManifest => "OPF missing <manifest> element",
            ErrorCode::EmptySpine => "Spine has no linear items",
            ErrorCode::MissingItemRef => "Item reference missing from manifest",
            ErrorCode::DuplicateManifestId => "Duplicate manifest ID",
            ErrorCode::InvalidManifestId => "Empty manifest ID",
            ErrorCode::MissingMediaType => "Missing media-type attribute",
            ErrorCode::MissingNavDocument => "No EPUB3 nav or EPUB2 NCX found",
            ErrorCode::InvalidNavXml => "Nav document is not valid HTML",
            ErrorCode::InvalidNcxXml => "NCX document is not valid XML",
            ErrorCode::MissingTocNav => "No <nav epub:type=\"toc\"> found",
            ErrorCode::EmptyToc => "TOC has no usable entries",
            ErrorCode::InvalidTocEntry => "TOC entry has empty href",
            ErrorCode::MissingChapterFile => "Chapter file not found in archive",
            ErrorCode::UnparsableHtml => "Chapter HTML cannot be parsed",
            ErrorCode::MissingCover => "No cover image found",
            ErrorCode::UnreadableCover => "Cover file cannot be read",
            ErrorCode::InvalidCoverFormat => "Cover is not a supported format",
            ErrorCode::SpineManifestMismatch => "Spine itemref not found in manifest",
            ErrorCode::ManifestArchiveMismatch => "Manifest item not found in archive",
            ErrorCode::NavSpineMismatch => "Navigation target not in spine",
        }
    }

    /// The display form of a code, which is its message.
    pub fn to_display_string(&self) -> (s: String)
        ensures
            s@ == message_of(*self),
    {
        self.message().to_owned()
    }
}

/// Location of a validation issue within the EPUB.
#[derive(Debug, Clone, PartialEq, Eq)]
pub enum ValidationLocation {
    Root,
    ArchiveEntry { path: String },
    Opf { path: String },
    OpfElement { file: String, element: String },
    Spine,
    SpineItem { index: usize },
    Manifest,
    ManifestItem { id: String },
    Navigation { path: String },
    NavElement { file: String, element: String },
    Ncx { path: String },
    NcxElement { file: String, element: String },
    Chapter { path: String },
    Cover { path: String },
    TocEntry { index: usize },
}

/// The mathematical model of a location: paths and names as character sequences.
pub enum LocationView {
    Root,
    ArchiveEntry(Seq<char>),
    Opf(Seq<char>),
    OpfElement(Seq<char>, Seq<char>),
    Spine,
    SpineItem(nat),
    Manifest,
    ManifestItem(Seq<char>),
    Navigation(Seq<char>),
    NavElement(Seq<char>, Seq<char>),
    Ncx(Seq<char>),
    NcxElement(Seq<char>, Seq<char>),
    Chapter(Seq<char>),
    Cover(Seq<char>),
    TocEntry(nat),
}

impl View for ValidationLocation {
    type V = LocationView;

    open spec fn view(&self) -> LocationView {
        match self {
            ValidationLocation::Root => LocationView::Root,
            ValidationLocation::ArchiveEntry { path } => LocationView::ArchiveEntry(path@),
            ValidationLocation::Opf { path } => LocationView::Opf(path@),
            ValidationLocation::OpfElement { file, element } => LocationView::OpfElement(file@, element@),
            ValidationLocation::Spine => LocationView::Spine,
            ValidationLocation::SpineItem { index } => LocationView::SpineItem(*index as nat),
            ValidationLocation::Manifest => LocationView::Manifest,
            ValidationLocation::ManifestItem { id } => LocationView::ManifestItem(id@),
            ValidationLocation::Navigation { path } => LocationView::Navigation(path@),
            ValidationLocation::NavElement { file, element } => LocationView::NavElement(file@, element@),
            ValidationLocation::Ncx { path } => LocationView::Ncx(path@),
            ValidationLocation::NcxElement { file, element } => LocationView::NcxElement(file@, element@),
            ValidationLocation::Chapter { path } => LocationView::Chapter(path@),
            ValidationLocation::Cover { path } => LocationView::Cover(path@),
            ValidationLocation::TocEntry { index } => LocationView::TocEntry(*index as nat),
        }
    }
}

/// `prefix`, the file, a slash and the element.
pub open spec fn element_text(prefix: Seq<char>, file: Seq<char>, element: Seq<char>) -> Seq<char> {
    prefix + file + "/"@ + element
}

/// `prefix`, the text, and a closing parenthesis.
pub open spec fn parenthesized(prefix: Seq<char>, text: Seq<char>) -> Seq<char> {
    prefix + text + ")"@
}

/// How each location is displayed in a report.
pub open spec fn location_text(loc: LocationView) -> Seq<char> {
    match loc {
        LocationView::Root => "root"@,
        LocationView::ArchiveEntry(path) => path,
        LocationView::Opf(path) => parenthesized("OPF ("@, path),
        LocationView::OpfElement(file, element) => element_text("OPF element "@, file, element),
        LocationView::Spine => "spine"@,
        LocationView::SpineItem(index) => "spine item #"@ + decimal(index),
        LocationView::Manifest => "manifest"@,
        LocationView::ManifestItem(id) => "manifest item id='"@ + id + "'"@,
        LocationView::Navigation(path) => parenthesized("navigation ("@, path),
        LocationView::NavElement(file, element) => element_text("nav element "@, file, element),
        LocationView::Ncx(path) => parenthesized("NCX ("@, path),
        LocationView::NcxElement(file, element) => element_text("NCX element "@, file, element),
        LocationView::Chapter(path) => parenthesized("chapter ("@, path),
        LocationView::Cover(path) => parenthesized("cover ("@, path),
        LocationView::TocEntry(index) => "TOC entry #"@ + decimal(index),
    }
}

/// Builds `prefix + text + suffix`.
fn framed(prefix: &str, text: &str, suffix: &str) -> (s: String)
    ensures
        s@ == prefix@ + text@ + suffix@,
{
    let mut s = prefix.to_owned();
    push_str(&mut s, text);
    push_str(&mut s, suffix);
    s
}

impl ValidationLocation {
    /// The display form of a location, as it appears in reports.
    pub fn to_display_string(&self) -> (s: String)
        ensures
            s@ == location_text(self@),
    {
        match self {
            ValidationLocation::Root => String::from_str("root"),
            ValidationLocation::ArchiveEntry { path } => path.clone(),
            ValidationLocation::Opf { path } => framed("OPF (", path.as_str(), ")"),
            ValidationLocation::OpfElement { file, element } => {
                let s = framed("OPF element ", file.as_str(), "/");
                let mut s = s;
                push_str(&mut s, element.as_str());
                s
            },
            ValidationLocation::Spine => String::from_str("spine"),
            ValidationLocation::SpineItem { index } => {
                let mut s = String::from_str("spine item #");
                push_str(&mut s, usize_to_decimal(*index).as_str());
                s
            },
            ValidationLocation::Manifest => String::from_str("manifest"),
            ValidationLocation::ManifestItem { id } => framed("manifest item id='", id.as_str(), "'"),
            ValidationLocation::Navigation { path } => framed("navigation (", path.as_str(), ")"),
            ValidationLocation::NavElement { file, element } => {
                let mut s = framed("nav element ", file.as_str(), "/");
                push_str(&mut s, element.as_str());
                s
            },
            ValidationLocation::Ncx { path } => framed("NCX (", path.as_str(), ")"),
            ValidationLocation::NcxElement { file, element } => {
                let mut s = framed("NCX element ", file.as_str(), "/");
                push_str(&mut s, element.as_str());
                s
            },
            ValidationLocation::Chapter { path } => framed("chapter (", path.as_str(), ")"),
            ValidationLocation::Cover { path } => framed("cover (", path.as_str(), ")"),
            ValidationLocation::TocEntry { index } => {
                let mut s = String::from_str("TOC entry #");
                push_str(&mut s, usize_to_decimal(*index).as_str());
                s
            },
        }
    }
}

/// A single validation error or warning.
#[derive(Debug, Clone)]
pub struct ValidationError {
    pub code: ErrorCode,
    pub message: String,
    pub location: ValidationLocation,
    pub severity: Severity,
}

/// `e` reports `code` at `location` with `severity`, carrying the code's message.
pub open spec fn reports(
    e: ValidationError,
    code: ErrorCode,
    location: LocationView,
    severity: Severity,
) -> bool {
    &&& e.code == code
    &&& e.message@ == message_of(code)
    &&& e.location@ == location
    &&& e.severity == severity
}

impl ValidationError {
    /// An error-severity issue with the code's standard message.
    pub fn new(code: ErrorCode, location: ValidationLocation) -> (e: Self)
        ensures
            reports(e, code, location@, Severity::Error),
    {
        let message = code.message().to_owned();
        ValidationError { code, message, location, severity: Severity::Error }
    }

    /// A warning-severity issue with the code's standard message.
    pub fn warning(code: ErrorCode, location: ValidationLocation) -> (e: Self)
        ensures
            reports(e, code, location@, Severity::Warning),
    {
        let message = code.message().to_owned();
        ValidationError { code, message, location, severity: Severity::Warning }
    }
}

/// Information about the EPUB archive structure.
#[derive(Debug, Clone)]
pub struct ArchiveInfo {
    pub entries: Vec<String>,
    pub duplicate_paths: Vec<String>,
}

/// The package document located through container.xml, with its raw bytes.
#[derive(Debug, Clone)]
pub struct OpfInfo {
    pub opf_path: String,
    pub opf_data: Vec<u8>,
}

/// Dublin Core metadata read from the package document.
#[derive(Debug, Clone)]
pub struct OpfMetadata {
    pub title: Option<String>,
    pub creators: Vec<String>,
    pub language: Option<String>,
    pub identifiers: Vec<String>,
}

/// Information about the OPF package document.
#[derive(Debug, Clone)]
pub struct OpfPackage {
    pub path: String,
    pub root_file_path: String,
    pub metadata: OpfMetadata,
    pub manifest_items: Vec<ManifestItem>,
    pub spine_items: Vec<SpineItem>,
}

/// A manifest item from the OPF.
#[derive(Debug)]
pub struct ManifestItem {
    pub id: String,
    pub href: String,
    pub media_type: String,
    pub properties: Vec<String>,
}

/// The mathematical model of a manifest item.
pub struct ManifestItemView {
    pub id: Seq<char>,
    pub href: Seq<char>,
    pub media_type: Seq<char>,
    pub properties: Seq<Seq<char>>,
}

impl View for ManifestItem {
    type V = ManifestItemView;

    open spec fn view(&self) -> ManifestItemView {
        ManifestItemView {
            id: self.id@,
            href: self.href@,
            media_type: self.media_type@,
            properties: self.properties.deep_view(),
        }
    }
}

impl Clone for ManifestItem {
    fn clone(&self) -> (r: Self)
        ensures
            r@ == self@,
    {
        let properties = self.properties.clone();
        proof {
            assert(properties.deep_view() =~= self.properties.deep_view());
        }
        ManifestItem {
            id: self.id.clone(),
            href: self.href.clone(),
            media_type: self.media_type.clone(),
            properties,
        }
    }
}

/// A spine item (itemref) from the OPF.
#[derive(Debug)]
pub struct SpineItem {
    pub idref: String,
    pub linear: String,
    pub properties: Vec<String>,
}

/// The mathematical model of a spine item.
pub struct SpineItemView {
    pub idref: Seq<char>,
    pub linear: Seq<char>,
    pub properties: Seq<Seq<char>>,
}

impl View for SpineItem {
    type V = SpineItemView;

    open spec fn view(&self) -> SpineItemView {
        SpineItemView {
            idref: self.idref@,
            linear: self.linear@,
            properties: self.properties.deep_view(),
        }
    }
}

impl Clone for SpineItem {
    fn clone(&self) -> (r: Self)
        ensures
            r@ == self@,
    {
        let properties = self.properties.clone();
        proof {
            assert(properties.deep_view() =~= self.properties.deep_view());
        }
        SpineItem { idref: self.idref.clone(), linear: self.linear.clone(), properties }
    }
}

/// Information about the spine.
#[derive(Debug, Clone)]
pub struct SpineInfo {
    pub items: Vec<SpineItem>,
    pub linear_items: Vec<SpineItem>,
}

/// Information about the manifest.
#[derive(Debug, Clone)]
pub struct ManifestInfo {
    pub items: Vec<ManifestItem>,
    pub id_to_item: ManifestIndex,
}

/// Manifest items keyed by their id.
pub type ManifestIndex = HashMap<String, ManifestItem>;

/// What a manifest index maps each id to: the key's characters to the item
/// stored under it (the contents of a `HashMap<String, ManifestItem>`).
pub uninterp spec fn index_contents(m: ManifestIndex) -> Map<Seq<char>, ManifestItem>;

/// An empty manifest index (`HashMap::new`).
#[verifier::external_body]
pub(crate) fn index_new() -> (m: ManifestIndex)
    ensures
        index_contents(m).dom().is_empty(),
{
    HashMap::new()
}

/// Stores `item` under `id`, replacing what was stored there (`HashMap::insert`;
/// keys are compared by their characters).
#[verifier::external_body]
pub(crate) fn index_insert(m: &mut ManifestIndex, id: String, item: ManifestItem)
    ensures
        index_contents(*final(m)) == index_contents(*old(m)).insert(id@, item),
{
    m.insert(id, item);
}

/// The item stored under `id`, if any (`HashMap::get`).
#[verifier::external_body]
pub(crate) fn index_get<'a>(m: &'a ManifestIndex, id: &str) -> (r: Option<&'a ManifestItem>)
    ensures
        r is Some <==> index_contents(*m).contains_key(id@),
        r matches Some(item) ==> *item == index_contents(*m)[id@],
{
    m.get(id)
}

/// Information about navigation documents.
#[derive(Debug, Clone)]
pub struct NavInfo {
    pub nav_path: Option<String>,
    pub ncx_path: Option<String>,
    pub toc_entries: Vec<TocEntry>,
}

/// A table of contents entry.
#[derive(Debug)]
pub struct TocEntry {
    pub title: String,
    pub href: String,
    pub children: Vec<TocEntry>,
}

impl TocEntry {
    /// A copy of this entry and of all entries below it.
    pub fn deep_copy(&self) -> (r: TocEntry)
        ensures
            r.title@ == self.title@,
            r.href@ == self.href@,
            r.children@.len() == self.children@.len(),
        decreases self,
    {
        let mut children: Vec<TocEntry> = Vec::new();
        let mut i: usize = 0;
        while i < self.children.len()
            invariant
                i <= self.children@.len(),
                children@.len() == i,
            decreases self.children@.len() - i,
        {
            proof {
                assert(decreases_to!(self.children => self.children@[i as int]));
            }
            children.push(self.children[i].deep_copy());
            i = i + 1;
        }
        TocEntry { title: self.title.clone(), href: self.href.clone(), children }
    }
}

impl Clone for TocEntry {
    fn clone(&self) -> (r: Self)
        ensures
            r.title@ == self.title@,
            r.href@ == self.href@,
    {
        self.deep_copy()
    }
}

} // verus!
