//! The six validation phases, run in order. Reading the archive and decoding
//! its XML documents is the caller's work: the validation asks for what it
//! needs next with a [`Request`], and the caller answers with a [`Reply`].
//! The first phase that fails ends the validation with its result.

use vstd::prelude::*;

use crate::base::result::{ValidationResult, empty_report};
use crate::base::types::{
    ErrorCode, LocationView, ManifestInfo, NavInfo, OpfPackage, SpineInfo, ValidationError,
    ValidationLocation,
};
use crate::consistency::{consistency_outcome, validate_consistency};
use crate::epub::container::{ContainerDocument, container_opf_path, container_xml, container_xml_path};
use crate::epub::manifest::{manifest_errors, manifest_outcome, manifest_views, validate_manifest};
use crate::epub::navigation::{
    DocumentLoad, NavDocument, NcxDocument, epub3_nav_outcome, find_nav_document, find_ncx_document,
    first_nav_href, first_ncx_href, is_ncx_item, ncx_outcome, spine_ncx_href, validate_epub3_nav,
    validate_ncx,
};
use crate::epub::opf::{RawOpf, build_opf_package, package_outcome, raw_manifest_views, raw_spine_views};
use crate::epub::spine::{linear_items_of, single_error, spine_outcome, validate_spine};
use crate::text::opt_view;

verus! {

/// How looking up and loading an entry of the archive ended.
pub enum EntryLoad<T> {
    /// The archive has no such entry.
    Missing,
    /// The entry exists; how reading and decoding it ended.
    Present(DocumentLoad<T>),
}

/// What the validation needs next from its caller.
pub enum Request {
    /// Check that the file is a readable ZIP archive.
    OpenArchive,
    /// Look up, read and decode META-INF/container.xml.
    LoadContainer,
    /// Look up, read and decode the package document at `path`.
    LoadOpf { path: String },
    /// Look up, read and decode the EPUB3 navigation document at `path`.
    LoadNav { path: String },
    /// Look up, read and decode the NCX document at `path`.
    LoadNcx { path: String },
    /// Tell, for each of `paths`, whether the archive has an entry there.
    CheckEntries { paths: Vec<String> },
    /// The validation is over; `result` is its outcome.
    Finish { result: ValidationResult },
}

/// The caller's answer to a request.
pub enum Reply {
    ArchiveOpened(bool),
    Container(EntryLoad<ContainerDocument>),
    Opf(EntryLoad<RawOpf>),
    Nav(EntryLoad<NavDocument>),
    Ncx(EntryLoad<NcxDocument>),
    Entries(Vec<bool>),
}

/// Where a validation stands, with what the finished phases produced.
pub enum Validation {
    OpeningArchive,
    ReadingContainer,
    ReadingOpf { opf_path: String },
    ReadingNav { package: OpfPackage, spine_info: SpineInfo, manifest_info: ManifestInfo, nav_path: String },
    ReadingNcx { spine_info: SpineInfo, manifest_info: ManifestInfo, ncx_path: String },
    CheckingEntries { spine_info: SpineInfo, manifest_info: ManifestInfo, nav_info: NavInfo },
    Finished,
}

/// `reply` answers the request that a validation in `state` made.
pub open spec fn answers(state: Validation, reply: Reply) -> bool {
    match state {
        Validation::OpeningArchive => reply is ArchiveOpened,
        Validation::ReadingContainer => reply is Container,
        Validation::ReadingOpf { .. } => reply is Opf,
        Validation::ReadingNav { .. } => reply is Nav,
        Validation::ReadingNcx { .. } => reply is Ncx,
        Validation::CheckingEntries { manifest_info, .. } => reply matches Reply::Entries(present)
            && present@.len() == manifest_info.items@.len(),
        Validation::Finished => false,
    }
}

/// The validation ends with a result holding exactly one error.
pub open spec fn finishes_with_error(next: (Validation, Request), code: ErrorCode, location: LocationView) -> bool {
    &&& next.0 is Finished
    &&& next.1 matches Request::Finish { result } && single_error(result@, code, location)
}

/// The validation ends with `r`'s error result, or, when `r` succeeded, the
/// phase's product satisfies `ok`.
pub open spec fn finishes_with<T>(next: (Validation, Request), r: Result<T, ValidationResult>) -> bool {
    r matches Err(res) ==> (next.0 is Finished && next.1 == Request::Finish { result: res })
}

/// The step that looks for the NCX document, once no EPUB3 navigation document
/// could be used: load the NCX document when the package names one, and
/// otherwise end with the missing-navigation error.
pub open spec fn looks_for_ncx(
    package: OpfPackage,
    spine_info: SpineInfo,
    manifest_info: ManifestInfo,
    next: (Validation, Request),
) -> bool {
    let views = manifest_views(manifest_info.items@);
    let by_type = exists|i: int| 0 <= i < views.len() && #[trigger] is_ncx_item(views[i]);
    exists|found: Option<Seq<char>>| {
        &&& (by_type ==> first_ncx_href(views, found))
        &&& (!by_type ==> found == spine_ncx_href(package, manifest_info))
        &&& match found {
            Some(h) => {
                &&& next.0 matches Validation::ReadingNcx { spine_info: s, manifest_info: m, ncx_path }
                    && (s == spine_info && m == manifest_info && ncx_path@ == h)
                &&& next.1 matches Request::LoadNcx { path } && path@ == h
            },
            None => finishes_with_error(next, ErrorCode::MissingNavDocument, LocationView::Root),
        }
    }
}

/// The step that looks for the navigation document once the spine and the
/// manifest passed: load the first manifest item with the `nav` property, or
/// else look for the NCX document.
pub open spec fn looks_for_navigation(
    package: OpfPackage,
    spine_info: SpineInfo,
    manifest_info: ManifestInfo,
    next: (Validation, Request),
) -> bool {
    exists|found: Option<Seq<char>>| {
        &&& #[trigger] first_nav_href(manifest_views(manifest_info.items@), found)
        &&& match found {
            Some(h) => {
                &&& next.0 matches Validation::ReadingNav { package: p, spine_info: s, manifest_info: m, nav_path }
                    && (p == package && s == spine_info && m == manifest_info && nav_path@ == h)
                &&& next.1 matches Request::LoadNav { path } && path@ == h
            },
            None => looks_for_ncx(package, spine_info, manifest_info, next),
        }
    }
}

/// The step after the navigation document was validated into `r`: stop on
/// its error, or else ask whether the archive holds every manifest item.
pub open spec fn after_navigation(
    spine_info: SpineInfo,
    manifest_info: ManifestInfo,
    r: Result<NavInfo, ValidationResult>,
    next: (Validation, Request),
) -> bool {
    &&& finishes_with(next, r)
    &&& r matches Ok(nav_info) ==> {
        &&& next.0 == Validation::CheckingEntries { spine_info, manifest_info, nav_info }
        &&& next.1 matches Request::CheckEntries { paths }
            && paths@.len() == manifest_info.items@.len()
            && forall|i: int| 0 <= i < paths@.len() ==> #[trigger] paths@[i]@ == manifest_info.items@[i].href@
    }
}

/// The step after the package document was decoded into `raw`: the spine,
/// then the manifest, is validated; the first that fails ends the validation,
/// and when both pass the navigation document is looked for.
pub open spec fn after_package(raw: RawOpf, next: (Validation, Request)) -> bool {
    let sv = raw_spine_views(raw.spine_items@);
    let mv = raw_manifest_views(raw.manifest_items@);
    if linear_items_of(sv).len() == 0 {
        finishes_with_error(next, ErrorCode::EmptySpine, LocationView::Spine)
    } else if !(mv.len() > 0 && manifest_errors(mv).len() == 0) {
        &&& next.0 is Finished
        &&& next.1 matches Request::Finish { result } && manifest_outcome(mv, Err(result))
    } else {
        exists|package: OpfPackage, spine_info: SpineInfo, manifest_info: ManifestInfo| {
            &&& #[trigger] package_outcome(Some(raw), Ok(package))
            &&& #[trigger] spine_outcome(sv, Ok(spine_info))
            &&& #[trigger] manifest_outcome(mv, Ok(manifest_info))
            &&& looks_for_navigation(package, spine_info, manifest_info, next)
        }
    }
}

/// Starts a validation: its first request is to open the archive.
pub fn begin_validation() -> (next: (Validation, Request))
    ensures
        next.0 is OpeningArchive,
        next.1 is OpenArchive,
{
    (Validation::OpeningArchive, Request::OpenArchive)
}

fn finish_with_error(code: ErrorCode, location: ValidationLocation) -> (next: (Validation, Request))
    ensures
        finishes_with_error(next, code, location@),
{
    let mut result = ValidationResult::new();
    result.add_error(ValidationError::new(code, location));
    (Validation::Finished, Request::Finish { result })
}

fn look_for_ncx(package: OpfPackage, spine_info: SpineInfo, manifest_info: ManifestInfo) -> (next: (Validation, Request))
    ensures
        looks_for_ncx(package, spine_info, manifest_info, next),
{
    let found = find_ncx_document(&package, &manifest_info);
    let ghost g = opt_view(found);
    match found {
        Some(ncx_path) => {
            let path = ncx_path.clone();
            let next = (Validation::ReadingNcx { spine_info, manifest_info, ncx_path }, Request::LoadNcx { path });
            assert(looks_for_ncx(package, spine_info, manifest_info, next)) by {
                assert(next.0 matches Validation::ReadingNcx { spine_info: s, manifest_info: m, ncx_path }
                    && s == spine_info && m == manifest_info);
            }
            next
        },
        None => finish_with_error(ErrorCode::MissingNavDocument, ValidationLocation::Root),
    }
}

fn look_for_navigation(package: OpfPackage, spine_info: SpineInfo, manifest_info: ManifestInfo) -> (next: (Validation, Request))
    ensures
        looks_for_navigation(package, spine_info, manifest_info, next),
{
    let found = find_nav_document(&manifest_info);
    let ghost g = opt_view(found);
    match found {
        Some(nav_path) => {
            let path = nav_path.clone();
            let next = (Validation::ReadingNav { package, spine_info, manifest_info, nav_path }, Request::LoadNav { path });
            assert(first_nav_href(manifest_views(manifest_info.items@), g));
            next
        },
        None => {
            let ghost (p, s, m) = (package, spine_info, manifest_info);
            let next = look_for_ncx(package, spine_info, manifest_info);
            assert(first_nav_href(manifest_views(m.items@), g));
            next
        },
    }
}

fn entry_paths(manifest_info: &ManifestInfo) -> (paths: Vec<String>)
    ensures
        paths@.len() == manifest_info.items@.len(),
        forall|i: int| 0 <= i < paths@.len() ==> #[trigger] paths@[i]@ == manifest_info.items@[i].href@,
{
    let mut paths: Vec<String> = Vec::new();
    let mut i: usize = 0;
    while i < manifest_info.items.len()
        invariant
            i <= manifest_info.items@.len(),
            paths@.len() == i,
            forall|k: int| 0 <= k < i ==> #[trigger] paths@[k]@ == manifest_info.items@[k].href@,
        decreases manifest_info.items@.len() - i,
    {
        paths.push(manifest_info.items[i].href.clone());
        i = i + 1;
    }
    paths
}

fn after_navigation_step(spine_info: SpineInfo, manifest_info: ManifestInfo, r: Result<NavInfo, ValidationResult>) -> (next: (Validation, Request))
    ensures
        after_navigation(spine_info, manifest_info, r, next),
{
    match r {
        Err(result) => (Validation::Finished, Request::Finish { result }),
        Ok(nav_info) => {
            let paths = entry_paths(&manifest_info);
            (Validation::CheckingEntries { spine_info, manifest_info, nav_info }, Request::CheckEntries { paths })
        },
    }
}

fn after_package_step(raw: RawOpf) -> (next: (Validation, Request))
    ensures
        after_package(raw, next),
{
    let ghost g = raw;
    let package = match build_opf_package(Some(raw)) {
        Ok(p) => p,
        Err(result) => {
            return (Validation::Finished, Request::Finish { result });
        },
    };
    let ghost sv = raw_spine_views(g.spine_items@);
    let ghost mv = raw_manifest_views(g.manifest_items@);
    let spine = validate_spine(package.spine_items.as_slice());
    let spine_info = match spine {
        Ok(info) => info,
        Err(result) => {
            return (Validation::Finished, Request::Finish { result });
        },
    };
    let manifest = validate_manifest(package.manifest_items.as_slice());
    let manifest_info = match manifest {
        Ok(info) => info,
        Err(result) => {
            assert(manifest_outcome(mv, Err(result)));
            return (Validation::Finished, Request::Finish { result });
        },
    };
    let ghost (p, s, m) = (package, spine_info, manifest_info);
    let next = look_for_navigation(package, spine_info, manifest_info);
    assert(package_outcome(Some(g), Ok(p)));
    assert(spine_outcome(sv, Ok(s)));
    assert(manifest_outcome(mv, Ok(m)));
    next
}

/// Takes one step of a validation: judges `reply`, the answer to the last
/// request, and returns the new state with the next request.
pub fn advance(state: Validation, reply: Reply) -> (next: (Validation, Request))
    requires
        answers(state, reply),
    ensures
        state is OpeningArchive ==> (reply matches Reply::ArchiveOpened(ok) && (
            if ok { next.0 is ReadingContainer && next.1 is LoadContainer }
            else { finishes_with_error(next, ErrorCode::InvalidZip, LocationView::Root) })),
        state is ReadingContainer ==> (reply matches Reply::Container(load) && match load {
            EntryLoad::Missing => finishes_with_error(next, ErrorCode::MissingContainerXml, LocationView::Root),
            EntryLoad::Present(DocumentLoad::Loaded(doc)) => if doc.root_files@.len() == 0 {
                finishes_with_error(next, ErrorCode::MissingOpfReference, LocationView::ArchiveEntry(container_xml_path()))
            } else {
                &&& next.0 matches Validation::ReadingOpf { opf_path } && opf_path@ == doc.root_files@[0]@
                &&& next.1 matches Request::LoadOpf { path } && path@ == doc.root_files@[0]@
            },
            EntryLoad::Present(_) => finishes_with_error(next, ErrorCode::InvalidContainerXml, LocationView::ArchiveEntry(container_xml_path())),
        }),
        state matches Validation::ReadingOpf { opf_path } ==> (reply matches Reply::Opf(load) && match load {
            EntryLoad::Missing => finishes_with_error(next, ErrorCode::InvalidOpfReference, LocationView::ArchiveEntry(opf_path@)),
            EntryLoad::Present(DocumentLoad::Unreadable) => finishes_with_error(next, ErrorCode::InvalidOpfReference, LocationView::ArchiveEntry(opf_path@)),
            EntryLoad::Present(DocumentLoad::Loaded(raw)) => after_package(raw, next),
            EntryLoad::Present(_) => finishes_with_error(next, ErrorCode::InvalidOpfXml, LocationView::Opf(Seq::empty())),
        }),
        state matches Validation::ReadingNav { package, spine_info, manifest_info, nav_path } ==> (reply matches Reply::Nav(load) && match load {
            EntryLoad::Missing => looks_for_ncx(package, spine_info, manifest_info, next),
            EntryLoad::Present(doc) => exists|r: Result<NavInfo, ValidationResult>| #[trigger] epub3_nav_outcome(nav_path@, doc, r)
                && after_navigation(spine_info, manifest_info, r, next),
        }),
        state matches Validation::ReadingNcx { spine_info, manifest_info, ncx_path } ==> (reply matches Reply::Ncx(load) && match load {
            EntryLoad::Missing => finishes_with_error(next, ErrorCode::MissingNavDocument, LocationView::Root),
            EntryLoad::Present(doc) => exists|r: Result<NavInfo, ValidationResult>| #[trigger] ncx_outcome(ncx_path@, doc, r)
                && after_navigation(spine_info, manifest_info, r, next),
        }),
        state matches Validation::CheckingEntries { spine_info, manifest_info, nav_info } ==> (reply matches Reply::Entries(present) && {
            &&& next.0 is Finished
            &&& next.1 matches Request::Finish { result } && exists|c: ValidationResult| {
                &&& #[trigger] consistency_outcome(c, spine_info, manifest_info, present@, nav_info)
                &&& result@ == empty_report().merge(c@)
            }
        }),
{
    match state {
        Validation::OpeningArchive => {
            match reply {
                Reply::ArchiveOpened(ok) => {
                    if ok {
                        (Validation::ReadingContainer, Request::LoadContainer)
                    } else {
                        finish_with_error(ErrorCode::InvalidZip, ValidationLocation::Root)
                    }
                },
                _ => (Validation::Finished, Request::Finish { result: ValidationResult::new() }),
            }
        },
        Validation::ReadingContainer => {
            match reply {
                Reply::Container(EntryLoad::Missing) => finish_with_error(ErrorCode::MissingContainerXml, ValidationLocation::Root),
                Reply::Container(EntryLoad::Present(DocumentLoad::Loaded(doc))) => {
                    match container_opf_path(Some(doc)) {
                        Ok(opf_path) => {
                            let path = opf_path.clone();
                            (Validation::ReadingOpf { opf_path }, Request::LoadOpf { path })
                        },
                        Err(result) => (Validation::Finished, Request::Finish { result }),
                    }
                },
                Reply::Container(EntryLoad::Present(_)) => {
                    finish_with_error(ErrorCode::InvalidContainerXml, ValidationLocation::ArchiveEntry { path: container_xml() })
                },
                _ => (Validation::Finished, Request::Finish { result: ValidationResult::new() }),
            }
        },
        Validation::ReadingOpf { opf_path } => {
            match reply {
                Reply::Opf(EntryLoad::Missing) | Reply::Opf(EntryLoad::Present(DocumentLoad::Unreadable)) => {
                    finish_with_error(ErrorCode::InvalidOpfReference, ValidationLocation::ArchiveEntry { path: opf_path })
                },
                Reply::Opf(EntryLoad::Present(DocumentLoad::Loaded(raw))) => after_package_step(raw),
                Reply::Opf(EntryLoad::Present(_)) => {
                    finish_with_error(ErrorCode::InvalidOpfXml, ValidationLocation::Opf { path: String::new() })
                },
                _ => (Validation::Finished, Request::Finish { result: ValidationResult::new() }),
            }
        },
        Validation::ReadingNav { package, spine_info, manifest_info, nav_path } => {
            match reply {
                Reply::Nav(EntryLoad::Missing) => look_for_ncx(package, spine_info, manifest_info),
                Reply::Nav(EntryLoad::Present(load)) => {
                    let ghost doc = load;
                    let r = validate_epub3_nav(nav_path.as_str(), load);
                    let ghost gr = r;
                    let next = after_navigation_step(spine_info, manifest_info, r);
                    assert(epub3_nav_outcome(nav_path@, doc, gr));
                    next
                },
                _ => (Validation::Finished, Request::Finish { result: ValidationResult::new() }),
            }
        },
        Validation::ReadingNcx { spine_info, manifest_info, ncx_path } => {
            match reply {
                Reply::Ncx(EntryLoad::Missing) => finish_with_error(ErrorCode::MissingNavDocument, ValidationLocation::Root),
                Reply::Ncx(EntryLoad::Present(load)) => {
                    let ghost doc = load;
                    let r = validate_ncx(ncx_path.as_str(), load);
                    let ghost gr = r;
                    let next = after_navigation_step(spine_info, manifest_info, r);
                    assert(ncx_outcome(ncx_path@, doc, gr));
                    next
                },
                _ => (Validation::Finished, Request::Finish { result: ValidationResult::new() }),
            }
        },
        Validation::CheckingEntries { spine_info, manifest_info, nav_info } => {
            match reply {
                Reply::Entries(present) => {
                    let mut result = ValidationResult::new();
                    let c = validate_consistency(&spine_info, &manifest_info, present.as_slice(), &nav_info);
                    let ghost gc = c;
                    result.extend(c);
                    assert(consistency_outcome(gc, spine_info, manifest_info, present@, nav_info));
                    (Validation::Finished, Request::Finish { result })
                },
                _ => (Validation::Finished, Request::Finish { result: ValidationResult::new() }),
            }
        },
        Validation::Finished => (Validation::Finished, Request::Finish { result: ValidationResult::new() }),
    }
}

} // verus!
