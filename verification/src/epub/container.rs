//! Phase 2: META-INF/container.xml, which names the package document.

use vstd::prelude::*;

use crate::base::result::ValidationResult;
use crate::base::types::{ErrorCode, LocationView, ValidationError, ValidationLocation};
use crate::epub::spine::single_error;

verus! {

/// The rootfile paths that a container document lists, in order.
pub struct ContainerDocument {
    pub root_files: Vec<String>,
}

/// Where every EPUB keeps its container document.
pub open spec fn container_xml_path() -> Seq<char> {
    "META-INF/container.xml"@
}

/// The path of the container document.
pub fn container_xml() -> (s: String)
    ensures
        s@ == container_xml_path(),
{
    String::from_str("META-INF/container.xml")
}

/// The package document that a decoded container document names: its first
/// rootfile. A document that could not be decoded is invalid; one without
/// rootfiles names no package document.
pub fn container_opf_path(document: Option<ContainerDocument>) -> (r: Result<String, ValidationResult>)
    ensures
        document is None ==> (r matches Err(res) && single_error(res@, ErrorCode::InvalidContainerXml, LocationView::ArchiveEntry(container_xml_path()))),
        document matches Some(doc) ==> {
            &&& doc.root_files@.len() == 0 ==> (r matches Err(res) && single_error(res@, ErrorCode::MissingOpfReference, LocationView::ArchiveEntry(container_xml_path())))
            &&& doc.root_files@.len() > 0 ==> (r matches Ok(p) && p@ == doc.root_files@[0]@)
        },
{
    let mut result = ValidationResult::new();
    match document {
        None => {
            result.add_error(ValidationError::new(
                ErrorCode::InvalidContainerXml,
                ValidationLocation::ArchiveEntry { path: container_xml() },
            ));
            Err(result)
        },
        Some(doc) => {
            if doc.root_files.len() == 0 {
                result.add_error(ValidationError::new(
                    ErrorCode::MissingOpfReference,
                    ValidationLocation::ArchiveEntry { path: container_xml() },
                ));
                Err(result)
            } else {
                Ok(doc.root_files[0].clone())
            }
        },
    }
}

} // verus!
