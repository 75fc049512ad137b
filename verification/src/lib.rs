//! Structural validation of EPUB publications: archive, container, package
//! document, spine, manifest and navigation checks, together with the
//! table-of-contents tooling used to repair books before they enter a library.

pub mod base;
pub mod text;
pub mod epub;
pub mod consistency;
pub mod archive;
pub mod validator;
pub mod library;
pub mod report;
pub mod analysis;
