//! Table-of-contents tooling: checks that a book's table of contents lines up
//! with its chapters, and regenerates an NCX table when it does not.

pub mod verify;
pub mod create;
pub mod toc_model;
pub mod opf_model;
pub mod nav_model;
pub mod generator;
pub mod verifiers;
pub mod info_sender;
pub mod orchestrator;
pub mod helpers;
pub mod metadata;
pub mod xml_steps;
