pub mod spine;
pub mod manifest;
pub mod navigation;
pub mod opf;
pub mod container;
