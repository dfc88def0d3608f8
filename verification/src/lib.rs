pub mod archive;
pub mod download;
pub mod extract;
pub mod fs_model;
pub mod install;
