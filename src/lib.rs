//! Detection of obfuscated JavaScript in source trees: the line classifier,
//! the scan over a source's files, and the decisions of the three sources
//! (a local folder, a zip archive, a remote repository).
pub mod archive;
pub mod detection;
pub mod error;
pub mod folder;
pub mod patterns;
pub mod remote;
pub mod scanner;
pub mod text;
