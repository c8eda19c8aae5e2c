//! A library for dumping the structure of a binary animation file to a
//! directory tree: it models the parsed document, plans the exact set of
//! directories and files a dump writes, and decides the directory-state
//! policy, so that the boundary only performs the planned filesystem steps.

pub mod avm1;
pub mod cfg;
pub mod digest;
pub mod document;
pub mod errors;
pub mod laws;
pub mod outdir;
pub mod paths;
pub mod plan;
pub mod swf;
