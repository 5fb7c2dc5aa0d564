//! Repairs subtitle files whose Turkish letters were read through a Latin-1
//! code page: finds the files, decodes them strictly, replaces the six
//! misread letters, and rewrites changed files after backing them up.
pub mod batch;
pub mod detect;
pub mod errors;
pub mod fix;
pub mod paths;
pub mod pipeline;
pub mod rewrite;
pub mod settings;
