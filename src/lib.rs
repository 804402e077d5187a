//! A minimal directory lister: option parsing, entry filtering, and the
//! rendering of listing lines, with the filesystem kept at the edge.

pub mod text;
pub mod format;
pub mod options;
pub mod listing;
