//! Preparing two filesystem paths for a diff viewer: classifying what each
//! path holds, decoding it into displayable text with a charset label, and
//! building the directory listing of a file browser pane.
//!
//! The library computes on plain values. Reading and writing files is left
//! to the caller, who hands over bytes and directory entries.

pub mod charset;
pub mod content;
pub mod format;
pub mod hex;
pub mod listing;
pub mod order;
pub mod types;
