//! The values that cross the library's boundary.

use vstd::prelude::*;

verus! {

/// The platforms that the library knows. What differs between them is chosen
/// by a value of this type, once, by the caller.
#[derive(Debug, Clone, Copy, PartialEq, Eq, Structural)]
pub enum Platform {
    Windows,
    MacOs,
    Linux,
}

/// One side of a comparison after decoding: a charset label and the text to
/// display. The label is an encoding name, or says that the text is a dump of
/// bytes or a flattened spreadsheet diff. Both are empty where a side is absent.
#[derive(Debug, Clone, PartialEq, Eq)]
pub struct ReadContent {
    pub charset: String,
    pub content: String,
}

/// What a content says: its label and its text as sequences of characters.
pub struct ReadContentView {
    pub charset: Seq<char>,
    pub content: Seq<char>,
}

impl View for ReadContent {
    type V = ReadContentView;

    open spec fn view(&self) -> ReadContentView {
        ReadContentView { charset: self.charset@, content: self.content@ }
    }
}

impl ReadContent {
    /// The content with the given label and text.
    pub fn new(charset: String, content: String) -> (r: ReadContent)
        ensures
            r.charset == charset,
            r.content == content,
            r@ == (ReadContentView { charset: charset@, content: content@ }),
    {
        ReadContent { charset, content }
    }

    /// Whether this is the content of an absent side.
    pub open spec fn is_empty(&self) -> bool {
        self@ == (ReadContentView { charset: Seq::empty(), content: Seq::empty() })
    }
}

impl Default for ReadContent {
    fn default() -> (r: ReadContent)
        ensures
            r.is_empty(),
    {
        ReadContent { charset: String::new(), content: String::new() }
    }
}

/// One file of a directory listing. Sizes and the time of the last
/// modification are already formatted for display.
#[derive(Debug, Clone, PartialEq, Eq)]
pub struct FileAttr {
    pub name: String,
    pub bytes_size: String,
    pub human_readable_size: String,
    pub last_modified: String,
    pub binary_comparison_only: bool,
}

/// A directory listing: the directory, its subdirectories and its files,
/// both in ascending order of name.
#[derive(Debug, Clone, PartialEq, Eq)]
pub struct ListDirResponse {
    pub current_dir: String,
    pub dirs: Vec<String>,
    pub files: Vec<FileAttr>,
}

/// What the filesystem tells about one directory entry.
#[derive(Debug, Clone, PartialEq, Eq)]
pub struct EntryMetadata {
    pub is_dir: bool,
    /// Size in bytes.
    pub len: u64,
    /// Time of the last modification, in nanoseconds since the Unix epoch.
    pub modified_nanos: u128,
    /// Whether only a byte-level comparison makes sense for this file.
    pub binary_comparison_only: bool,
}

/// One entry of a directory as it was enumerated. `metadata` is `None` where
/// the entry's metadata could not be read.
#[derive(Debug, Clone, PartialEq, Eq)]
pub struct DirEntry {
    pub name: String,
    pub metadata: Option<EntryMetadata>,
}

/// One line of a spreadsheet diff segment: a position marker and a text,
/// each of which may be missing.
#[derive(Debug, Clone, PartialEq, Eq)]
pub struct SplitUnifiedDiffLine {
    pub pos: Option<String>,
    pub text: Option<String>,
}

/// One segment of a spreadsheet diff, as seen from one side: a title and the
/// changed lines.
#[derive(Debug, Clone, PartialEq, Eq)]
pub struct SplitUnifiedDiffContent {
    pub title: String,
    pub lines: Vec<SplitUnifiedDiffLine>,
}

} // verus!
