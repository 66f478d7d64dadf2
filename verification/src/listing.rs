//! The directory lister: from the entries of a directory to the listing that
//! a file browser pane shows.

use vstd::prelude::*;
use vstd::string::*;
use chrono::Local;
use chrono::TimeZone;
use crate::format::{comma_separated, comma_separated_number, human_readable, human_readable_size};
use crate::order::{sort_by_name, sorted_by_name};
use crate::types::{DirEntry, EntryMetadata, FileAttr, ListDirResponse, Platform};

verus! {

/// How the time of the last modification is written: year, month and day,
/// then hour, minute and second.
pub const TIMESTAMP_FORMAT: &'static str = "%Y-%m-%d %H:%M:%S";

/// The prefix that canonicalization puts before an extended-length path on
/// Windows.
pub open spec fn extended_length_prefix() -> Seq<char> {
    seq!['\\', '\\', '?', '\\']
}

/// The path as it is displayed: on Windows without the extended-length prefix,
/// elsewhere as it is.
pub open spec fn displayed_path(path: Seq<char>, platform: Platform) -> Seq<char> {
    if platform == Platform::Windows && extended_length_prefix().is_prefix_of(path) {
        path.skip(4)
    } else {
        path
    }
}

/// Turns a canonical path into the one to display.
pub fn os_path_buf(path: &str, platform: Platform) -> (r: String)
    ensures
        r@ == displayed_path(path@, platform),
{
    if platform == Platform::Windows {
        let len = path.unicode_len();
        if len >= 4 && path.get_char(0) == '\\' && path.get_char(1) == '\\' && path.get_char(2)
            == '?' && path.get_char(3) == '\\' {
            assert(path@.subrange(0, 4) =~= extended_length_prefix());
            assert(path@.subrange(4, len as int) =~= path@.skip(4));
            return String::from_str(path.substring_char(4, len));
        }
        assert(!extended_length_prefix().is_prefix_of(path@)) by {
            if extended_length_prefix().is_prefix_of(path@) {
                assert(path@.subrange(0, 4) == extended_length_prefix());
                assert(path@.subrange(0, 4)[0] == '\\');
                assert(path@.subrange(0, 4)[1] == '\\');
                assert(path@.subrange(0, 4)[2] == '?');
                assert(path@.subrange(0, 4)[3] == '\\');
            }
        }
    }
    String::from_str(path)
}

/// The file managers that are looked for on Linux, in this order.
#[derive(Debug, Clone, Copy, PartialEq, Eq, Structural)]
pub struct FileManagers {
    pub nautilus: bool,
    pub dolphin: bool,
    pub nemo: bool,
    pub thunar: bool,
}

/// The command that opens the file manager: the platform's own on Windows
/// and macOS; on Linux the first of the known file managers that is
/// installed, and the desktop's opener where none is.
pub open spec fn file_manager_of(platform: Platform, installed: FileManagers) -> Seq<char> {
    match platform {
        Platform::Windows => "explorer"@,
        Platform::MacOs => "open"@,
        Platform::Linux => if installed.nautilus {
            "nautilus"@
        } else if installed.dolphin {
            "dolphin"@
        } else if installed.nemo {
            "nemo"@
        } else if installed.thunar {
            "thunar"@
        } else {
            "xdg-open"@
        },
    }
}

/// Picks the command that opens the file manager.
pub fn file_manager_command(platform: Platform, installed: FileManagers) -> (r: &'static str)
    ensures
        r@ == file_manager_of(platform, installed),
{
    match platform {
        Platform::Windows => "explorer",
        Platform::MacOs => "open",
        Platform::Linux => if installed.nautilus {
            "nautilus"
        } else if installed.dolphin {
            "dolphin"
        } else if installed.nemo {
            "nemo"
        } else if installed.thunar {
            "thunar"
        } else {
            "xdg-open"
        },
    }
}

/// Whether the entry is a directory.
pub open spec fn is_dir_entry(entry: DirEntry) -> bool {
    entry.metadata matches Some(m) && m.is_dir
}

/// Whether the entry is listed as a file: its metadata was read and it is
/// no directory.
pub open spec fn is_file_entry(entry: DirEntry) -> bool {
    entry.metadata matches Some(m) && !m.is_dir
}

/// The names of the directories among `entries`, in their order.
pub open spec fn dir_names(entries: Seq<DirEntry>) -> Seq<Seq<char>>
    decreases entries.len(),
{
    if entries.len() == 0 {
        Seq::empty()
    } else if is_dir_entry(entries.last()) {
        dir_names(entries.drop_last()).push(entries.last().name@)
    } else {
        dir_names(entries.drop_last())
    }
}

/// The entries among `entries` that are listed as files, in their order.
pub open spec fn file_entries(entries: Seq<DirEntry>) -> Seq<DirEntry>
    decreases entries.len(),
{
    if entries.len() == 0 {
        Seq::empty()
    } else if is_file_entry(entries.last()) {
        file_entries(entries.drop_last()).push(entries.last())
    } else {
        file_entries(entries.drop_last())
    }
}

/// The size column of a file: the byte count with thousands separators and
/// the word "bytes".
pub open spec fn bytes_size_text(len: nat) -> Seq<char> {
    comma_separated(len) + " bytes"@
}

/// Whether `attr` is the listing's row for a file with this name and
/// metadata. The text of the modification time is left open: it depends on
/// the machine's time zone.
pub open spec fn describes(attr: FileAttr, name: Seq<char>, metadata: EntryMetadata) -> bool {
    &&& attr.name@ == name
    &&& attr.bytes_size@ == bytes_size_text(metadata.len as nat)
    &&& attr.human_readable_size@ == human_readable(metadata.len as nat)
    &&& attr.binary_comparison_only == metadata.binary_comparison_only
}

/// Whether `rows` are the rows of the files among `entries`, one for one.
pub open spec fn describes_files(rows: Seq<FileAttr>, entries: Seq<DirEntry>) -> bool {
    let listed = file_entries(entries);
    &&& rows.len() == listed.len()
    &&& forall|k: int|
        0 <= k < rows.len() ==> describes(
            #[trigger] rows[k],
            listed[k].name@,
            listed[k].metadata.unwrap(),
        )
}

/// The names of a sequence of strings.
pub open spec fn names(strings: Seq<String>) -> Seq<Seq<char>> {
    strings.map_values(|s: String| s@)
}

/// Whether `listing` lists the directory `target_dir` with these entries:
/// its directories are the entries that are directories, its files the rows of
/// the other entries whose metadata was read, and both are in ascending order
/// of name.
pub open spec fn lists(listing: ListDirResponse, target_dir: Seq<char>, entries: Seq<DirEntry>) -> bool {
    &&& listing.current_dir@ == target_dir
    &&& sorted_by_name(listing.dirs@)
    &&& sorted_by_name(listing.files@)
    &&& exists|dirs: Seq<String>, rows: Seq<FileAttr>|
        {
            &&& names(dirs) == dir_names(entries)
            &&& describes_files(rows, entries)
            &&& #[trigger] dirs.to_multiset() == listing.dirs@.to_multiset()
            &&& #[trigger] rows.to_multiset() == listing.files@.to_multiset()
        }
}

/// Where a listed directory name comes from: an entry that is a directory.
pub proof fn lemma_dir_name_source(entries: Seq<DirEntry>, k: int) -> (p: int)
    requires
        0 <= k < dir_names(entries).len(),
    ensures
        0 <= p < entries.len(),
        is_dir_entry(entries[p]),
        entries[p].name@ == dir_names(entries)[k],
    decreases entries.len(),
{
    let before = entries.drop_last();
    if is_dir_entry(entries.last()) && k == dir_names(before).len() {
        entries.len() - 1
    } else {
        lemma_dir_name_source(before, k)
    }
}

/// Where a listed file comes from: an entry that is no directory and whose
/// metadata was read.
pub proof fn lemma_file_entry_source(entries: Seq<DirEntry>, k: int) -> (p: int)
    requires
        0 <= k < file_entries(entries).len(),
    ensures
        0 <= p < entries.len(),
        is_file_entry(entries[p]),
        entries[p] == file_entries(entries)[k],
    decreases entries.len(),
{
    let before = entries.drop_last();
    if is_file_entry(entries.last()) && k == file_entries(before).len() {
        entries.len() - 1
    } else {
        lemma_file_entry_source(before, k)
    }
}

/// In a listing of entries whose names differ from each other, the
/// directories and the files share no name.
pub proof fn lemma_dirs_and_files_share_no_name(
    listing: ListDirResponse,
    target_dir: Seq<char>,
    entries: Seq<DirEntry>,
)
    requires
        lists(listing, target_dir, entries),
        forall|i: int, j: int|
            0 <= i < j < entries.len() ==> (#[trigger] entries[i]).name@ != (
            #[trigger] entries[j]).name@,
    ensures
        forall|i: int, j: int|
            0 <= i < listing.dirs@.len() && 0 <= j < listing.files@.len() ==> (
            #[trigger] listing.dirs@[i])@ != (#[trigger] listing.files@[j]).name@,
{
    broadcast use vstd::seq_lib::group_to_multiset_ensures;

    let (dirs, rows) = choose|dirs: Seq<String>, rows: Seq<FileAttr>|
        {
            &&& names(dirs) == dir_names(entries)
            &&& describes_files(rows, entries)
            &&& #[trigger] dirs.to_multiset() == listing.dirs@.to_multiset()
            &&& #[trigger] rows.to_multiset() == listing.files@.to_multiset()
        };
    assert forall|i: int, j: int|
        0 <= i < listing.dirs@.len() && 0 <= j < listing.files@.len() implies (
    #[trigger] listing.dirs@[i])@ != (#[trigger] listing.files@[j]).name@ by {
        let dir = listing.dirs@[i];
        let row = listing.files@[j];
        assert(listing.dirs@.contains(dir));
        assert(listing.files@.contains(row));
        assert(dirs.to_multiset().count(dir) > 0);
        assert(rows.to_multiset().count(row) > 0);
        assert(dirs.contains(dir));
        assert(rows.contains(row));
        let a = choose|a: int| 0 <= a < dirs.len() && dirs[a] == dir;
        let b = choose|b: int| 0 <= b < rows.len() && rows[b] == row;
        assert(names(dirs)[a] == dir@);
        let p = lemma_dir_name_source(entries, a);
        let q = lemma_file_entry_source(entries, b);
        assert(describes(rows[b], file_entries(entries)[b].name@, file_entries(entries)[b].metadata.unwrap()));
        if dir@ == row.name@ {
            assert(entries[p].name@ == entries[q].name@);
            assert(p != q);
            if p < q {
                assert(entries[p].name@ != entries[q].name@);
            } else {
                assert(entries[q].name@ != entries[p].name@);
            }
        }
    }
}

/// `chrono::Local.timestamp_nanos(nanos)`, formatted with `pattern`: the
/// moment `nanos` nanoseconds after the Unix epoch in the machine's local
/// time. Which text comes out depends on the machine's time zone, so nothing
/// is claimed of it.
#[verifier::external_body]
fn local_time_text(nanos: i64, pattern: &str) -> (r: String)
    requires
        pattern@ == TIMESTAMP_FORMAT@,
{
    Local.timestamp_nanos(nanos).format(pattern).to_string()
}

/// The listing's row for a file, given the text of its modification time.
pub fn file_attr(name: &str, metadata: &EntryMetadata, last_modified: String) -> (r: FileAttr)
    ensures
        describes(r, name@, *metadata),
        r.last_modified == last_modified,
{
    let mut bytes_size = comma_separated_number(metadata.len);
    bytes_size.append(" bytes");
    FileAttr {
        name: String::from_str(name),
        bytes_size,
        human_readable_size: human_readable_size(metadata.len),
        last_modified,
        binary_comparison_only: metadata.binary_comparison_only,
    }
}

/// Lists the directory `target_dir`, whose entries are `entries`. Entries
/// without metadata are left out.
pub fn list_dir(target_dir: &str, entries: &Vec<DirEntry>) -> (r: ListDirResponse)
    ensures
        lists(r, target_dir@, entries@),
{
    let mut dirs: Vec<String> = Vec::new();
    let mut files: Vec<FileAttr> = Vec::new();
    let mut i: usize = 0;
    assert(names(dirs@) =~= dir_names(entries@.take(0)));
    assert(file_entries(entries@.take(0)).len() == 0);
    while i < entries.len()
        invariant
            i <= entries@.len(),
            names(dirs@) == dir_names(entries@.take(i as int)),
            describes_files(files@, entries@.take(i as int)),
        decreases entries@.len() - i,
    {
        let entry = &entries[i];
        proof {
            let next = entries@.take(i + 1);
            assert(next.drop_last() =~= entries@.take(i as int));
            assert(next.last() == entries@[i as int]);
        }
        match &entry.metadata {
            Some(metadata) => {
                if metadata.is_dir {
                    let ghost before = dirs@;
                    dirs.push(String::from_str(entry.name.as_str()));
                    assert(names(dirs@) =~= names(before).push(entry.name@));
                } else {
                    let nanos: i64 = #[verifier::truncate]
                    (metadata.modified_nanos as i64);
                    let last_modified = local_time_text(nanos, TIMESTAMP_FORMAT);
                    files.push(file_attr(entry.name.as_str(), metadata, last_modified));
                }
            },
            None => {},
        }
        i += 1;
    }
    assert(entries@.take(entries@.len() as int) =~= entries@);
    let ghost unsorted_dirs = dirs@;
    let ghost unsorted_rows = files@;
    let dirs = sort_by_name(dirs);
    let files = sort_by_name(files);
    let r = ListDirResponse { current_dir: String::from_str(target_dir), dirs, files };
    assert(lists(r, target_dir@, entries@)) by {
        assert(names(unsorted_dirs) == dir_names(entries@));
        assert(describes_files(unsorted_rows, entries@));
        assert(unsorted_dirs.to_multiset() == r.dirs@.to_multiset());
        assert(unsorted_rows.to_multiset() == r.files@.to_multiset());
    }
    r
}

} // verus!
