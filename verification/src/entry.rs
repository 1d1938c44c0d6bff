//! The record that the scanner produces for each file and the organizer
//! consumes.

use vstd::prelude::*;

verus! {

/// What a [`ListItem`] stands for: a file's path and its creation time in
/// whole seconds since 1970-01-01T00:00:00Z.
pub struct FileEntry {
    pub seconds: int,
    pub path: Seq<char>,
}

/// One file found by a scan.
#[derive(Debug, PartialEq, Eq)]
pub struct ListItem {
    /// Creation time, in seconds since the Unix epoch.
    pub metadata: i64,
    /// Path of the file as the scan reported it.
    pub file_path: String,
}

impl View for ListItem {
    type V = FileEntry;

    open spec fn view(&self) -> FileEntry {
        FileEntry { seconds: self.metadata as int, path: self.file_path@ }
    }
}

impl ListItem {
    /// A record for the file at `file_path`, created `metadata` seconds after
    /// the epoch.
    pub fn new(metadata: i64, file_path: String) -> (item: ListItem)
        ensures
            item.metadata == metadata,
            item.file_path == file_path,
            item@ == (FileEntry { seconds: metadata as int, path: file_path@ }),
    {
        ListItem { metadata, file_path }
    }
}

/// The entries that a list of records stands for, in the list's order.
pub open spec fn entries_of(items: Seq<ListItem>) -> Seq<FileEntry> {
    items.map_values(|item: ListItem| item@)
}

} // verus!
