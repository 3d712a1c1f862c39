//! From the entries of a directory walk to the files of a scan.

use vstd::prelude::*;
use crate::db::record::{views, FileInfo, FileView};

verus! {

/// What a walk of the workspace reports of one entry.
#[derive(Debug)]
pub struct WalkEntry {
    /// The path of the entry.
    pub path: String,
    /// Whether the entry is a regular file.
    pub is_file: bool,
    /// When the entry was last modified, in seconds since the epoch.
    pub modified_secs: u64,
}

/// A walk entry with its path as a sequence of characters.
pub struct WalkEntryView {
    pub path: Seq<char>,
    pub is_file: bool,
    pub modified_secs: u64,
}

impl View for WalkEntry {
    type V = WalkEntryView;

    open spec fn view(&self) -> WalkEntryView {
        WalkEntryView {
            path: self.path@,
            is_file: self.is_file,
            modified_secs: self.modified_secs,
        }
    }
}

/// Seconds since the epoch as the index holds them: the same 64 bits read as
/// a signed number.
pub open spec fn mtime_of(modified_secs: u64) -> i64 {
    if modified_secs <= i64::MAX {
        modified_secs as i64
    } else {
        (modified_secs - 0x1_0000_0000_0000_0000) as i64
    }
}

/// The file of a scan that an entry stands for: none unless the entry is a
/// regular file; then its path and modification time, not analyzed yet.
pub open spec fn scanned(entry: WalkEntryView) -> Option<FileView> {
    if entry.is_file {
        Some(FileView { path: entry.path, mtime: mtime_of(entry.modified_secs), ptime: 0 })
    } else {
        None
    }
}

/// The classification of walk entries.
pub open spec fn scanner() -> spec_fn(WalkEntryView) -> Option<FileView> {
    |entry: WalkEntryView| scanned(entry)
}

/// The file of a scan that an entry stands for, if it is a regular file.
pub fn scan_entry(entry: &WalkEntry) -> (file: Option<FileInfo>)
    ensures
        match file {
            Some(f) => scanned(entry@) == Some(f@),
            None => scanned(entry@) is None,
        },
{
    if !entry.is_file {
        return None;
    }
    let mtime: i64 = if entry.modified_secs <= i64::MAX as u64 {
        entry.modified_secs as i64
    } else {
        -((u64::MAX - entry.modified_secs) as i64) - 1
    };
    Some(FileInfo { path: entry.path.clone(), mtime, ptime: 0 })
}

/// The files of a scan: the regular files among the entries of a walk, in
/// the order of the walk.
pub fn collect_files(entries: &Vec<WalkEntry>) -> (files: Vec<FileInfo>)
    ensures
        views(files@) == views(entries@).filter_map(scanner()),
{
    let ghost all = views(entries@);
    let mut files: Vec<FileInfo> = Vec::new();
    let mut i: usize = 0;
    assert(views(files@) == all.take(0).filter_map(scanner()));
    while i < entries.len()
        invariant
            i <= entries.len(),
            all == views(entries@),
            views(files@) == all.take(i as int).filter_map(scanner()),
        decreases entries.len() - i,
    {
        proof {
            all.lemma_filter_map_take_succ(scanner(), i as int);
        }
        match scan_entry(&entries[i]) {
            Some(file) => {
                let ghost before = views(files@);
                files.push(file);
                assert(views(files@) == before + seq![file@]);
            },
            None => {},
        }
        i += 1;
    }
    assert(all.take(entries.len() as int) == all);
    files
}

} // verus!
