//! The records of the index and their mathematical views.

use vstd::prelude::*;

verus! {

/// A file of the workspace as the index knows it.
#[derive(Debug)]
pub struct FileInfo {
    /// The path of the file, the key of its record.
    pub path: String,
    /// When the file was last seen modified, in seconds since the epoch.
    pub mtime: i64,
    /// When the file's tags were last extracted; zero if never.
    pub ptime: i64,
}

/// A file record with its path as a sequence of characters.
pub struct FileView {
    pub path: Seq<char>,
    pub mtime: i64,
    pub ptime: i64,
}

impl View for FileInfo {
    type V = FileView;

    open spec fn view(&self) -> FileView {
        FileView { path: self.path@, mtime: self.mtime, ptime: self.ptime }
    }
}

impl FileView {
    /// The file's tags are older than the file.
    pub open spec fn stale(self) -> bool {
        self.ptime < self.mtime
    }
}

impl Clone for FileInfo {
    fn clone(&self) -> (copy: Self)
        ensures
            copy@ == self@,
    {
        FileInfo { path: self.path.clone(), mtime: self.mtime, ptime: self.ptime }
    }
}

impl Default for FileInfo {
    fn default() -> (info: Self)
        ensures
            info@ == (FileView { path: Seq::empty(), mtime: 0, ptime: 0 }),
    {
        FileInfo { path: String::new(), mtime: 0, ptime: 0 }
    }
}

impl FileInfo {
    /// Whether the file needs to be analyzed again.
    pub fn is_stale(&self) -> (stale: bool)
        ensures
            stale == self@.stale(),
    {
        self.ptime < self.mtime
    }
}

/// Where a symbol occurs in its file, in zero-based rows and columns.
#[derive(Debug, Clone, Copy, PartialEq, Eq, Structural)]
pub struct Span {
    pub beg_row: usize,
    pub beg_col: usize,
    pub end_row: usize,
    pub end_col: usize,
}

impl Span {
    /// The position lies in the span: not before its begin, and before its
    /// end.
    pub open spec fn spec_covers(self, row: usize, col: usize) -> bool {
        &&& self.beg_row < row || (self.beg_row == row && self.beg_col <= col)
        &&& row < self.end_row || (row == self.end_row && col < self.end_col)
    }

    /// Whether a position lies in the span.
    #[verifier::when_used_as_spec(spec_covers)]
    pub fn covers(self, row: usize, col: usize) -> (inside: bool)
        ensures
            inside == self.spec_covers(row, col),
    {
        (self.beg_row < row || (self.beg_row == row && self.beg_col <= col)) && (row < self.end_row
            || (row == self.end_row && col < self.end_col))
    }
}

/// A symbol occurrence as the store holds it.
#[derive(Debug)]
pub struct TagRecord {
    /// Assigned by the store; never reused.
    pub id: i64,
    /// The code of the symbol's classification.
    pub kind: u16,
    pub span: Span,
    /// The file that owns the tag.
    pub path: String,
    /// The symbol's text.
    pub name: String,
}

/// A tag record with its texts as sequences of characters.
pub struct TagView {
    pub id: i64,
    pub kind: u16,
    pub span: Span,
    pub path: Seq<char>,
    pub name: Seq<char>,
}

impl View for TagRecord {
    type V = TagView;

    open spec fn view(&self) -> TagView {
        TagView {
            id: self.id,
            kind: self.kind,
            span: self.span,
            path: self.path@,
            name: self.name@,
        }
    }
}

impl Clone for TagRecord {
    fn clone(&self) -> (copy: Self)
        ensures
            copy@ == self@,
    {
        TagRecord {
            id: self.id,
            kind: self.kind,
            span: self.span,
            path: self.path.clone(),
            name: self.name.clone(),
        }
    }
}

/// A symbol occurrence as an analyzer reports it, before the store has given
/// it an id and an owner.
#[derive(Debug)]
pub struct NewTag {
    pub kind: u16,
    pub span: Span,
    pub name: String,
}

/// A reported tag with its name as a sequence of characters.
pub struct NewTagView {
    pub kind: u16,
    pub span: Span,
    pub name: Seq<char>,
}

impl View for NewTag {
    type V = NewTagView;

    open spec fn view(&self) -> NewTagView {
        NewTagView { kind: self.kind, span: self.span, name: self.name@ }
    }
}

impl Clone for NewTag {
    fn clone(&self) -> (copy: Self)
        ensures
            copy@ == self@,
    {
        NewTag { kind: self.kind, span: self.span, name: self.name.clone() }
    }
}

/// An edge between two stored tags: the occurrence `name` refers to the
/// occurrence `hold`. Both are tag ids.
#[derive(Debug, Clone, Copy, PartialEq, Eq, Structural)]
pub struct XrefRecord {
    pub name: i64,
    pub hold: i64,
}

/// An edge between two reported tags, each given by its position in the
/// report.
#[derive(Debug, Clone, Copy, PartialEq, Eq, Structural)]
pub struct NewXref {
    pub name: usize,
    pub hold: usize,
}

/// The views of the items of a sequence, in order.
pub open spec fn views<T: View>(items: Seq<T>) -> Seq<T::V> {
    Seq::new(items.len(), |i: int| items[i]@)
}

} // verus!
