//! The index as a mathematical value, the operations of the store as
//! functions on it, and what holds of them.

use vstd::prelude::*;
use crate::db::record::{FileView, NewTagView, NewXref, TagView, XrefRecord};
use crate::Error;

verus! {

/// The two timestamps the index keeps for a path.
pub struct FileTimes {
    pub mtime: i64,
    pub ptime: i64,
}

/// Everything the index holds.
pub struct IndexView {
    /// The file records, by path.
    pub files: Map<Seq<char>, FileTimes>,
    /// The tags, in the order of their ids.
    pub tags: Seq<TagView>,
    /// The cross-references.
    pub xrefs: Seq<XrefRecord>,
    /// The id that the next new tag gets.
    pub next_id: i64,
}

/// Some tag of the sequence has the id.
pub open spec fn has_tag_id(tags: Seq<TagView>, id: i64) -> bool {
    exists|i: int| 0 <= i < tags.len() && (#[trigger] tags[i]).id == id
}

/// The tags whose file is among `files`.
pub open spec fn tag_of_known_file(files: Map<Seq<char>, FileTimes>) -> spec_fn(TagView) -> bool {
    |t: TagView| files.contains_key(t.path)
}

/// The tags that belong to another file than `path`.
pub open spec fn tag_outside(path: Seq<char>) -> spec_fn(TagView) -> bool {
    |t: TagView| t.path != path
}

/// The tags that belong to the file `path`.
pub open spec fn tag_inside(path: Seq<char>) -> spec_fn(TagView) -> bool {
    |t: TagView| t.path == path
}

/// The tags of the file `path` whose span holds the position.
pub open spec fn tag_covering(path: Seq<char>, row: usize, col: usize) -> spec_fn(TagView) -> bool {
    |t: TagView| t.path == path && t.span.spec_covers(row, col)
}

/// The cross-references that lead from the tag `id`.
pub open spec fn xref_naming(id: i64) -> spec_fn(XrefRecord) -> bool {
    |x: XrefRecord| x.name == id
}

/// The cross-references that refer to the tag `id`.
pub open spec fn xref_holding(id: i64) -> spec_fn(XrefRecord) -> bool {
    |x: XrefRecord| x.hold == id
}

/// The cross-references with both ends among `tags`.
pub open spec fn xref_between(tags: Seq<TagView>) -> spec_fn(XrefRecord) -> bool {
    |x: XrefRecord| has_tag_id(tags, x.name) && has_tag_id(tags, x.hold)
}

/// A scan saw the path.
pub open spec fn observes(observed: Seq<FileView>, path: Seq<char>) -> bool {
    exists|i: int| 0 <= i < observed.len() && (#[trigger] observed[i]).path == path
}

/// The modification time that a scan reports for a path: that of its last
/// entry for the path.
pub open spec fn observed_mtime(observed: Seq<FileView>, path: Seq<char>) -> i64
    decreases observed.len(),
{
    if observed.len() == 0 {
        0
    } else if observed.last().path == path {
        observed.last().mtime
    } else {
        observed_mtime(observed.drop_last(), path)
    }
}

/// The file records after a scan: one for each path the scan saw, with the
/// modification time the scan reports and the analysis time the path had
/// before, zero if it had none.
pub open spec fn reconcile_files(
    files: Map<Seq<char>, FileTimes>,
    observed: Seq<FileView>,
) -> Map<Seq<char>, FileTimes> {
    Map::new(
        |path: Seq<char>| observes(observed, path),
        |path: Seq<char>|
            FileTimes {
                mtime: observed_mtime(observed, path),
                ptime: if files.contains_key(path) {
                    files[path].ptime
                } else {
                    0
                },
            },
    )
}

impl IndexView {
    /// The empty index.
    pub open spec fn empty() -> IndexView {
        IndexView { files: Map::empty(), tags: Seq::empty(), xrefs: Seq::empty(), next_id: 1 }
    }

    /// The index is consistent: every tag belongs to a known file, tag ids
    /// are positive, increase along the sequence and lie below the next id,
    /// and both ends of every cross-reference are stored tags.
    pub open spec fn wf(self) -> bool {
        &&& 1 <= self.next_id
        &&& forall|i: int|
            0 <= i < self.tags.len() ==> {
                &&& self.files.contains_key((#[trigger] self.tags[i]).path)
                &&& 1 <= self.tags[i].id < self.next_id
            }
        &&& forall|i: int, j: int|
            0 <= i < j < self.tags.len() ==> (#[trigger] self.tags[i]).id < (
            #[trigger] self.tags[j]).id
        &&& forall|k: int|
            0 <= k < self.xrefs.len() ==> {
                &&& has_tag_id(self.tags, (#[trigger] self.xrefs[k]).name)
                &&& has_tag_id(self.tags, self.xrefs[k].hold)
            }
    }

    /// The file is known and its tags are older than the file.
    pub open spec fn is_pending(self, path: Seq<char>) -> bool {
        self.files.contains_key(path) && self.files[path].ptime < self.files[path].mtime
    }

    /// The index after a full scan of the workspace: file records follow the
    /// scan, tags of files that are gone go with them, and so do the
    /// cross-references that lose an end.
    pub open spec fn reconcile(self, observed: Seq<FileView>) -> IndexView {
        let files = reconcile_files(self.files, observed);
        let tags = self.tags.filter(tag_of_known_file(files));
        IndexView {
            files,
            tags,
            xrefs: self.xrefs.filter(xref_between(tags)),
            next_id: self.next_id,
        }
    }

    /// A report for `path` can be stored: the file is known, every
    /// cross-reference stays within the report, and there are ids left.
    pub open spec fn accepts(self, path: Seq<char>, tags: Seq<NewTagView>, xrefs: Seq<NewXref>) -> bool {
        &&& self.files.contains_key(path)
        &&& xrefs_in_range(xrefs, tags.len())
        &&& self.next_id + tags.len() <= i64::MAX
    }

    /// What the store answers to a report for `path`: the report is stored,
    /// or it is refused for the first of these reasons that holds.
    pub open spec fn verdict(
        self,
        path: Seq<char>,
        tags: Seq<NewTagView>,
        xrefs: Seq<NewXref>,
    ) -> Result<(), Error> {
        if !self.files.contains_key(path) {
            Err(Error::UnknownFile)
        } else if !xrefs_in_range(xrefs, tags.len()) {
            Err(Error::DanglingXref)
        } else if self.next_id + tags.len() > i64::MAX {
            Err(Error::TagIdsExhausted)
        } else {
            Ok(())
        }
    }

    /// The stored form of the reported tags: owned by `path`, with ids from
    /// the next id on, in the order of the report.
    pub open spec fn new_tags(self, path: Seq<char>, tags: Seq<NewTagView>) -> Seq<TagView> {
        Seq::new(
            tags.len(),
            |i: int|
                TagView {
                    id: (self.next_id + i) as i64,
                    kind: tags[i].kind,
                    span: tags[i].span,
                    path,
                    name: tags[i].name,
                },
        )
    }

    /// The stored form of the reported cross-references: positions in the
    /// report become the ids that the tags get.
    pub open spec fn new_xrefs(self, xrefs: Seq<NewXref>) -> Seq<XrefRecord> {
        Seq::new(
            xrefs.len(),
            |k: int|
                XrefRecord {
                    name: (self.next_id + xrefs[k].name) as i64,
                    hold: (self.next_id + xrefs[k].hold) as i64,
                },
        )
    }

    /// The index after the tags of `path` were replaced at time `now`: the
    /// file's former tags and every cross-reference that touched one are
    /// gone, the report is stored after what remains, and the file counts as
    /// analyzed at `now`.
    pub open spec fn replace(
        self,
        path: Seq<char>,
        tags: Seq<NewTagView>,
        xrefs: Seq<NewXref>,
        now: i64,
    ) -> IndexView {
        let kept = self.tags.filter(tag_outside(path));
        IndexView {
            files: self.files.insert(
                path,
                FileTimes { mtime: self.files[path].mtime, ptime: now },
            ),
            tags: kept + self.new_tags(path, tags),
            xrefs: self.xrefs.filter(xref_between(kept)) + self.new_xrefs(xrefs),
            next_id: (self.next_id + tags.len()) as i64,
        }
    }
}

/// Every cross-reference of a report names two of its `count` tags.
pub open spec fn xrefs_in_range(xrefs: Seq<NewXref>, count: nat) -> bool {
    forall|k: int|
        0 <= k < xrefs.len() ==> (#[trigger] xrefs[k]).name < count && xrefs[k].hold < count
}

} // verus!
