//! The index held in memory: the executable form of the operations of the
//! store.

use vstd::prelude::*;
use crate::db::index::{
    has_tag_id, observes, reconcile_files, tag_covering, tag_inside, tag_of_known_file,
    tag_outside, xref_between, xref_holding, xref_naming, xrefs_in_range, FileTimes, IndexView,
};
use crate::db::laws::{reconcile_keeps_wf, replace_keeps_wf};
use crate::db::record::{
    views, FileInfo, FileView, NewTag, NewXref, TagRecord, TagView, XrefRecord,
};
use crate::Error;

verus! {

/// No path occurs twice.
pub open spec fn unique_paths(files: Seq<FileView>) -> bool {
    forall|i: int, j: int|
        0 <= i < j < files.len() ==> (#[trigger] files[i]).path != (#[trigger] files[j]).path
}

/// The position of a record with the path, if there is one.
pub open spec fn position_of(files: Seq<FileView>, path: Seq<char>) -> int {
    choose|i: int| 0 <= i < files.len() && (#[trigger] files[i]).path == path
}

/// The file records as a map from path to timestamps.
pub open spec fn files_map(files: Seq<FileView>) -> Map<Seq<char>, FileTimes> {
    Map::new(
        |path: Seq<char>| observes(files, path),
        |path: Seq<char>|
            FileTimes {
                mtime: files[position_of(files, path)].mtime,
                ptime: files[position_of(files, path)].ptime,
            },
    )
}

/// With no path twice, the map holds at each record's path that record's
/// timestamps.
pub proof fn files_map_at(files: Seq<FileView>, i: int)
    requires
        unique_paths(files),
        0 <= i < files.len(),
    ensures
        files_map(files).contains_key(files[i].path),
        files_map(files)[files[i].path] == (FileTimes {
            mtime: files[i].mtime,
            ptime: files[i].ptime,
        }),
{
    let path = files[i].path;
    assert(files[i].path == path);
    let at = position_of(files, path);
    assert(at == i) by {
        if at < i {
            assert(files[at].path != files[i].path);
        } else if i < at {
            assert(files[i].path != files[at].path);
        }
    }
}

/// Appending a record for a new path adds its entry to the map.
pub proof fn files_map_push(files: Seq<FileView>, file: FileView)
    requires
        unique_paths(files),
        !observes(files, file.path),
    ensures
        unique_paths(files.push(file)),
        files_map(files.push(file)) == files_map(files).insert(
            file.path,
            FileTimes { mtime: file.mtime, ptime: file.ptime },
        ),
{
    let longer = files.push(file);
    assert forall|i: int, j: int| 0 <= i < j < longer.len() implies (#[trigger] longer[i]).path != (
    #[trigger] longer[j]).path by {
        if j == files.len() {
            assert(files[i].path != file.path);
        } else {
            assert(files[i].path != files[j].path);
        }
    }
    let grown = files_map(files).insert(
        file.path,
        FileTimes { mtime: file.mtime, ptime: file.ptime },
    );
    assert forall|path: Seq<char>| files_map(longer).contains_key(path) == grown.contains_key(
        path,
    ) by {
        if observes(files, path) {
            let at = position_of(files, path);
            assert(longer[at].path == path);
        }
        if path == file.path {
            assert(longer[files.len() as int].path == path);
        }
        if observes(longer, path) {
            let at = position_of(longer, path);
            if at < files.len() {
                assert(files[at].path == path);
            }
        }
    }
    assert forall|path: Seq<char>| files_map(longer).contains_key(path) implies files_map(
        longer,
    )[path] == grown[path] by {
        let at = position_of(longer, path);
        files_map_at(longer, at);
        if at < files.len() {
            files_map_at(files, at);
        }
    }
    assert(files_map(longer) =~= grown);
}

/// Changing the timestamps of a record changes its entry in the map.
pub proof fn files_map_update(files: Seq<FileView>, i: int, file: FileView)
    requires
        unique_paths(files),
        0 <= i < files.len(),
        file.path == files[i].path,
    ensures
        unique_paths(files.update(i, file)),
        files_map(files.update(i, file)) == files_map(files).insert(
            file.path,
            FileTimes { mtime: file.mtime, ptime: file.ptime },
        ),
{
    let changed = files.update(i, file);
    assert forall|a: int, b: int| 0 <= a < b < changed.len() implies (#[trigger] changed[a]).path
        != (#[trigger] changed[b]).path by {
        assert(files[a].path != files[b].path);
    }
    let grown = files_map(files).insert(
        file.path,
        FileTimes { mtime: file.mtime, ptime: file.ptime },
    );
    assert forall|path: Seq<char>| files_map(changed).contains_key(path) == grown.contains_key(
        path,
    ) by {
        if observes(files, path) {
            let at = position_of(files, path);
            assert(changed[at].path == path);
        }
        if observes(changed, path) {
            let at = position_of(changed, path);
            assert(files[at].path == path);
        }
    }
    assert forall|path: Seq<char>| files_map(changed).contains_key(path) implies files_map(
        changed,
    )[path] == grown[path] by {
        let at = position_of(changed, path);
        files_map_at(changed, at);
        files_map_at(files, at);
    }
    assert(files_map(changed) =~= grown);
}

/// One more observation adds or overwrites one entry of the reconciled file
/// records.
pub proof fn reconcile_files_push(
    files: Map<Seq<char>, FileTimes>,
    observed: Seq<FileView>,
    file: FileView,
)
    ensures
        reconcile_files(files, observed.push(file)) == reconcile_files(files, observed).insert(
            file.path,
            FileTimes {
                mtime: file.mtime,
                ptime: if files.contains_key(file.path) {
                    files[file.path].ptime
                } else {
                    0
                },
            },
        ),
{
    let longer = observed.push(file);
    let before = reconcile_files(files, observed);
    let after = reconcile_files(files, longer);
    assert(longer.drop_last() == observed);
    assert forall|path: Seq<char>| after.contains_key(path) == (before.contains_key(path) || path
        == file.path) by {
        if observes(observed, path) {
            let at = choose|i: int| 0 <= i < observed.len() && (#[trigger] observed[i]).path == path;
            assert(longer[at].path == path);
        }
        if path == file.path {
            assert(longer[observed.len() as int].path == path);
        }
        if observes(longer, path) {
            let at = choose|i: int| 0 <= i < longer.len() && (#[trigger] longer[i]).path == path;
            if at < observed.len() {
                assert(observed[at].path == path);
            }
        }
    }
    assert(after =~= before.insert(
        file.path,
        FileTimes {
            mtime: file.mtime,
            ptime: if files.contains_key(file.path) {
                files[file.path].ptime
            } else {
                0
            },
        },
    ));
}

/// The index store, held in memory.
pub struct IndexStore {
    files: Vec<FileInfo>,
    tags: Vec<TagRecord>,
    xrefs: Vec<XrefRecord>,
    next_id: i64,
}

/// Where among the records the path is found.
fn find_file(files: &Vec<FileInfo>, path: &String) -> (found: Option<usize>)
    ensures
        match found {
            Some(i) => i < files.len() && files[i as int]@.path == path@,
            None => true,
        },
        found is Some <==> observes(views(files@), path@),
{
    let mut i: usize = 0;
    while i < files.len()
        invariant
            i <= files.len(),
            forall|j: int| 0 <= j < i ==> (#[trigger] views(files@)[j]).path != path@,
        decreases files.len() - i,
    {
        if files[i].path == *path {
            assert(views(files@)[i as int].path == path@);
            return Some(i);
        }
        i += 1;
    }
    None
}

impl View for IndexStore {
    type V = IndexView;

    closed spec fn view(&self) -> IndexView {
        IndexView {
            files: files_map(views(self.files@)),
            tags: views(self.tags@),
            xrefs: self.xrefs@,
            next_id: self.next_id,
        }
    }
}

impl IndexStore {
    /// The store holds a consistent index.
    pub closed spec fn wf(&self) -> bool {
        unique_paths(views(self.files@)) && self@.wf()
    }

    /// A store that is well formed holds a consistent index.
    pub proof fn wf_view(&self)
        requires
            self.wf(),
        ensures
            self@.wf(),
    {
    }

    /// A store that holds nothing. The first tag gets the id 1.
    pub fn new() -> (store: IndexStore)
        ensures
            store.wf(),
            store@ == IndexView::empty(),
    {
        let store = IndexStore { files: Vec::new(), tags: Vec::new(), xrefs: Vec::new(), next_id: 1 };
        assert(store@.files =~= Map::empty());
        assert(store@.tags =~= Seq::empty());
        store
    }

    /// The files that need analysis: every file record whose tags are older
    /// than the file, each once, in no particular order.
    pub fn pending_analysis(&self) -> (pending: Vec<FileInfo>)
        requires
            self.wf(),
        ensures
            forall|k: int|
                0 <= k < pending.len() ==> {
                    &&& self@.is_pending((#[trigger] pending[k])@.path)
                    &&& self@.files[pending[k]@.path] == (FileTimes {
                        mtime: pending[k].mtime,
                        ptime: pending[k].ptime,
                    })
                },
            forall|path: Seq<char>|
                self@.is_pending(path) ==> observes(views(pending@), path),
            unique_paths(views(pending@)),
    {
        let ghost all = views(self.files@);
        let ghost mut from: Seq<int> = Seq::empty();
        let mut pending: Vec<FileInfo> = Vec::new();
        let mut i: usize = 0;
        while i < self.files.len()
            invariant
                i <= self.files.len(),
                all == views(self.files@),
                unique_paths(all),
                from.len() == pending.len(),
                forall|k: int|
                    0 <= k < from.len() ==> 0 <= (#[trigger] from[k]) < i && pending[k]@
                        == all[from[k]] && all[from[k]].stale(),
                forall|a: int, b: int| 0 <= a < b < from.len() ==> from[a] < from[b],
                forall|j: int|
                    0 <= j < i && (#[trigger] all[j]).stale() ==> observes(
                        views(pending@),
                        all[j].path,
                    ),
            decreases self.files.len() - i,
        {
            if self.files[i].is_stale() {
                let ghost before = views(pending@);
                pending.push(self.files[i].clone());
                proof {
                    from = from.push(i as int);
                    let after = views(pending@);
                    assert(after[pending.len() - 1].path == all[i as int].path);
                    assert forall|j: int| 0 <= j < i && (#[trigger] all[j]).stale() implies observes(
                        after,
                        all[j].path,
                    ) by {
                        let at = choose|at: int|
                            0 <= at < before.len() && (#[trigger] before[at]).path == all[j].path;
                        assert(after[at].path == all[j].path);
                    }
                }
            }
            i += 1;
        }
        proof {
            let out = views(pending@);
            assert forall|k: int| 0 <= k < pending.len() implies {
                &&& self@.is_pending((#[trigger] pending[k])@.path)
                &&& self@.files[pending[k]@.path] == (FileTimes {
                    mtime: pending[k].mtime,
                    ptime: pending[k].ptime,
                })
            } by {
                files_map_at(all, from[k]);
            }
            assert forall|path: Seq<char>| self@.is_pending(path) implies observes(out, path) by {
                let at = position_of(all, path);
                files_map_at(all, at);
            }
            assert forall|a: int, b: int| 0 <= a < b < out.len() implies (#[trigger] out[a]).path
                != (#[trigger] out[b]).path by {
                assert(from[a] < from[b]);
                assert(all[from[a]].path != all[from[b]].path);
            }
        }
        pending
    }
}

/// Filtering one item more keeps what was kept and adds the item if it
/// passes.
pub proof fn filter_take_next<A>(items: Seq<A>, pred: spec_fn(A) -> bool, i: int)
    requires
        0 <= i < items.len(),
    ensures
        items.take(i + 1).filter(pred) == if pred(items[i]) {
            items.take(i).filter(pred).push(items[i])
        } else {
            items.take(i).filter(pred)
        },
{
    assert(items.take(i + 1) == items.take(i).push(items[i]));
    items.take(i).lemma_filter_push(items[i], pred);
}

/// Whether some tag has the id.
fn holds_tag_id(tags: &Vec<TagRecord>, id: i64) -> (found: bool)
    ensures
        found == has_tag_id(views(tags@), id),
{
    let mut i: usize = 0;
    while i < tags.len()
        invariant
            i <= tags.len(),
            forall|j: int| 0 <= j < i ==> (#[trigger] views(tags@)[j]).id != id,
        decreases tags.len() - i,
    {
        if tags[i].id == id {
            assert(views(tags@)[i as int].id == id);
            return true;
        }
        i += 1;
    }
    false
}

/// The tags whose file has a record among `files`.
fn keep_tags_of_known_files(tags: &Vec<TagRecord>, files: &Vec<FileInfo>) -> (kept: Vec<TagRecord>)
    ensures
        views(kept@) == views(tags@).filter(tag_of_known_file(files_map(views(files@)))),
{
    let ghost all = views(tags@);
    let ghost pred = tag_of_known_file(files_map(views(files@)));
    let mut kept: Vec<TagRecord> = Vec::new();
    let mut i: usize = 0;
    assert(all.take(0).filter(pred) == views(kept@)) by {
        reveal(Seq::filter);
    }
    while i < tags.len()
        invariant
            i <= tags.len(),
            all == views(tags@),
            pred == tag_of_known_file(files_map(views(files@))),
            views(kept@) == all.take(i as int).filter(pred),
        decreases tags.len() - i,
    {
        proof {
            filter_take_next(all, pred, i as int);
        }
        if find_file(files, &tags[i].path).is_some() {
            let ghost before = views(kept@);
            kept.push(tags[i].clone());
            assert(views(kept@) == before.push(all[i as int]));
        }
        i += 1;
    }
    assert(all.take(tags.len() as int) == all);
    kept
}

/// The tags that belong to another file than `path`.
fn keep_tags_outside(tags: &Vec<TagRecord>, path: &String) -> (kept: Vec<TagRecord>)
    ensures
        views(kept@) == views(tags@).filter(tag_outside(path@)),
{
    let ghost all = views(tags@);
    let ghost pred = tag_outside(path@);
    let mut kept: Vec<TagRecord> = Vec::new();
    let mut i: usize = 0;
    assert(all.take(0).filter(pred) == views(kept@)) by {
        reveal(Seq::filter);
    }
    while i < tags.len()
        invariant
            i <= tags.len(),
            all == views(tags@),
            pred == tag_outside(path@),
            views(kept@) == all.take(i as int).filter(pred),
        decreases tags.len() - i,
    {
        proof {
            filter_take_next(all, pred, i as int);
        }
        if !(tags[i].path == *path) {
            let ghost before = views(kept@);
            kept.push(tags[i].clone());
            assert(views(kept@) == before.push(all[i as int]));
        }
        i += 1;
    }
    assert(all.take(tags.len() as int) == all);
    kept
}

/// The tags that belong to the file `path`.
fn keep_tags_inside(tags: &Vec<TagRecord>, path: &String) -> (kept: Vec<TagRecord>)
    ensures
        views(kept@) == views(tags@).filter(tag_inside(path@)),
{
    let ghost all = views(tags@);
    let ghost pred = tag_inside(path@);
    let mut kept: Vec<TagRecord> = Vec::new();
    let mut i: usize = 0;
    assert(all.take(0).filter(pred) == views(kept@)) by {
        reveal(Seq::filter);
    }
    while i < tags.len()
        invariant
            i <= tags.len(),
            all == views(tags@),
            pred == tag_inside(path@),
            views(kept@) == all.take(i as int).filter(pred),
        decreases tags.len() - i,
    {
        proof {
            filter_take_next(all, pred, i as int);
        }
        if tags[i].path == *path {
            let ghost before = views(kept@);
            kept.push(tags[i].clone());
            assert(views(kept@) == before.push(all[i as int]));
        }
        i += 1;
    }
    assert(all.take(tags.len() as int) == all);
    kept
}

/// The tags of the file `path` whose span holds the position.
fn keep_tags_covering(tags: &Vec<TagRecord>, path: &String, row: usize, col: usize) -> (kept: Vec<
    TagRecord,
>)
    ensures
        views(kept@) == views(tags@).filter(tag_covering(path@, row, col)),
{
    let ghost all = views(tags@);
    let ghost pred = tag_covering(path@, row, col);
    let mut kept: Vec<TagRecord> = Vec::new();
    let mut i: usize = 0;
    assert(all.take(0).filter(pred) == views(kept@)) by {
        reveal(Seq::filter);
    }
    while i < tags.len()
        invariant
            i <= tags.len(),
            all == views(tags@),
            pred == tag_covering(path@, row, col),
            views(kept@) == all.take(i as int).filter(pred),
        decreases tags.len() - i,
    {
        proof {
            filter_take_next(all, pred, i as int);
        }
        if tags[i].path == *path && tags[i].span.covers(row, col) {
            let ghost before = views(kept@);
            kept.push(tags[i].clone());
            assert(views(kept@) == before.push(all[i as int]));
        }
        i += 1;
    }
    assert(all.take(tags.len() as int) == all);
    kept
}

/// The cross-references that lead from the tag `id`.
fn keep_xrefs_naming(xrefs: &Vec<XrefRecord>, id: i64) -> (kept: Vec<XrefRecord>)
    ensures
        kept@ == xrefs@.filter(xref_naming(id)),
{
    let ghost pred = xref_naming(id);
    let mut kept: Vec<XrefRecord> = Vec::new();
    let mut i: usize = 0;
    assert(xrefs@.take(0).filter(pred) == kept@) by {
        reveal(Seq::filter);
    }
    while i < xrefs.len()
        invariant
            i <= xrefs.len(),
            pred == xref_naming(id),
            kept@ == xrefs@.take(i as int).filter(pred),
        decreases xrefs.len() - i,
    {
        proof {
            filter_take_next(xrefs@, pred, i as int);
        }
        if xrefs[i].name == id {
            kept.push(xrefs[i]);
        }
        i += 1;
    }
    assert(xrefs@.take(xrefs.len() as int) == xrefs@);
    kept
}

/// The cross-references with both ends among `tags`.
fn keep_xrefs_between(xrefs: &Vec<XrefRecord>, tags: &Vec<TagRecord>) -> (kept: Vec<XrefRecord>)
    ensures
        kept@ == xrefs@.filter(xref_between(views(tags@))),
{
    let ghost pred = xref_between(views(tags@));
    let mut kept: Vec<XrefRecord> = Vec::new();
    let mut i: usize = 0;
    assert(xrefs@.take(0).filter(pred) == kept@) by {
        reveal(Seq::filter);
    }
    while i < xrefs.len()
        invariant
            i <= xrefs.len(),
            pred == xref_between(views(tags@)),
            kept@ == xrefs@.take(i as int).filter(pred),
        decreases xrefs.len() - i,
    {
        proof {
            filter_take_next(xrefs@, pred, i as int);
        }
        if holds_tag_id(tags, xrefs[i].name) && holds_tag_id(tags, xrefs[i].hold) {
            kept.push(xrefs[i]);
        }
        i += 1;
    }
    assert(xrefs@.take(xrefs.len() as int) == xrefs@);
    kept
}

/// The cross-references that refer to the tag `id`.
fn keep_xrefs_holding(xrefs: &Vec<XrefRecord>, id: i64) -> (kept: Vec<XrefRecord>)
    ensures
        kept@ == xrefs@.filter(xref_holding(id)),
{
    let ghost pred = xref_holding(id);
    let mut kept: Vec<XrefRecord> = Vec::new();
    let mut i: usize = 0;
    assert(xrefs@.take(0).filter(pred) == kept@) by {
        reveal(Seq::filter);
    }
    while i < xrefs.len()
        invariant
            i <= xrefs.len(),
            pred == xref_holding(id),
            kept@ == xrefs@.take(i as int).filter(pred),
        decreases xrefs.len() - i,
    {
        proof {
            filter_take_next(xrefs@, pred, i as int);
        }
        if xrefs[i].hold == id {
            kept.push(xrefs[i]);
        }
        i += 1;
    }
    assert(xrefs@.take(xrefs.len() as int) == xrefs@);
    kept
}

impl IndexStore {
    /// Aligns the index with a full scan of the workspace: records of files
    /// the scan did not see go, with their tags and the cross-references that
    /// lose an end; every file the scan saw gets the modification time the
    /// scan reports, and a record with analysis time zero if it had none.
    pub fn reconcile(&mut self, observed: &Vec<FileInfo>)
        requires
            old(self).wf(),
        ensures
            final(self).wf(),
            final(self)@ == old(self)@.reconcile(views(observed@)),
    {
        let ghost seen = views(observed@);
        let ghost before = self@.files;
        let mut files: Vec<FileInfo> = Vec::new();
        assert(files_map(views(files@)) =~= reconcile_files(before, seen.take(0)));
        let mut i: usize = 0;
        while i < observed.len()
            invariant
                i <= observed.len(),
                seen == views(observed@),
                before == self@.files,
                self.wf(),
                unique_paths(views(files@)),
                files_map(views(files@)) == reconcile_files(before, seen.take(i as int)),
            decreases observed.len() - i,
        {
            let entry = &observed[i];
            let ghost had = views(files@);
            proof {
                assert(seen.take(i + 1) == seen.take(i as int).push(seen[i as int]));
                reconcile_files_push(before, seen.take(i as int), seen[i as int]);
            }
            match find_file(&files, &entry.path) {
                Some(j) => {
                    let ptime = files[j].ptime;
                    proof {
                        files_map_at(had, j as int);
                    }
                    let changed = FileInfo { path: entry.path.clone(), mtime: entry.mtime, ptime };
                    proof {
                        files_map_update(had, j as int, changed@);
                    }
                    files.set(j, changed);
                    assert(views(files@) == had.update(j as int, changed@));
                },
                None => {
                    let ptime = match find_file(&self.files, &entry.path) {
                        Some(k) => {
                            proof {
                                files_map_at(views(self.files@), k as int);
                            }
                            self.files[k].ptime
                        },
                        None => 0,
                    };
                    let added = FileInfo { path: entry.path.clone(), mtime: entry.mtime, ptime };
                    proof {
                        files_map_push(had, added@);
                    }
                    files.push(added);
                    assert(views(files@) == had.push(added@));
                },
            }
            i += 1;
        }
        assert(seen.take(observed.len() as int) == seen);
        let tags = keep_tags_of_known_files(&self.tags, &files);
        let xrefs = keep_xrefs_between(&self.xrefs, &tags);
        proof {
            reconcile_keeps_wf(self@, seen);
        }
        self.files = files;
        self.tags = tags;
        self.xrefs = xrefs;
    }

    /// The paths that have a file record and that the scan did not see.
    pub fn unobserved(&self, observed: &Vec<FileInfo>) -> (gone: Vec<String>)
        requires
            self.wf(),
        ensures
            forall|k: int|
                0 <= k < gone.len() ==> {
                    &&& self@.files.contains_key((#[trigger] gone[k])@)
                    &&& !observes(views(observed@), gone[k]@)
                },
            forall|path: Seq<char>|
                self@.files.contains_key(path) && !observes(views(observed@), path)
                    ==> exists|k: int| 0 <= k < gone.len() && (#[trigger] gone[k])@ == path,
    {
        let ghost all = views(self.files@);
        let mut gone: Vec<String> = Vec::new();
        let mut i: usize = 0;
        while i < self.files.len()
            invariant
                i <= self.files.len(),
                all == views(self.files@),
                forall|k: int|
                    0 <= k < gone.len() ==> {
                        &&& observes(all, (#[trigger] gone[k])@)
                        &&& !observes(views(observed@), gone[k]@)
                    },
                forall|j: int|
                    0 <= j < i && !observes(views(observed@), (#[trigger] all[j]).path)
                        ==> exists|k: int| 0 <= k < gone.len() && (#[trigger] gone[k])@ == all[j].path,
            decreases self.files.len() - i,
        {
            if find_file(observed, &self.files[i].path).is_none() {
                let ghost before = gone@;
                gone.push(self.files[i].path.clone());
                proof {
                    assert(all[i as int].path == gone[gone.len() - 1]@);
                    assert forall|k: int| 0 <= k < gone.len() implies {
                        &&& observes(all, (#[trigger] gone[k])@)
                        &&& !observes(views(observed@), gone[k]@)
                    } by {
                        if k < before.len() {
                            assert(gone[k] == before[k]);
                        }
                    }
                    assert forall|j: int|
                        0 <= j < i + 1 && !observes(
                            views(observed@),
                            (#[trigger] all[j]).path,
                        ) implies exists|k: int|
                        0 <= k < gone.len() && (#[trigger] gone[k])@ == all[j].path by {
                        if j < i {
                            let at = choose|k: int|
                                0 <= k < before.len() && (#[trigger] before[k])@ == all[j].path;
                            assert(gone[at]@ == all[j].path);
                        } else {
                            assert(gone[gone.len() - 1]@ == all[j].path);
                        }
                    }
                }
            }
            i += 1;
        }
        proof {
            assert forall|path: Seq<char>|
                self@.files.contains_key(path) && !observes(
                    views(observed@),
                    path,
                ) implies exists|k: int| 0 <= k < gone.len() && (#[trigger] gone[k])@ == path by {
                let at = position_of(all, path);
                assert(all[at].path == path);
            }
        }
        gone
    }

    /// The tags of a file, in the order of their ids.
    pub fn tags_for_file(&self, path: &String) -> (tags: Vec<TagRecord>)
        ensures
            views(tags@) == self@.tags.filter(tag_inside(path@)),
    {
        keep_tags_inside(&self.tags, path)
    }

    /// The tags of a file at a position: those whose span holds it, in the
    /// order of their ids.
    pub fn tags_at(&self, path: &String, row: usize, col: usize) -> (tags: Vec<TagRecord>)
        ensures
            views(tags@) == self@.tags.filter(tag_covering(path@, row, col)),
    {
        keep_tags_covering(&self.tags, path, row, col)
    }

    /// The cross-references that refer to a tag.
    pub fn xrefs_holding(&self, id: i64) -> (xrefs: Vec<XrefRecord>)
        ensures
            xrefs@ == self@.xrefs.filter(xref_holding(id)),
    {
        keep_xrefs_holding(&self.xrefs, id)
    }

    /// The cross-references that lead from a tag to what it refers to.
    pub fn xrefs_naming(&self, id: i64) -> (xrefs: Vec<XrefRecord>)
        ensures
            xrefs@ == self@.xrefs.filter(xref_naming(id)),
    {
        keep_xrefs_naming(&self.xrefs, id)
    }

    /// The record of a file, if the index has one.
    pub fn file(&self, path: &String) -> (found: Option<FileInfo>)
        requires
            self.wf(),
        ensures
            found is Some <==> self@.files.contains_key(path@),
            found matches Some(file) ==> file@.path == path@ && self@.files[path@] == (FileTimes {
                mtime: file.mtime,
                ptime: file.ptime,
            }),
    {
        match find_file(&self.files, path) {
            Some(i) => {
                proof {
                    files_map_at(views(self.files@), i as int);
                }
                Some(self.files[i].clone())
            },
            None => None,
        }
    }

    /// The id that the next new tag gets.
    pub fn next_id(&self) -> (id: i64)
        ensures
            id == self@.next_id,
    {
        self.next_id
    }

    /// Says whether a report for `path` can be stored, and the reason if not.
    pub fn check_report(&self, path: &String, tags: &Vec<NewTag>, xrefs: &Vec<NewXref>) -> (verdict:
        Result<(), Error>)
        requires
            self.wf(),
        ensures
            verdict == self@.verdict(path@, views(tags@), xrefs@),
            verdict is Ok <==> self@.accepts(path@, views(tags@), xrefs@),
    {
        if find_file(&self.files, path).is_none() {
            return Err(Error::UnknownFile);
        }
        let mut k: usize = 0;
        while k < xrefs.len()
            invariant
                k <= xrefs.len(),
                self@.files.contains_key(path@),
                xrefs_in_range(xrefs@.take(k as int), tags.len() as nat),
            decreases xrefs.len() - k,
        {
            if xrefs[k].name >= tags.len() || xrefs[k].hold >= tags.len() {
                assert(!xrefs_in_range(xrefs@, views(tags@).len()));
                return Err(Error::DanglingXref);
            }
            assert forall|m: int| 0 <= m < k + 1 implies (#[trigger] xrefs@.take(k + 1)[m]).name
                < tags.len() && xrefs@.take(k + 1)[m].hold < tags.len() by {
                if m < k {
                    assert(xrefs@.take(k as int)[m].name < tags.len());
                }
            }
            k += 1;
        }
        assert(xrefs@.take(xrefs.len() as int) == xrefs@);
        if tags.len() as u64 > (i64::MAX - self.next_id) as u64 {
            return Err(Error::TagIdsExhausted);
        }
        Ok(())
    }

    /// Replaces the tags of a file by a report, all or nothing: the file's
    /// former tags and the cross-references that touched one go, the
    /// reported tags get fresh ids in the order of the report, the reported
    /// cross-references are stored between them, and the file counts as
    /// analyzed at `now`. A refused report changes nothing.
    pub fn replace_tags_for_file(
        &mut self,
        path: &String,
        tags: &Vec<NewTag>,
        xrefs: &Vec<NewXref>,
        now: i64,
    ) -> (done: Result<(), Error>)
        requires
            old(self).wf(),
        ensures
            final(self).wf(),
            done == old(self)@.verdict(path@, views(tags@), xrefs@),
            done is Ok <==> old(self)@.accepts(path@, views(tags@), xrefs@),
            done is Ok ==> final(self)@ == old(self)@.replace(path@, views(tags@), xrefs@, now),
            done is Err ==> final(self)@ == old(self)@,
    {
        match self.check_report(path, tags, xrefs) {
            Err(e) => {
                return Err(e);
            },
            Ok(()) => {},
        }
        let ghost before = self@;
        let ghost report = views(tags@);
        let ghost goal = before.replace(path@, report, xrefs@, now);
        let first = self.next_id;

        let mut all_tags = keep_tags_outside(&self.tags, path);
        let mut all_xrefs = keep_xrefs_between(&self.xrefs, &all_tags);
        let ghost kept = views(all_tags@);
        let ghost kept_xrefs = all_xrefs@;

        let mut i: usize = 0;
        while i < tags.len()
            invariant
                i <= tags.len(),
                report == views(tags@),
                first == before.next_id,
                1 <= first,
                first + tags.len() <= i64::MAX,
                views(all_tags@) == kept + before.new_tags(path@, report).take(i as int),
            decreases tags.len() - i,
        {
            let ghost had = views(all_tags@);
            let tag = TagRecord {
                id: first + (i as i64),
                kind: tags[i].kind,
                span: tags[i].span,
                path: path.clone(),
                name: tags[i].name.clone(),
            };
            assert(tag@ == before.new_tags(path@, report)[i as int]);
            all_tags.push(tag);
            assert(views(all_tags@) == had.push(before.new_tags(path@, report)[i as int]));
            assert(before.new_tags(path@, report).take(i + 1) == before.new_tags(
                path@,
                report,
            ).take(i as int).push(before.new_tags(path@, report)[i as int]));
            i += 1;
        }
        assert(before.new_tags(path@, report).take(tags.len() as int) == before.new_tags(
            path@,
            report,
        ));

        let mut k: usize = 0;
        while k < xrefs.len()
            invariant
                k <= xrefs.len(),
                first == before.next_id,
                1 <= first,
                first + tags.len() <= i64::MAX,
                xrefs_in_range(xrefs@, tags.len() as nat),
                all_xrefs@ == kept_xrefs + before.new_xrefs(xrefs@).take(k as int),
            decreases xrefs.len() - k,
        {
            let ghost had = all_xrefs@;
            let edge = XrefRecord {
                name: first + (xrefs[k].name as i64),
                hold: first + (xrefs[k].hold as i64),
            };
            assert(edge == before.new_xrefs(xrefs@)[k as int]);
            all_xrefs.push(edge);
            assert(before.new_xrefs(xrefs@).take(k + 1) == before.new_xrefs(xrefs@).take(
                k as int,
            ).push(before.new_xrefs(xrefs@)[k as int]));
            k += 1;
        }
        assert(before.new_xrefs(xrefs@).take(xrefs.len() as int) == before.new_xrefs(xrefs@));

        let at = find_file(&self.files, path);
        let ghost had_files = views(self.files@);
        match at {
            Some(j) => {
                let analyzed = FileInfo { path: path.clone(), mtime: self.files[j].mtime, ptime: now };
                proof {
                    files_map_at(had_files, j as int);
                    files_map_update(had_files, j as int, analyzed@);
                    replace_keeps_wf(before, path@, report, xrefs@, now);
                }
                self.files.set(j, analyzed);
                assert(views(self.files@) == had_files.update(j as int, analyzed@));
            },
            None => {
                assert(false);
            },
        }
        self.tags = all_tags;
        self.xrefs = all_xrefs;
        self.next_id = first + (tags.len() as i64);
        assert(self@ == goal);
        Ok(())
    }
}

/// The index that rows read from a database stand for.
pub open spec fn rows_index(
    files: Seq<FileView>,
    tags: Seq<TagView>,
    xrefs: Seq<XrefRecord>,
    next_id: i64,
) -> IndexView {
    IndexView { files: files_map(files), tags, xrefs, next_id }
}

/// Rows read from a database form a consistent index: no path has two file
/// records, and the index they stand for is consistent.
pub open spec fn rows_consistent(
    files: Seq<FileView>,
    tags: Seq<TagView>,
    xrefs: Seq<XrefRecord>,
    next_id: i64,
) -> bool {
    unique_paths(files) && rows_index(files, tags, xrefs, next_id).wf()
}

/// Whether an earlier record has the path of record `i`.
fn has_earlier_twin(files: &Vec<FileInfo>, i: usize) -> (twin: bool)
    requires
        i < files.len(),
    ensures
        twin == exists|j: int| 0 <= j < i && (#[trigger] views(files@)[j]).path == files[i as int]@.path,
{
    let mut j: usize = 0;
    while j < i
        invariant
            j <= i < files.len(),
            forall|m: int| 0 <= m < j ==> (#[trigger] views(files@)[m]).path != files[i as int]@.path,
        decreases i - j,
    {
        if files[j].path == files[i].path {
            assert(views(files@)[j as int].path == files[i as int]@.path);
            return true;
        }
        j += 1;
    }
    false
}

impl IndexStore {
    /// Builds the store from the rows of a database, if they form a
    /// consistent index: tags in the order of their ids, `next_id` above all
    /// of them.
    pub fn from_rows(
        files: Vec<FileInfo>,
        tags: Vec<TagRecord>,
        xrefs: Vec<XrefRecord>,
        next_id: i64,
    ) -> (loaded: Result<IndexStore, Error>)
        ensures
            loaded is Ok <==> rows_consistent(views(files@), views(tags@), xrefs@, next_id),
            loaded matches Ok(store) ==> store.wf() && store@ == rows_index(
                views(files@),
                views(tags@),
                xrefs@,
                next_id,
            ),
            loaded matches Err(e) ==> e == Error::CorruptStore,
    {
        let ghost rows = views(files@);
        let ghost goal = rows_index(rows, views(tags@), xrefs@, next_id);
        if next_id < 1 {
            return Err(Error::CorruptStore);
        }
        let mut i: usize = 0;
        while i < files.len()
            invariant
                i <= files.len(),
                rows == views(files@),
                forall|a: int, b: int|
                    0 <= a < b < i ==> (#[trigger] rows[a]).path != (#[trigger] rows[b]).path,
            decreases files.len() - i,
        {
            if has_earlier_twin(&files, i) {
                proof {
                    let j = choose|j: int| 0 <= j < i && (#[trigger] rows[j]).path == rows[i as int].path;
                    assert(rows[j].path == rows[i as int].path);
                }
                return Err(Error::CorruptStore);
            }
            i += 1;
        }
        let mut t: usize = 0;
        while t < tags.len()
            invariant
                t <= tags.len(),
                rows == views(files@),
                goal == rows_index(rows, views(tags@), xrefs@, next_id),
                forall|a: int|
                    0 <= a < t ==> {
                        &&& goal.files.contains_key((#[trigger] goal.tags[a]).path)
                        &&& 1 <= goal.tags[a].id < next_id
                    },
                forall|a: int, b: int|
                    0 <= a < b < t ==> (#[trigger] goal.tags[a]).id < (#[trigger] goal.tags[b]).id,
            decreases tags.len() - t,
        {
            let known = find_file(&files, &tags[t].path).is_some();
            let in_range = 1 <= tags[t].id && tags[t].id < next_id;
            let ordered = t == 0 || tags[t - 1].id < tags[t].id;
            if !known || !in_range || !ordered {
                proof {
                    assert(goal.tags[t as int] == tags[t as int]@);
                    if !ordered {
                        assert(goal.tags[t - 1].id >= goal.tags[t as int].id);
                    }
                }
                return Err(Error::CorruptStore);
            }
            assert forall|a: int, b: int| 0 <= a < b < t + 1 implies (#[trigger] goal.tags[a]).id < (
            #[trigger] goal.tags[b]).id by {
                if b == t && a < t - 1 {
                    assert(goal.tags[a].id < goal.tags[t - 1].id);
                }
            }
            t += 1;
        }
        let mut k: usize = 0;
        while k < xrefs.len()
            invariant
                k <= xrefs.len(),
                rows == views(files@),
                goal == rows_index(rows, views(tags@), xrefs@, next_id),
                forall|a: int|
                    0 <= a < k ==> {
                        &&& has_tag_id(goal.tags, (#[trigger] goal.xrefs[a]).name)
                        &&& has_tag_id(goal.tags, goal.xrefs[a].hold)
                    },
            decreases xrefs.len() - k,
        {
            let named = holds_tag_id(&tags, xrefs[k].name);
            let held = holds_tag_id(&tags, xrefs[k].hold);
            if !named || !held {
                assert(goal.xrefs[k as int] == xrefs[k as int]);
                return Err(Error::CorruptStore);
            }
            k += 1;
        }
        Ok(IndexStore { files, tags, xrefs, next_id })
    }
}

} // verus!
