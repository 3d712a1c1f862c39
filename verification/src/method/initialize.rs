//! The indexing pass that runs when a workspace is opened.

use vstd::prelude::*;
use crate::db::index::{observes, FileTimes};
use crate::db::record::{views, FileInfo, FileView};
use crate::db::sqlite::SqliteClient;
use crate::db::store::unique_paths;
use crate::syntax::{analyzer_of, supported, SyntaxParser};
use crate::Error;

verus! {

/// What a filter keeps of files with distinct paths has distinct paths, and
/// every kept file is one of them.
pub proof fn filter_keeps_unique_paths(files: Seq<FileView>, pred: spec_fn(FileView) -> bool)
    requires
        unique_paths(files),
    ensures
        unique_paths(files.filter(pred)),
        forall|i: int|
            0 <= i < files.filter(pred).len() ==> files.contains(#[trigger] files.filter(pred)[i]),
    decreases files.len(),
{
    reveal(Seq::filter);
    let kept = files.filter(pred);
    if files.len() > 0 {
        let front = files.drop_last();
        assert forall|i: int, j: int| 0 <= i < j < front.len() implies (#[trigger] front[i]).path != (
        #[trigger] front[j]).path by {
            assert(files[i].path != files[j].path);
        }
        filter_keeps_unique_paths(front, pred);
        let kept_front = front.filter(pred);
        assert forall|i: int| 0 <= i < kept.len() implies files.contains(#[trigger] kept[i]) by {
            if i < kept_front.len() {
                let at = choose|at: int| 0 <= at < front.len() && front[at] == kept_front[i];
                assert(files[at] == kept[i]);
            } else {
                assert(files[files.len() - 1] == kept[i]);
            }
        }
        assert forall|i: int, j: int| 0 <= i < j < kept.len() implies (#[trigger] kept[i]).path != (
        #[trigger] kept[j]).path by {
            if j < kept_front.len() {
                assert(kept_front[i].path != kept_front[j].path);
            } else {
                let at = choose|at: int| 0 <= at < front.len() && front[at] == kept_front[i];
                assert(files[at].path != files[files.len() - 1].path);
            }
        }
    }
}

/// The first steps of an indexing pass, from a full scan of the workspace to
/// the files to analyze: the index is reconciled with the scan, and of the
/// files that are then pending those are selected that an analyzer takes.
///
/// A pending file that no analyzer takes is not selected: it stays pending
/// and is never analyzed. If the store fails, the index is as before.
pub fn select_for_analysis(
    db: &mut SqliteClient,
    parser: &SyntaxParser,
    observed: &Vec<FileInfo>,
) -> (selected: Result<Vec<FileInfo>, Error>)
    requires
        old(db).wf(),
    ensures
        final(db).wf(),
        selected is Ok ==> final(db)@ == old(db)@.reconcile(views(observed@)),
        selected matches Err(e) ==> e == Error::Storage && final(db)@ == old(db)@,
        selected matches Ok(files) ==> {
            &&& forall|k: int|
                0 <= k < files.len() ==> {
                    &&& final(db)@.is_pending((#[trigger] files[k])@.path)
                    &&& analyzer_of(parser@, files[k]@.path) is Some
                    &&& final(db)@.files[files[k]@.path] == (FileTimes {
                        mtime: files[k].mtime,
                        ptime: files[k].ptime,
                    })
                }
            &&& forall|path: Seq<char>|
                final(db)@.is_pending(path) && analyzer_of(parser@, path) is Some ==> observes(
                    views(files@),
                    path,
                )
            &&& unique_paths(views(files@))
        },
{
    match db.startup_scan(observed) {
        Ok(()) => {},
        Err(e) => {
            return Err(e);
        },
    }
    let pending = db.pending_analysis();
    let files = parser.filter_file_suffix(&pending);
    proof {
        let all = views(pending@);
        let kept = views(files@);
        let pred = supported(parser@);
        filter_keeps_unique_paths(all, pred);
        assert forall|k: int| 0 <= k < files.len() implies {
            &&& db@.is_pending((#[trigger] files[k])@.path)
            &&& analyzer_of(parser@, files[k]@.path) is Some
            &&& db@.files[files[k]@.path] == (FileTimes {
                mtime: files[k].mtime,
                ptime: files[k].ptime,
            })
        } by {
            all.lemma_filter_pred(pred, k);
            assert(kept[k] == files[k]@);
            let at = choose|at: int| 0 <= at < all.len() && all[at] == kept[k];
            assert(all[at] == pending[at]@);
        }
        assert forall|path: Seq<char>|
            db@.is_pending(path) && analyzer_of(parser@, path) is Some implies observes(
            kept,
            path,
        ) by {
            let at = choose|at: int| 0 <= at < all.len() && (#[trigger] all[at]).path == path;
            all.lemma_filter_contains(pred, at);
            let k = choose|k: int| 0 <= k < kept.len() && kept[k] == all[at];
            assert(kept[k].path == path);
        }
    }
    Ok(files)
}

} // verus!
