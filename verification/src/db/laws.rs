//! What holds of the operations of the index, whatever the index and the
//! inputs are.

use vstd::prelude::*;
use crate::db::index::{
    has_tag_id, observed_mtime, observes, tag_inside, tag_of_known_file, tag_outside,
    xref_between, IndexView,
};
use crate::db::record::{FileView, NewTagView, NewXref, TagView};

verus! {

/// Tag ids increase along the sequence.
pub open spec fn ids_increase(tags: Seq<TagView>) -> bool {
    forall|i: int, j: int|
        0 <= i < j < tags.len() ==> (#[trigger] tags[i]).id < (#[trigger] tags[j]).id
}

/// A filter that every item passes changes nothing.
pub proof fn filter_keeps_all<A>(items: Seq<A>, pred: spec_fn(A) -> bool)
    requires
        forall|i: int| 0 <= i < items.len() ==> pred(#[trigger] items[i]),
    ensures
        items.filter(pred) == items,
    decreases items.len(),
{
    reveal(Seq::filter);
    if items.len() > 0 {
        filter_keeps_all(items.drop_last(), pred);
        assert(items.drop_last().push(items.last()) == items);
    }
}

/// What a filter keeps, it keeps in order: the kept items are items of the
/// sequence, and ids that increased still do.
pub proof fn filter_keeps_order(tags: Seq<TagView>, pred: spec_fn(TagView) -> bool)
    requires
        ids_increase(tags),
    ensures
        ids_increase(tags.filter(pred)),
        forall|i: int|
            0 <= i < tags.filter(pred).len() ==> tags.contains(#[trigger] tags.filter(pred)[i]),
    decreases tags.len(),
{
    reveal(Seq::filter);
    let kept = tags.filter(pred);
    if tags.len() > 0 {
        let front = tags.drop_last();
        filter_keeps_order(front, pred);
        let kept_front = front.filter(pred);
        assert forall|i: int| 0 <= i < kept.len() implies tags.contains(#[trigger] kept[i]) by {
            if i < kept_front.len() {
                let at = choose|at: int| 0 <= at < front.len() && front[at] == kept_front[i];
                assert(tags[at] == kept[i]);
            } else {
                assert(tags[tags.len() - 1] == kept[i]);
            }
        }
        assert forall|i: int, j: int| 0 <= i < j < kept.len() implies (#[trigger] kept[i]).id < (
        #[trigger] kept[j]).id by {
            if j < kept_front.len() {
                assert(kept_front[i].id < kept_front[j].id);
            } else {
                let at = choose|at: int| 0 <= at < front.len() && front[at] == kept_front[i];
                assert(tags[at].id < tags[tags.len() - 1].id);
            }
        }
    }
}

/// A tag id found among some tags is found among those tags followed by
/// others.
pub proof fn has_tag_id_in_front(front: Seq<TagView>, back: Seq<TagView>, id: i64)
    requires
        has_tag_id(front, id),
    ensures
        has_tag_id(front + back, id),
{
    let at = choose|at: int| 0 <= at < front.len() && (#[trigger] front[at]).id == id;
    assert((front + back)[at].id == id);
}

/// A consistent index is consistent after a scan.
pub proof fn reconcile_keeps_wf(index: IndexView, observed: Seq<FileView>)
    requires
        index.wf(),
    ensures
        index.reconcile(observed).wf(),
{
    let after = index.reconcile(observed);
    let known = tag_of_known_file(after.files);
    filter_keeps_order(index.tags, known);
    assert forall|i: int| 0 <= i < after.tags.len() implies {
        &&& after.files.contains_key((#[trigger] after.tags[i]).path)
        &&& 1 <= after.tags[i].id < after.next_id
    } by {
        index.tags.lemma_filter_pred(known, i);
        let at = choose|at: int| 0 <= at < index.tags.len() && index.tags[at] == after.tags[i];
        assert(1 <= index.tags[at].id < index.next_id);
    }
    assert forall|k: int| 0 <= k < after.xrefs.len() implies {
        &&& has_tag_id(after.tags, (#[trigger] after.xrefs[k]).name)
        &&& has_tag_id(after.tags, after.xrefs[k].hold)
    } by {
        index.xrefs.lemma_filter_pred(xref_between(after.tags), k);
    }
}

/// A consistent index is consistent after an accepted report was stored.
pub proof fn replace_keeps_wf(
    index: IndexView,
    path: Seq<char>,
    tags: Seq<NewTagView>,
    xrefs: Seq<NewXref>,
    now: i64,
)
    requires
        index.wf(),
        index.accepts(path, tags, xrefs),
    ensures
        index.replace(path, tags, xrefs, now).wf(),
{
    let after = index.replace(path, tags, xrefs, now);
    let kept = index.tags.filter(tag_outside(path));
    let fresh = index.new_tags(path, tags);
    filter_keeps_order(index.tags, tag_outside(path));
    assert forall|i: int| 0 <= i < after.tags.len() implies {
        &&& after.files.contains_key((#[trigger] after.tags[i]).path)
        &&& 1 <= after.tags[i].id < after.next_id
        &&& (i < kept.len() ==> after.tags[i].id < index.next_id)
        &&& (i >= kept.len() ==> after.tags[i].id == index.next_id + (i - kept.len()))
    } by {
        if i < kept.len() {
            let at = choose|at: int| 0 <= at < index.tags.len() && index.tags[at] == kept[i];
            assert(1 <= index.tags[at].id < index.next_id);
            assert(index.files.contains_key(index.tags[at].path));
        } else {
            assert(after.tags[i] == fresh[i - kept.len()]);
        }
    }
    assert forall|i: int, j: int| 0 <= i < j < after.tags.len() implies (
    #[trigger] after.tags[i]).id < (#[trigger] after.tags[j]).id by {
        if j < kept.len() {
            assert(kept[i].id < kept[j].id);
        }
    }
    let kept_xrefs = index.xrefs.filter(xref_between(kept));
    assert forall|k: int| 0 <= k < after.xrefs.len() implies {
        &&& has_tag_id(after.tags, (#[trigger] after.xrefs[k]).name)
        &&& has_tag_id(after.tags, after.xrefs[k].hold)
    } by {
        if k < kept_xrefs.len() {
            index.xrefs.lemma_filter_pred(xref_between(kept), k);
            has_tag_id_in_front(kept, fresh, kept_xrefs[k].name);
            has_tag_id_in_front(kept, fresh, kept_xrefs[k].hold);
        } else {
            let x = xrefs[k - kept_xrefs.len()];
            assert(after.xrefs[k] == index.new_xrefs(xrefs)[k - kept_xrefs.len()]);
            assert(after.tags[kept.len() + x.name].id == after.xrefs[k].name);
            assert(after.tags[kept.len() + x.hold].id == after.xrefs[k].hold);
        }
    }
}

/// A second scan that sees what the first saw changes nothing: reconciling
/// twice with the same observations gives the index that reconciling once
/// gives.
pub proof fn reconcile_is_idempotent(index: IndexView, observed: Seq<FileView>)
    ensures
        index.reconcile(observed).reconcile(observed) == index.reconcile(observed),
{
    let once = index.reconcile(observed);
    let twice = once.reconcile(observed);
    assert(twice.files =~= once.files);
    assert(twice.tags == once.tags) by {
        let known = tag_of_known_file(once.files);
        assert forall|i: int| 0 <= i < once.tags.len() implies known(#[trigger] once.tags[i]) by {
            index.tags.lemma_filter_pred(known, i);
        }
        filter_keeps_all(once.tags, known);
    }
    assert(twice.xrefs == once.xrefs) by {
        let between = xref_between(once.tags);
        assert forall|k: int| 0 <= k < once.xrefs.len() implies between(
            #[trigger] once.xrefs[k],
        ) by {
            index.xrefs.lemma_filter_pred(between, k);
        }
        filter_keeps_all(once.xrefs, between);
    }
}

/// When a scan no longer sees a path, the file's record goes, every tag of
/// the file goes with it, and no cross-reference is left with an end that is
/// not a stored tag.
pub proof fn reconcile_cascades(index: IndexView, observed: Seq<FileView>, path: Seq<char>)
    requires
        !observes(observed, path),
    ensures
        !index.reconcile(observed).files.contains_key(path),
        forall|i: int|
            0 <= i < index.reconcile(observed).tags.len() ==> (
            #[trigger] index.reconcile(observed).tags[i]).path != path,
        forall|k: int|
            0 <= k < index.reconcile(observed).xrefs.len() ==> {
                &&& has_tag_id(
                    index.reconcile(observed).tags,
                    (#[trigger] index.reconcile(observed).xrefs[k]).name,
                )
                &&& has_tag_id(
                    index.reconcile(observed).tags,
                    index.reconcile(observed).xrefs[k].hold,
                )
            },
{
    let after = index.reconcile(observed);
    assert forall|i: int| 0 <= i < after.tags.len() implies (#[trigger] after.tags[i]).path
        != path by {
        index.tags.lemma_filter_pred(tag_of_known_file(after.files), i);
    }
    assert forall|k: int| 0 <= k < after.xrefs.len() implies {
        &&& has_tag_id(after.tags, (#[trigger] after.xrefs[k]).name)
        &&& has_tag_id(after.tags, after.xrefs[k].hold)
    } by {
        index.xrefs.lemma_filter_pred(xref_between(after.tags), k);
    }
}

/// A file whose tags were replaced at a time not before its modification
/// time is analyzed as of that modification time, and is not pending.
pub proof fn replaced_file_is_fresh(
    index: IndexView,
    path: Seq<char>,
    tags: Seq<NewTagView>,
    xrefs: Seq<NewXref>,
    now: i64,
)
    requires
        index.accepts(path, tags, xrefs),
        index.files[path].mtime <= now,
    ensures
        index.replace(path, tags, xrefs, now).files[path].ptime >= index.files[path].mtime,
        !index.replace(path, tags, xrefs, now).is_pending(path),
{
}

/// A file that is not pending becomes pending through a scan only if the
/// scan reports a later modification time than the index had.
pub proof fn fresh_until_modified(index: IndexView, observed: Seq<FileView>, path: Seq<char>)
    requires
        index.files.contains_key(path),
        !index.is_pending(path),
    ensures
        index.reconcile(observed).is_pending(path) ==> observes(observed, path) && observed_mtime(
            observed,
            path,
        ) > index.files[path].mtime,
{
}

/// Filtering by a condition what was filtered by a weaker one is filtering
/// by the condition.
pub proof fn filter_of_filter<A>(items: Seq<A>, weak: spec_fn(A) -> bool, strong: spec_fn(A) -> bool)
    requires
        forall|a: A| #[trigger] strong(a) ==> weak(a),
    ensures
        items.filter(weak).filter(strong) == items.filter(strong),
    decreases items.len(),
{
    reveal(Seq::filter);
    if items.len() > 0 {
        let front = items.drop_last();
        let last = items.last();
        filter_of_filter(front, weak, strong);
        if weak(last) {
            front.filter(weak).lemma_filter_push(last, strong);
        }
    }
}

/// Replacing the tags of one file leaves every other file as it was: its
/// record and its tags.
pub proof fn replace_leaves_other_files(
    index: IndexView,
    path: Seq<char>,
    tags: Seq<NewTagView>,
    xrefs: Seq<NewXref>,
    now: i64,
    other: Seq<char>,
)
    requires
        other != path,
    ensures
        index.replace(path, tags, xrefs, now).files.contains_key(other)
            == index.files.contains_key(other),
        index.replace(path, tags, xrefs, now).files[other] == index.files[other],
        index.replace(path, tags, xrefs, now).tags.filter(tag_inside(other)) == index.tags.filter(
            tag_inside(other),
        ),
{
    let kept = index.tags.filter(tag_outside(path));
    let fresh = index.new_tags(path, tags);
    let inside = tag_inside(other);
    Seq::filter_distributes_over_add(kept, fresh, inside);
    assert(fresh.filter(inside) == Seq::<TagView>::empty()) by {
        assert forall|i: int| 0 <= i < fresh.len() implies !inside(#[trigger] fresh[i]) by {}
        fresh.lemma_all_neg_filter_empty(inside);
    }
    assert(kept.filter(inside) == index.tags.filter(inside)) by {
        assert forall|t: TagView| #[trigger] inside(t) implies tag_outside(path)(t) by {}
        filter_of_filter(index.tags, tag_outside(path), inside);
    }
    assert(kept.filter(inside) + Seq::<TagView>::empty() == kept.filter(inside));
}

} // verus!
