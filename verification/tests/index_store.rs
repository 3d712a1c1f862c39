use syntax_forest::db::{FileInfo, IndexStore, NewTag, NewXref, Span, TagRecord, XrefRecord};
use syntax_forest::Error;

fn file(path: &str, mtime: i64) -> FileInfo {
    FileInfo { path: path.to_string(), mtime, ptime: 0 }
}

fn tag(kind: u16, name: &str, row: usize) -> NewTag {
    NewTag {
        kind,
        span: Span { beg_row: row, beg_col: 0, end_row: row, end_col: name.len() },
        name: name.to_string(),
    }
}

fn paths(files: &Vec<FileInfo>) -> Vec<String> {
    let mut out: Vec<String> = files.iter().map(|f| f.path.clone()).collect();
    out.sort();
    out
}

fn snapshot(store: &IndexStore, names: &[&str]) -> Vec<(String, Option<(i64, i64)>, Vec<(i64, String)>)> {
    names
        .iter()
        .map(|n| {
            let path = n.to_string();
            let times = store.file(&path).map(|f| (f.mtime, f.ptime));
            let tags = store.tags_for_file(&path).iter().map(|t| (t.id, t.name.clone())).collect();
            (path, times, tags)
        })
        .collect()
}

#[test]
fn new_store_is_empty() {
    let store = IndexStore::new();
    assert!(store.pending_analysis().is_empty());
    assert_eq!(store.next_id(), 1);
    assert!(store.file(&"a.c".to_string()).is_none());
    assert!(store.tags_for_file(&"a.c".to_string()).is_empty());
}

#[test]
fn reconcile_inserts_new_files_with_ptime_zero() {
    let mut store = IndexStore::new();
    store.reconcile(&vec![file("a.c", 10), file("b.txt", 20)]);
    let a = store.file(&"a.c".to_string()).unwrap();
    assert_eq!((a.mtime, a.ptime), (10, 0));
    let b = store.file(&"b.txt".to_string()).unwrap();
    assert_eq!((b.mtime, b.ptime), (20, 0));
    assert_eq!(paths(&store.pending_analysis()), vec!["a.c".to_string(), "b.txt".to_string()]);
}

#[test]
fn reconcile_ignores_the_ptime_of_the_observation() {
    let mut store = IndexStore::new();
    store.reconcile(&vec![FileInfo { path: "a.c".to_string(), mtime: 10, ptime: 99 }]);
    let a = store.file(&"a.c".to_string()).unwrap();
    assert_eq!((a.mtime, a.ptime), (10, 0));
}

#[test]
fn reconcile_updates_mtime_and_keeps_ptime() {
    let mut store = IndexStore::new();
    store.reconcile(&vec![file("a.c", 10)]);
    store.replace_tags_for_file(&"a.c".to_string(), &vec![], &vec![], 15).unwrap();
    store.reconcile(&vec![file("a.c", 30)]);
    let a = store.file(&"a.c".to_string()).unwrap();
    assert_eq!((a.mtime, a.ptime), (30, 15));
}

#[test]
fn reconcile_takes_the_last_mtime_of_a_path_seen_twice() {
    let mut store = IndexStore::new();
    store.reconcile(&vec![file("a.c", 10), file("b.c", 5), file("a.c", 40)]);
    assert_eq!(store.file(&"a.c".to_string()).unwrap().mtime, 40);
    assert_eq!(store.file(&"b.c".to_string()).unwrap().mtime, 5);
    assert_eq!(store.pending_analysis().len(), 2);
}

#[test]
fn reconcile_with_empty_scan_clears_the_index() {
    let mut store = IndexStore::new();
    store.reconcile(&vec![file("a.c", 10)]);
    store
        .replace_tags_for_file(&"a.c".to_string(), &vec![tag(158, "F", 0)], &vec![], 11)
        .unwrap();
    store.reconcile(&vec![]);
    assert!(store.file(&"a.c".to_string()).is_none());
    assert!(store.tags_for_file(&"a.c".to_string()).is_empty());
    assert!(store.pending_analysis().is_empty());
    assert_eq!(store.next_id(), 2);
}

#[test]
fn reconcile_twice_is_reconcile_once() {
    let scan = vec![file("a.c", 10), file("c.c", 7), file("a.c", 12)];
    let mut once = IndexStore::new();
    once.reconcile(&vec![file("a.c", 1), file("b.c", 2)]);
    once.replace_tags_for_file(&"a.c".to_string(), &vec![tag(158, "F", 0)], &vec![], 5).unwrap();
    once.replace_tags_for_file(&"b.c".to_string(), &vec![tag(158, "G", 0)], &vec![], 5).unwrap();
    once.reconcile(&scan);
    let first = snapshot(&once, &["a.c", "b.c", "c.c"]);
    once.reconcile(&scan);
    let second = snapshot(&once, &["a.c", "b.c", "c.c"]);
    assert_eq!(first, second);
    assert_eq!(
        first,
        vec![
            ("a.c".to_string(), Some((12, 5)), vec![(1, "F".to_string())]),
            ("b.c".to_string(), None, vec![]),
            ("c.c".to_string(), Some((7, 0)), vec![]),
        ]
    );
}

#[test]
fn reconcile_cascades_to_tags_and_xrefs() {
    let mut store = IndexStore::new();
    store.reconcile(&vec![file("a.c", 1), file("b.c", 1)]);
    store
        .replace_tags_for_file(
            &"a.c".to_string(),
            &vec![tag(158, "F", 0), tag(158, "G", 1)],
            &vec![NewXref { name: 1, hold: 0 }],
            2,
        )
        .unwrap();
    store
        .replace_tags_for_file(
            &"b.c".to_string(),
            &vec![tag(158, "H", 0), tag(158, "K", 1)],
            &vec![NewXref { name: 0, hold: 1 }],
            2,
        )
        .unwrap();
    assert_eq!(store.xrefs_holding(1), vec![XrefRecord { name: 2, hold: 1 }]);
    assert_eq!(store.xrefs_holding(4), vec![XrefRecord { name: 3, hold: 4 }]);

    store.reconcile(&vec![file("b.c", 1)]);
    assert!(store.file(&"a.c".to_string()).is_none());
    assert!(store.tags_for_file(&"a.c".to_string()).is_empty());
    assert!(store.xrefs_holding(1).is_empty());
    assert!(store.xrefs_holding(2).is_empty());
    let kept: Vec<i64> = store.tags_for_file(&"b.c".to_string()).iter().map(|t| t.id).collect();
    assert_eq!(kept, vec![3, 4]);
    assert_eq!(store.xrefs_holding(4), vec![XrefRecord { name: 3, hold: 4 }]);
}

#[test]
fn unobserved_lists_the_files_that_are_gone() {
    let mut store = IndexStore::new();
    store.reconcile(&vec![file("a.c", 1), file("b.c", 1), file("c.c", 1)]);
    let mut gone = store.unobserved(&vec![file("b.c", 9), file("z.c", 9)]);
    gone.sort();
    assert_eq!(gone, vec!["a.c".to_string(), "c.c".to_string()]);
    assert!(store.unobserved(&vec![file("a.c", 1), file("b.c", 1), file("c.c", 1)]).is_empty());
}

#[test]
fn pending_is_ptime_before_mtime() {
    let mut store = IndexStore::new();
    store.reconcile(&vec![file("a.c", 10), file("b.c", 10), file("c.c", 10)]);
    store.replace_tags_for_file(&"a.c".to_string(), &vec![], &vec![], 10).unwrap();
    store.replace_tags_for_file(&"b.c".to_string(), &vec![], &vec![], 9).unwrap();
    store.replace_tags_for_file(&"c.c".to_string(), &vec![], &vec![], 11).unwrap();
    let pending = store.pending_analysis();
    assert_eq!(pending.len(), 1);
    assert_eq!(pending[0].path, "b.c");
    assert_eq!((pending[0].mtime, pending[0].ptime), (10, 9));
}

#[test]
fn replaced_file_leaves_pending_until_mtime_advances() {
    let mut store = IndexStore::new();
    store.reconcile(&vec![file("a.c", 100)]);
    assert_eq!(store.pending_analysis().len(), 1);
    store.replace_tags_for_file(&"a.c".to_string(), &vec![tag(158, "F", 0)], &vec![], 150).unwrap();
    assert!(store.file(&"a.c".to_string()).unwrap().ptime >= 100);
    assert!(store.pending_analysis().is_empty());
    store.reconcile(&vec![file("a.c", 100)]);
    assert!(store.pending_analysis().is_empty());
    store.reconcile(&vec![file("a.c", 150)]);
    assert!(store.pending_analysis().is_empty());
    store.reconcile(&vec![file("a.c", 151)]);
    assert_eq!(paths(&store.pending_analysis()), vec!["a.c".to_string()]);
}

#[test]
fn replace_before_the_files_mtime_leaves_it_pending() {
    let mut store = IndexStore::new();
    store.reconcile(&vec![file("a.c", 100)]);
    store.replace_tags_for_file(&"a.c".to_string(), &vec![], &vec![], 99).unwrap();
    assert_eq!(store.file(&"a.c".to_string()).unwrap().ptime, 99);
    assert_eq!(store.pending_analysis().len(), 1);
}

#[test]
fn replace_assigns_increasing_ids_and_never_reuses_one() {
    let mut store = IndexStore::new();
    store.reconcile(&vec![file("a.c", 1)]);
    let path = "a.c".to_string();
    store.replace_tags_for_file(&path, &vec![tag(158, "F", 0), tag(158, "G", 1)], &vec![], 2).unwrap();
    let first: Vec<(i64, String)> =
        store.tags_for_file(&path).iter().map(|t| (t.id, t.name.clone())).collect();
    assert_eq!(first, vec![(1, "F".to_string()), (2, "G".to_string())]);
    assert_eq!(store.next_id(), 3);
    store.replace_tags_for_file(&path, &vec![tag(158, "H", 4)], &vec![], 3).unwrap();
    let second = store.tags_for_file(&path);
    assert_eq!(second.len(), 1);
    assert_eq!(second[0].id, 3);
    assert_eq!(second[0].name, "H");
    assert_eq!(second[0].kind, 158);
    assert_eq!(second[0].path, "a.c");
    assert_eq!(second[0].span, Span { beg_row: 4, beg_col: 0, end_row: 4, end_col: 1 });
    assert_eq!(store.next_id(), 4);
}

#[test]
fn replace_stores_xrefs_by_the_new_ids() {
    let mut store = IndexStore::new();
    store.reconcile(&vec![file("a.c", 1)]);
    let path = "a.c".to_string();
    store.replace_tags_for_file(&path, &vec![tag(158, "old", 0)], &vec![], 2).unwrap();
    store
        .replace_tags_for_file(
            &path,
            &vec![tag(158, "def", 0), tag(158, "use1", 1), tag(158, "use2", 2)],
            &vec![NewXref { name: 1, hold: 0 }, NewXref { name: 2, hold: 0 }],
            3,
        )
        .unwrap();
    assert_eq!(
        store.xrefs_holding(2),
        vec![XrefRecord { name: 3, hold: 2 }, XrefRecord { name: 4, hold: 2 }]
    );
    assert!(store.xrefs_holding(1).is_empty());
    assert!(store.xrefs_holding(3).is_empty());
}

#[test]
fn replace_drops_the_xrefs_of_the_former_tags() {
    let mut store = IndexStore::new();
    store.reconcile(&vec![file("a.c", 1)]);
    let path = "a.c".to_string();
    store
        .replace_tags_for_file(
            &path,
            &vec![tag(158, "F", 0), tag(158, "G", 1)],
            &vec![NewXref { name: 1, hold: 0 }],
            2,
        )
        .unwrap();
    assert_eq!(store.xrefs_holding(1).len(), 1);
    store.replace_tags_for_file(&path, &vec![tag(158, "F", 0)], &vec![], 3).unwrap();
    assert!(store.xrefs_holding(1).is_empty());
    assert!(store.xrefs_holding(3).is_empty());
}

#[test]
fn replace_leaves_other_files_alone() {
    let mut store = IndexStore::new();
    store.reconcile(&vec![file("a.c", 10), file("b.c", 20)]);
    store.replace_tags_for_file(&"b.c".to_string(), &vec![tag(158, "B", 0)], &vec![], 25).unwrap();
    let before = snapshot(&store, &["b.c"]);
    store.replace_tags_for_file(&"a.c".to_string(), &vec![tag(158, "A", 0)], &vec![], 30).unwrap();
    assert_eq!(snapshot(&store, &["b.c"]), before);
    assert_eq!(store.file(&"a.c".to_string()).unwrap().ptime, 30);
}

#[test]
fn replace_for_unknown_file_is_refused_and_changes_nothing() {
    let mut store = IndexStore::new();
    store.reconcile(&vec![file("a.c", 10)]);
    let before = snapshot(&store, &["a.c", "x.c"]);
    let done = store.replace_tags_for_file(&"x.c".to_string(), &vec![tag(158, "F", 0)], &vec![], 11);
    assert_eq!(done, Err(Error::UnknownFile));
    assert_eq!(snapshot(&store, &["a.c", "x.c"]), before);
    assert_eq!(store.next_id(), 1);
}

#[test]
fn replace_with_dangling_xref_is_refused_and_changes_nothing() {
    let mut store = IndexStore::new();
    store.reconcile(&vec![file("a.c", 10)]);
    let path = "a.c".to_string();
    store.replace_tags_for_file(&path, &vec![tag(158, "F", 0)], &vec![], 11).unwrap();
    let before = snapshot(&store, &["a.c"]);
    let done = store.replace_tags_for_file(
        &path,
        &vec![tag(158, "G", 0), tag(158, "H", 1)],
        &vec![NewXref { name: 0, hold: 1 }, NewXref { name: 2, hold: 0 }],
        12,
    );
    assert_eq!(done, Err(Error::DanglingXref));
    assert_eq!(snapshot(&store, &["a.c"]), before);
    assert_eq!(store.file(&path).unwrap().ptime, 11);
    assert_eq!(store.next_id(), 2);
    let held = store.replace_tags_for_file(&path, &vec![], &vec![NewXref { name: 0, hold: 0 }], 12);
    assert_eq!(held, Err(Error::DanglingXref));
}

#[test]
fn unknown_file_is_reported_before_a_dangling_xref() {
    let mut store = IndexStore::new();
    let verdict = store.check_report(
        &"x.c".to_string(),
        &vec![],
        &vec![NewXref { name: 0, hold: 0 }],
    );
    assert_eq!(verdict, Err(Error::UnknownFile));
    let done = store.replace_tags_for_file(
        &"x.c".to_string(),
        &vec![],
        &vec![NewXref { name: 0, hold: 0 }],
        1,
    );
    assert_eq!(done, Err(Error::UnknownFile));
}

#[test]
fn replace_is_refused_when_tag_ids_run_out() {
    let files = vec![file("a.c", 10)];
    let mut store = IndexStore::from_rows(files, vec![], vec![], i64::MAX - 1).unwrap();
    let path = "a.c".to_string();
    assert_eq!(store.check_report(&path, &vec![tag(158, "F", 0)], &vec![]), Ok(()));
    let two = vec![tag(158, "F", 0), tag(158, "G", 1)];
    assert_eq!(store.check_report(&path, &two, &vec![]), Err(Error::TagIdsExhausted));
    assert_eq!(store.replace_tags_for_file(&path, &two, &vec![], 11), Err(Error::TagIdsExhausted));
    assert_eq!(store.file(&path).unwrap().ptime, 0);
    assert_eq!(store.replace_tags_for_file(&path, &vec![tag(158, "F", 0)], &vec![], 11), Ok(()));
    assert_eq!(store.tags_for_file(&path)[0].id, i64::MAX - 1);
    assert_eq!(store.next_id(), i64::MAX);
    assert_eq!(
        store.replace_tags_for_file(&path, &vec![tag(158, "F", 0)], &vec![], 12),
        Err(Error::TagIdsExhausted)
    );
    assert_eq!(store.replace_tags_for_file(&path, &vec![], &vec![], 12), Ok(()));
}

fn stored(id: i64, path: &str, name: &str) -> TagRecord {
    TagRecord {
        id,
        kind: 158,
        span: Span { beg_row: 0, beg_col: 0, end_row: 0, end_col: 1 },
        path: path.to_string(),
        name: name.to_string(),
    }
}

#[test]
fn from_rows_accepts_a_consistent_index() {
    let store = IndexStore::from_rows(
        vec![FileInfo { path: "a.c".to_string(), mtime: 5, ptime: 6 }, file("b.c", 7)],
        vec![stored(2, "a.c", "F"), stored(5, "a.c", "G"), stored(6, "b.c", "H")],
        vec![XrefRecord { name: 5, hold: 2 }, XrefRecord { name: 6, hold: 2 }],
        9,
    )
    .unwrap();
    assert_eq!(store.next_id(), 9);
    assert_eq!(paths(&store.pending_analysis()), vec!["b.c".to_string()]);
    let ids: Vec<i64> = store.tags_for_file(&"a.c".to_string()).iter().map(|t| t.id).collect();
    assert_eq!(ids, vec![2, 5]);
    assert_eq!(store.xrefs_holding(2).len(), 2);
}

#[test]
fn from_rows_refuses_inconsistent_rows() {
    let files = || vec![file("a.c", 5), file("b.c", 7)];
    assert!(matches!(
        IndexStore::from_rows(vec![file("a.c", 5), file("a.c", 7)], vec![], vec![], 1),
        Err(Error::CorruptStore)
    ));
    assert!(matches!(IndexStore::from_rows(files(), vec![], vec![], 0), Err(Error::CorruptStore)));
    assert!(matches!(
        IndexStore::from_rows(files(), vec![stored(1, "x.c", "F")], vec![], 2),
        Err(Error::CorruptStore)
    ));
    assert!(matches!(
        IndexStore::from_rows(files(), vec![stored(0, "a.c", "F")], vec![], 2),
        Err(Error::CorruptStore)
    ));
    assert!(matches!(
        IndexStore::from_rows(files(), vec![stored(2, "a.c", "F")], vec![], 2),
        Err(Error::CorruptStore)
    ));
    assert!(matches!(
        IndexStore::from_rows(files(), vec![stored(2, "a.c", "F"), stored(1, "a.c", "G")], vec![], 3),
        Err(Error::CorruptStore)
    ));
    assert!(matches!(
        IndexStore::from_rows(files(), vec![stored(1, "a.c", "F"), stored(1, "b.c", "G")], vec![], 3),
        Err(Error::CorruptStore)
    ));
    assert!(matches!(
        IndexStore::from_rows(
            files(),
            vec![stored(1, "a.c", "F")],
            vec![XrefRecord { name: 1, hold: 2 }],
            3
        ),
        Err(Error::CorruptStore)
    ));
    assert!(matches!(
        IndexStore::from_rows(
            files(),
            vec![stored(1, "a.c", "F")],
            vec![XrefRecord { name: 7, hold: 1 }],
            3
        ),
        Err(Error::CorruptStore)
    ));
    assert!(IndexStore::from_rows(
        files(),
        vec![stored(1, "a.c", "F")],
        vec![XrefRecord { name: 1, hold: 1 }],
        2
    )
    .is_ok());
}

#[test]
fn file_info_default_clone_and_staleness() {
    let empty = FileInfo::default();
    assert_eq!((empty.path.as_str(), empty.mtime, empty.ptime), ("", 0, 0));
    assert!(!empty.is_stale());
    let f = FileInfo { path: "a.c".to_string(), mtime: 3, ptime: 2 };
    let g = f.clone();
    assert_eq!((g.path.as_str(), g.mtime, g.ptime), ("a.c", 3, 2));
    assert!(f.is_stale());
    assert!(!FileInfo { path: "a.c".to_string(), mtime: 3, ptime: 3 }.is_stale());
    assert!(!FileInfo { path: "a.c".to_string(), mtime: 3, ptime: 4 }.is_stale());
}

#[test]
fn span_covers_from_its_begin_to_before_its_end() {
    let span = Span { beg_row: 2, beg_col: 4, end_row: 4, end_col: 1 };
    assert!(span.covers(2, 4));
    assert!(span.covers(2, 900));
    assert!(span.covers(3, 0));
    assert!(span.covers(4, 0));
    assert!(!span.covers(4, 1));
    assert!(!span.covers(2, 3));
    assert!(!span.covers(1, 50));
    assert!(!span.covers(5, 0));
    let line = Span { beg_row: 7, beg_col: 2, end_row: 7, end_col: 5 };
    assert!(!line.covers(7, 1));
    assert!(line.covers(7, 2));
    assert!(line.covers(7, 4));
    assert!(!line.covers(7, 5));
    let empty = Span { beg_row: 7, beg_col: 2, end_row: 7, end_col: 2 };
    assert!(!empty.covers(7, 2));
}

#[test]
fn tags_at_a_position_and_the_xrefs_from_them() {
    let mut store = IndexStore::new();
    store.reconcile(&vec![file("a.c", 1), file("b.c", 1)]);
    store
        .replace_tags_for_file(
            &"a.c".to_string(),
            &vec![tag(158, "define", 0), tag(158, "use", 3), tag(158, "again", 3)],
            &vec![NewXref { name: 1, hold: 0 }, NewXref { name: 2, hold: 0 }],
            2,
        )
        .unwrap();
    store.replace_tags_for_file(&"b.c".to_string(), &vec![tag(158, "other", 3)], &vec![], 2).unwrap();

    let at: Vec<i64> = store.tags_at(&"a.c".to_string(), 3, 1).iter().map(|t| t.id).collect();
    assert_eq!(at, vec![2, 3]);
    let at: Vec<i64> = store.tags_at(&"a.c".to_string(), 3, 4).iter().map(|t| t.id).collect();
    assert_eq!(at, vec![3]);
    assert!(store.tags_at(&"a.c".to_string(), 3, 5).is_empty());
    assert!(store.tags_at(&"a.c".to_string(), 1, 0).is_empty());
    let at: Vec<i64> = store.tags_at(&"b.c".to_string(), 3, 1).iter().map(|t| t.id).collect();
    assert_eq!(at, vec![4]);
    assert!(store.tags_at(&"c.c".to_string(), 3, 1).is_empty());

    assert_eq!(store.xrefs_naming(2), vec![XrefRecord { name: 2, hold: 1 }]);
    assert_eq!(store.xrefs_naming(3), vec![XrefRecord { name: 3, hold: 1 }]);
    assert!(store.xrefs_naming(1).is_empty());
    assert_eq!(store.xrefs_holding(1).len(), 2);
}
