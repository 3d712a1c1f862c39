use syntax_forest::db::{FileInfo, Span, SqliteClient};
use syntax_forest::method::initialize::select_for_analysis;
use syntax_forest::syntax::SyntaxParser;
use syntax_forest::{Error, LspConfig};

const A_C: &str = "#define SQUARE(x) ((x) * (x))\n\nint main(void) {\n    return SQUARE(2);\n}\n";

fn seen(path: &str, mtime: i64) -> FileInfo {
    FileInfo { path: path.to_string(), mtime, ptime: 0 }
}

fn open() -> SqliteClient {
    SqliteClient::new(rusqlite::Connection::open_in_memory().unwrap()).unwrap()
}

fn paths(files: &Vec<FileInfo>) -> Vec<String> {
    let mut out: Vec<String> = files.iter().map(|f| f.path.clone()).collect();
    out.sort();
    out
}

fn index(db: &mut SqliteClient, parser: &SyntaxParser, scan: &Vec<FileInfo>, content: &str, now: i64) -> Vec<String> {
    let work = select_for_analysis(db, parser, scan).unwrap();
    for file in &work {
        parser.parser(&file.path, &content.to_string(), db, now).unwrap();
    }
    paths(&work)
}

#[test]
fn supported_file_is_indexed_and_unsupported_file_stays_pending() {
    let mut db = open();
    let parser = SyntaxParser::new();
    let scan = vec![seen("a.c", 100), seen("b.txt", 100)];
    let work = index(&mut db, &parser, &scan, A_C, 200);
    assert_eq!(work, vec!["a.c".to_string()]);

    assert!(db.file(&"a.c".to_string()).is_some());
    assert!(db.file(&"b.txt".to_string()).is_some());
    let tags = db.tags_for_file(&"a.c".to_string());
    assert_eq!(tags.len(), 1);
    assert_eq!(tags[0].id, 1);
    assert_eq!(tags[0].kind, 158);
    assert_eq!(tags[0].name, "#define SQUARE(x) ((x) * (x))\n");
    assert_eq!(tags[0].span, Span { beg_row: 0, beg_col: 0, end_row: 1, end_col: 0 });
    assert_eq!(tags[0].path, "a.c");
    assert!(db.tags_for_file(&"b.txt".to_string()).is_empty());

    assert_eq!(paths(&db.pending_analysis()), vec!["b.txt".to_string()]);
    let again = select_for_analysis(&mut db, &parser, &scan).unwrap();
    assert!(again.is_empty());
    assert_eq!(db.file(&"b.txt".to_string()).unwrap().ptime, 0);
}

#[test]
fn file_deleted_between_scans_leaves_the_index() {
    let mut db = open();
    let parser = SyntaxParser::new();
    index(&mut db, &parser, &vec![seen("a.c", 100), seen("b.txt", 100)], A_C, 200);
    assert_eq!(db.tags_for_file(&"a.c".to_string()).len(), 1);

    db.startup_scan(&vec![seen("b.txt", 100)]).unwrap();
    assert!(db.file(&"a.c".to_string()).is_none());
    assert!(db.tags_for_file(&"a.c".to_string()).is_empty());
    assert!(db.file(&"b.txt".to_string()).is_some());

    let db = SqliteClient::new(db.into_connection()).unwrap();
    assert!(db.file(&"a.c".to_string()).is_none());
    assert!(db.tags_for_file(&"a.c".to_string()).is_empty());
}

#[test]
fn changed_file_is_analyzed_again_and_others_are_not() {
    let mut db = open();
    let parser = SyntaxParser::new();
    let first = vec![seen("a.c", 100), seen("other.c", 100)];
    let work = index(&mut db, &parser, &first, A_C, 200);
    assert_eq!(work, vec!["a.c".to_string(), "other.c".to_string()]);
    assert_eq!(db.file(&"other.c".to_string()).unwrap().ptime, 200);

    let second = vec![seen("a.c", 300), seen("other.c", 100)];
    let work = select_for_analysis(&mut db, &parser, &second).unwrap();
    assert_eq!(paths(&work), vec!["a.c".to_string()]);
    assert_eq!((work[0].mtime, work[0].ptime), (300, 200));
    let changed = "#define CUBE(x) ((x) * (x) * (x))\n#define SQUARE(x) ((x) * (x))\n";
    parser.parser(&"a.c".to_string(), &changed.to_string(), &mut db, 400).unwrap();

    let tags = db.tags_for_file(&"a.c".to_string());
    let listed: Vec<(i64, &str)> = tags.iter().map(|t| (t.id, t.name.as_str())).collect();
    assert_eq!(
        listed,
        vec![(3, "#define CUBE(x) ((x) * (x) * (x))\n"), (4, "#define SQUARE(x) ((x) * (x))\n")]
    );
    assert_eq!(db.file(&"a.c".to_string()).unwrap().ptime, 400);
    let other = db.file(&"other.c".to_string()).unwrap();
    assert_eq!((other.mtime, other.ptime), (100, 200));
    assert_eq!(db.tags_for_file(&"other.c".to_string())[0].id, 2);
    assert!(db.pending_analysis().is_empty());
}

#[test]
fn file_without_analyzer_is_left_alone() {
    let mut db = open();
    let parser = SyntaxParser::new();
    db.startup_scan(&vec![seen("b.txt", 100)]).unwrap();
    let done = parser.parser(&"b.txt".to_string(), &A_C.to_string(), &mut db, 200);
    assert_eq!(done, Ok(()));
    assert_eq!(db.file(&"b.txt".to_string()).unwrap().ptime, 0);
    assert!(db.tags_for_file(&"b.txt".to_string()).is_empty());
}

#[test]
fn analysis_of_an_unscanned_file_fails_and_stores_nothing() {
    let mut db = open();
    let parser = SyntaxParser::new();
    let done = parser.parser(&"a.c".to_string(), &A_C.to_string(), &mut db, 200);
    assert_eq!(done, Err(Error::UnknownFile));
    assert!(db.tags_for_file(&"a.c".to_string()).is_empty());
    assert!(db.file(&"a.c".to_string()).is_none());
}

#[test]
fn failed_store_keeps_the_file_pending() {
    let mut db = open();
    let parser = SyntaxParser::new();
    db.startup_scan(&vec![seen("a.c", 100)]).unwrap();
    let conn = db.into_connection();
    conn.execute_batch(
        "CREATE TRIGGER refuse_tags BEFORE INSERT ON tags
         BEGIN SELECT RAISE(ABORT, 'refused'); END;",
    )
    .unwrap();
    let mut db = SqliteClient::new(conn).unwrap();
    let done = parser.parser(&"a.c".to_string(), &A_C.to_string(), &mut db, 200);
    assert_eq!(done, Err(Error::Storage));
    assert_eq!(db.file(&"a.c".to_string()).unwrap().ptime, 0);
    assert_eq!(paths(&db.pending_analysis()), vec!["a.c".to_string()]);
}

#[test]
fn config_defaults() {
    let config = LspConfig { dbfile: Some("tags.db".to_string()), port: Some(9257), ..Default::default() };
    assert!(!config.stdio);
    assert_eq!(config.port, Some(9257));
    assert_eq!(config.dbfile.as_deref(), Some("tags.db"));
    assert_eq!(config.logdir, None);
    assert_eq!(config.clone().loglevel, None);
}
