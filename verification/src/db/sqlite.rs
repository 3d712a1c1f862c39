//! The index store kept in SQLite: every change is made in memory and
//! written through in one transaction.

use vstd::prelude::*;
use crate::db::driver::{sql_execute, sql_query, SqlRow};
use crate::db::index::{
    observes, tag_covering, tag_inside, xref_holding, xref_naming, xrefs_in_range, FileTimes,
    IndexView,
};
use crate::db::record::{
    views, FileInfo, FileView, NewTag, NewTagView, NewXref, Span, TagRecord, TagView, XrefRecord,
};
use crate::db::store::{rows_consistent, rows_index, unique_paths, IndexStore};
use crate::Error;

verus! {

/// What a statement that was run for its effect comes to: done, whatever
/// the number of rows it changed, or a storage error if the database gave
/// none.
pub fn statement_outcome(changed: Option<usize>) -> (done: Result<(), Error>)
    ensures
        done is Ok <==> changed is Some,
        done matches Err(e) ==> e == Error::Storage,
{
    match changed {
        Some(_) => Ok(()),
        None => Err(Error::Storage),
    }
}

/// Runs a statement for its effect alone.
fn run(conn: &mut rusqlite::Connection, sql: &str, texts: &Vec<String>, ints: &Vec<i64>) -> (done:
    Result<(), Error>)
    ensures
        done matches Err(e) ==> e == Error::Storage,
{
    statement_outcome(sql_execute(conn, sql, texts, ints))
}

/// Runs a statement that takes no parameters.
fn run_plain(conn: &mut rusqlite::Connection, sql: &str) -> (done: Result<(), Error>)
    ensures
        done matches Err(e) ==> e == Error::Storage,
{
    let texts: Vec<String> = Vec::new();
    let ints: Vec<i64> = Vec::new();
    run(conn, sql, &texts, &ints)
}

/// Ends a transaction: commits it if the work succeeded and rolls it back
/// if not. The result is `Ok` only if the work succeeded and the commit did.
fn settle(conn: &mut rusqlite::Connection, work: Result<(), Error>) -> (done: Result<(), Error>)
    ensures
        done is Ok ==> work is Ok,
        done matches Err(e) ==> e == Error::Storage,
{
    match work {
        Ok(()) => match run_plain(conn, "COMMIT") {
            Ok(()) => Ok(()),
            Err(e) => {
                let _ = run_plain(conn, "ROLLBACK");
                Err(e)
            },
        },
        Err(_) => {
            let _ = run_plain(conn, "ROLLBACK");
            Err(Error::Storage)
        },
    }
}

/// A position as the database holds it, if it fits.
pub fn position_to_sql(position: usize) -> (stored: Option<i64>)
    ensures
        stored is Some <==> position <= i64::MAX,
        stored matches Some(value) ==> value == position,
{
    if position as u64 <= i64::MAX as u64 {
        Some(position as i64)
    } else {
        None
    }
}

/// A position read back from the database, if it is one.
pub fn position_from_sql(stored: i64) -> (position: Option<usize>)
    ensures
        position is Some <==> 0 <= stored <= usize::MAX,
        position matches Some(value) ==> value == stored,
{
    if stored >= 0 && stored as u64 <= usize::MAX as u64 {
        Some(stored as usize)
    } else {
        None
    }
}

/// The row that stands for a file record: its path, then its two times.
pub open spec fn file_row_of(row: SqlRow) -> Option<FileView> {
    if row.texts@.len() == 1 && row.ints@.len() == 2 {
        Some(
            FileView {
                path: row.texts@[0]@,
                mtime: row.ints@[0],
                ptime: row.ints@[1],
            },
        )
    } else {
        None
    }
}

/// Reads a file record off a row of `path, mtime, ptime`.
pub fn decode_file_row(row: &SqlRow) -> (file: Option<FileInfo>)
    ensures
        file is Some <==> file_row_of(*row) is Some,
        file matches Some(f) ==> Some(f@) == file_row_of(*row),
{
    if row.texts.len() == 1 && row.ints.len() == 2 {
        Some(FileInfo { path: row.texts[0].clone(), mtime: row.ints[0], ptime: row.ints[1] })
    } else {
        None
    }
}

/// The tag record that a row of `path, name, id, kind, beg_row, beg_col,
/// end_row, end_col` stands for, if the kind and the positions are in range.
pub open spec fn tag_row_of(row: SqlRow) -> Option<TagView> {
    if row.texts@.len() == 2 && row.ints@.len() == 6 && 0 <= row.ints@[1] <= u16::MAX && 0
        <= row.ints@[2] <= usize::MAX && 0 <= row.ints@[3] <= usize::MAX && 0 <= row.ints@[4]
        <= usize::MAX && 0 <= row.ints@[5] <= usize::MAX {
        Some(
            TagView {
                id: row.ints@[0],
                kind: row.ints@[1] as u16,
                span: Span {
                    beg_row: row.ints@[2] as usize,
                    beg_col: row.ints@[3] as usize,
                    end_row: row.ints@[4] as usize,
                    end_col: row.ints@[5] as usize,
                },
                path: row.texts@[0]@,
                name: row.texts@[1]@,
            },
        )
    } else {
        None
    }
}

/// Reads a tag record off a row.
pub fn decode_tag_row(row: &SqlRow) -> (tag: Option<TagRecord>)
    ensures
        tag is Some <==> tag_row_of(*row) is Some,
        tag matches Some(t) ==> Some(t@) == tag_row_of(*row),
{
    if row.texts.len() != 2 || row.ints.len() != 6 {
        return None;
    }
    let kind = row.ints[1];
    if kind < 0 || kind > 0xffff {
        return None;
    }
    let beg_row = position_from_sql(row.ints[2]);
    let beg_col = position_from_sql(row.ints[3]);
    let end_row = position_from_sql(row.ints[4]);
    let end_col = position_from_sql(row.ints[5]);
    match (beg_row, beg_col, end_row, end_col) {
        (Some(beg_row), Some(beg_col), Some(end_row), Some(end_col)) => Some(
            TagRecord {
                id: row.ints[0],
                kind: kind as u16,
                span: Span { beg_row, beg_col, end_row, end_col },
                path: row.texts[0].clone(),
                name: row.texts[1].clone(),
            },
        ),
        _ => None,
    }
}

/// The positions of a span fit the integers of the database.
pub open spec fn span_fits(span: Span) -> bool {
    span.beg_row <= i64::MAX && span.beg_col <= i64::MAX && span.end_row <= i64::MAX
        && span.end_col <= i64::MAX
}

/// Every position of a report fits the integers of the database.
pub open spec fn report_fits(tags: Seq<NewTagView>) -> bool {
    forall|i: int| 0 <= i < tags.len() ==> span_fits((#[trigger] tags[i]).span)
}

/// The integers of the row that stands for a tag: its id, kind and span.
pub open spec fn tag_ints_of(id: i64, kind: u16, span: Span) -> Option<Seq<i64>> {
    if span_fits(span) {
        Some(
            seq![
                id,
                kind as i64,
                span.beg_row as i64,
                span.beg_col as i64,
                span.end_row as i64,
                span.end_col as i64,
            ],
        )
    } else {
        None
    }
}

/// The integer columns of a tag's row, if its positions fit the database.
pub fn encode_tag_ints(id: i64, kind: u16, span: Span) -> (ints: Option<Vec<i64>>)
    ensures
        ints is Some <==> tag_ints_of(id, kind, span) is Some,
        ints matches Some(v) ==> Some(v@) == tag_ints_of(id, kind, span),
{
    let beg_row = position_to_sql(span.beg_row);
    let beg_col = position_to_sql(span.beg_col);
    let end_row = position_to_sql(span.end_row);
    let end_col = position_to_sql(span.end_col);
    match (beg_row, beg_col, end_row, end_col) {
        (Some(beg_row), Some(beg_col), Some(end_row), Some(end_col)) => {
            let mut ints: Vec<i64> = Vec::new();
            ints.push(id);
            ints.push(kind as i64);
            ints.push(beg_row);
            ints.push(beg_col);
            ints.push(end_row);
            ints.push(end_col);
            assert(ints@ == tag_ints_of(id, kind, span).unwrap());
            Some(ints)
        },
        _ => None,
    }
}

/// Reads a cross-reference off a row of `name, hold`.
pub fn decode_xref_row(row: &SqlRow) -> (xref: Option<XrefRecord>)
    ensures
        xref is Some <==> row.texts@.len() == 0 && row.ints@.len() == 2,
        xref matches Some(x) ==> x.name == row.ints@[0] && x.hold == row.ints@[1],
{
    if row.texts.len() == 0 && row.ints.len() == 2 {
        Some(XrefRecord { name: row.ints[0], hold: row.ints[1] })
    } else {
        None
    }
}

/// The id for the next tag that the rows of the query for the highest
/// assigned id stand for.
pub open spec fn next_id_of_rows(rows: Seq<SqlRow>) -> Option<i64> {
    if rows.len() == 0 {
        Some(1)
    } else if rows.len() == 1 && rows[0].texts@.len() == 0 && rows[0].ints@.len() == 1 && 0
        <= rows[0].ints@[0] < i64::MAX {
        Some((rows[0].ints@[0] + 1) as i64)
    } else {
        None
    }
}

/// The id for the next tag, given the rows of the query for the highest id
/// that the table of tags has ever assigned: 1 if it has assigned none, one
/// more than the highest otherwise.
pub fn decode_next_id(rows: &Vec<SqlRow>) -> (next: Option<i64>)
    ensures
        next == next_id_of_rows(rows@),
{
    if rows.len() == 0 {
        Some(1)
    } else if rows.len() == 1 && rows[0].texts.len() == 0 && rows[0].ints.len() == 1 {
        let highest = rows[0].ints[0];
        if 0 <= highest && highest < i64::MAX {
            Some(highest + 1)
        } else {
            None
        }
    } else {
        None
    }
}

/// The file records that rows stand for, if every row stands for one.
pub open spec fn files_of_rows(rows: Seq<SqlRow>) -> Option<Seq<FileView>> {
    if forall|i: int| 0 <= i < rows.len() ==> file_row_of(#[trigger] rows[i]) is Some {
        Some(Seq::new(rows.len(), |i: int| file_row_of(rows[i]).unwrap()))
    } else {
        None
    }
}

/// The tag records that rows stand for, if every row stands for one.
pub open spec fn tags_of_rows(rows: Seq<SqlRow>) -> Option<Seq<TagView>> {
    if forall|i: int| 0 <= i < rows.len() ==> tag_row_of(#[trigger] rows[i]) is Some {
        Some(Seq::new(rows.len(), |i: int| tag_row_of(rows[i]).unwrap()))
    } else {
        None
    }
}

/// The cross-references that rows stand for, if every row stands for one.
pub open spec fn xrefs_of_rows(rows: Seq<SqlRow>) -> Option<Seq<XrefRecord>> {
    if forall|i: int|
        0 <= i < rows.len() ==> (#[trigger] rows[i]).texts@.len() == 0 && rows[i].ints@.len() == 2 {
        Some(
            Seq::new(
                rows.len(),
                |i: int| XrefRecord { name: rows[i].ints@[0], hold: rows[i].ints@[1] },
            ),
        )
    } else {
        None
    }
}

/// Reads the file records off the rows of the table of files.
pub fn decode_files(rows: &Vec<SqlRow>) -> (files: Option<Vec<FileInfo>>)
    ensures
        files is Some <==> files_of_rows(rows@) is Some,
        files matches Some(f) ==> Some(views(f@)) == files_of_rows(rows@),
{
    let mut files: Vec<FileInfo> = Vec::new();
    let mut i: usize = 0;
    while i < rows.len()
        invariant
            i <= rows.len(),
            files.len() == i,
            forall|j: int| 0 <= j < i ==> file_row_of(#[trigger] rows@[j]) == Some(files[j]@),
        decreases rows.len() - i,
    {
        match decode_file_row(&rows[i]) {
            Some(file) => {
                files.push(file);
            },
            None => {
                return None;
            },
        }
        i += 1;
    }
    assert(views(files@) == files_of_rows(rows@).unwrap());
    Some(files)
}

/// Reads the tag records off the rows of the table of tags.
pub fn decode_tags(rows: &Vec<SqlRow>) -> (tags: Option<Vec<TagRecord>>)
    ensures
        tags is Some <==> tags_of_rows(rows@) is Some,
        tags matches Some(t) ==> Some(views(t@)) == tags_of_rows(rows@),
{
    let mut tags: Vec<TagRecord> = Vec::new();
    let mut i: usize = 0;
    while i < rows.len()
        invariant
            i <= rows.len(),
            tags.len() == i,
            forall|j: int| 0 <= j < i ==> tag_row_of(#[trigger] rows@[j]) == Some(tags[j]@),
        decreases rows.len() - i,
    {
        match decode_tag_row(&rows[i]) {
            Some(tag) => {
                tags.push(tag);
            },
            None => {
                return None;
            },
        }
        i += 1;
    }
    assert(views(tags@) == tags_of_rows(rows@).unwrap());
    Some(tags)
}

/// Reads the cross-references off the rows of their table.
pub fn decode_xrefs(rows: &Vec<SqlRow>) -> (xrefs: Option<Vec<XrefRecord>>)
    ensures
        xrefs is Some <==> xrefs_of_rows(rows@) is Some,
        xrefs matches Some(x) ==> Some(x@) == xrefs_of_rows(rows@),
{
    let mut xrefs: Vec<XrefRecord> = Vec::new();
    let mut i: usize = 0;
    while i < rows.len()
        invariant
            i <= rows.len(),
            xrefs.len() == i,
            forall|j: int|
                0 <= j < i ==> (#[trigger] rows@[j]).texts@.len() == 0 && rows@[j].ints@.len() == 2
                    && xrefs[j] == (XrefRecord { name: rows@[j].ints@[0], hold: rows@[j].ints@[1] }),
        decreases rows.len() - i,
    {
        match decode_xref_row(&rows[i]) {
            Some(xref) => {
                xrefs.push(xref);
            },
            None => {
                return None;
            },
        }
        i += 1;
    }
    assert(xrefs@ == xrefs_of_rows(rows@).unwrap());
    Some(xrefs)
}

/// The rows of the four queries that load a database stand for a consistent
/// index.
pub open spec fn rows_load(
    files: Seq<SqlRow>,
    tags: Seq<SqlRow>,
    xrefs: Seq<SqlRow>,
    next_id: Option<i64>,
) -> bool {
    &&& files_of_rows(files) is Some
    &&& tags_of_rows(tags) is Some
    &&& xrefs_of_rows(xrefs) is Some
    &&& next_id is Some
    &&& rows_consistent(
        files_of_rows(files).unwrap(),
        tags_of_rows(tags).unwrap(),
        xrefs_of_rows(xrefs).unwrap(),
        next_id.unwrap(),
    )
}

/// Builds the index from what the database returned for the tables of
/// files, tags and cross-references and for the highest tag id ever
/// assigned. It is built exactly when the rows stand for a consistent index.
pub fn index_from_rows(
    file_rows: &Vec<SqlRow>,
    tag_rows: &Vec<SqlRow>,
    xref_rows: &Vec<SqlRow>,
    sequence_rows: &Vec<SqlRow>,
) -> (loaded: Result<IndexStore, Error>)
    ensures
        loaded is Ok <==> rows_load(
            file_rows@,
            tag_rows@,
            xref_rows@,
            next_id_of_rows(sequence_rows@),
        ),
        loaded matches Ok(index) ==> index.wf() && index@ == rows_index(
            files_of_rows(file_rows@).unwrap(),
            tags_of_rows(tag_rows@).unwrap(),
            xrefs_of_rows(xref_rows@).unwrap(),
            next_id_of_rows(sequence_rows@).unwrap(),
        ),
        loaded matches Err(e) ==> e == Error::CorruptStore,
{
    let files = decode_files(file_rows);
    let tags = decode_tags(tag_rows);
    let xrefs = decode_xrefs(xref_rows);
    let next_id = decode_next_id(sequence_rows);
    match (files, tags, xrefs, next_id) {
        (Some(files), Some(tags), Some(xrefs), Some(next_id)) => IndexStore::from_rows(
            files,
            tags,
            xrefs,
            next_id,
        ),
        _ => Err(Error::CorruptStore),
    }
}

/// The rows to insert for a report: for each reported tag its path and
/// name, then its id, kind and span. `None` if a position does not fit the
/// database.
pub fn encode_tag_rows(first: i64, path: &String, tags: &Vec<NewTag>) -> (rows: Option<
    Vec<SqlRow>,
>)
    requires
        first + tags.len() <= i64::MAX,
        1 <= first,
    ensures
        rows is Some <==> report_fits(views(tags@)),
        rows matches Some(r) ==> r.len() == tags.len() && forall|i: int|
            0 <= i < r.len() ==> tag_row_of(#[trigger] r[i]) == Some(
                TagView {
                    id: (first + i) as i64,
                    kind: tags[i].kind,
                    span: tags[i].span,
                    path: path@,
                    name: tags[i].name@,
                },
            ),
{
    let mut rows: Vec<SqlRow> = Vec::new();
    let mut i: usize = 0;
    while i < tags.len()
        invariant
            i <= tags.len(),
            rows.len() == i,
            first + tags.len() <= i64::MAX,
            1 <= first,
            forall|j: int| 0 <= j < i ==> span_fits((#[trigger] views(tags@)[j]).span),
            forall|j: int|
                0 <= j < i ==> tag_row_of(#[trigger] rows[j]) == Some(
                    TagView {
                        id: (first + j) as i64,
                        kind: tags[j].kind,
                        span: tags[j].span,
                        path: path@,
                        name: tags[j].name@,
                    },
                ),
        decreases tags.len() - i,
    {
        match encode_tag_ints(first + (i as i64), tags[i].kind, tags[i].span) {
            Some(ints) => {
                let mut texts: Vec<String> = Vec::new();
                texts.push(path.clone());
                texts.push(tags[i].name.clone());
                rows.push(SqlRow { texts, ints });
            },
            None => {
                assert(!span_fits(views(tags@)[i as int].span));
                return None;
            },
        }
        i += 1;
    }
    Some(rows)
}

/// The integers of the row that stands for a reported cross-reference: the
/// ids that its two tags get when the first tag of the report gets `first`.
pub open spec fn xref_ints_of(first: i64, xref: NewXref) -> Seq<i64> {
    seq![(first + xref.name) as i64, (first + xref.hold) as i64]
}

/// The rows to insert for the cross-references of a report: for each the
/// ids of its two tags, positions in the report counted on from `first`.
pub fn encode_xref_rows(first: i64, xrefs: &Vec<NewXref>, count: usize) -> (rows: Vec<SqlRow>)
    requires
        1 <= first,
        first + count <= i64::MAX,
        xrefs_in_range(xrefs@, count as nat),
    ensures
        rows.len() == xrefs.len(),
        forall|k: int|
            0 <= k < rows.len() ==> (#[trigger] rows[k]).texts@.len() == 0 && rows[k].ints@
                == xref_ints_of(first, xrefs[k]),
{
    let mut rows: Vec<SqlRow> = Vec::new();
    let mut k: usize = 0;
    while k < xrefs.len()
        invariant
            k <= xrefs.len(),
            rows.len() == k,
            1 <= first,
            first + count <= i64::MAX,
            xrefs_in_range(xrefs@, count as nat),
            forall|j: int|
                0 <= j < k ==> (#[trigger] rows[j]).texts@.len() == 0 && rows[j].ints@
                    == xref_ints_of(first, xrefs[j]),
        decreases xrefs.len() - k,
    {
        let texts: Vec<String> = Vec::new();
        let mut ints: Vec<i64> = Vec::new();
        ints.push(first + (xrefs[k].name as i64));
        ints.push(first + (xrefs[k].hold as i64));
        assert(ints@ == xref_ints_of(first, xrefs[k as int]));
        rows.push(SqlRow { texts, ints });
        k += 1;
    }
    rows
}

/// Creates the three tables where they do not exist yet. Tables that exist
/// keep their rows.
fn initialize_tables(conn: &mut rusqlite::Connection) -> (done: Result<(), Error>)
    ensures
        done matches Err(e) ==> e == Error::Storage,
{
    run_plain(
        conn,
        "CREATE TABLE IF NOT EXISTS files (
            path TEXT PRIMARY KEY,
            mtime INTEGER,
            ptime INTEGER
        )",
    )?;
    run_plain(
        conn,
        "CREATE TABLE IF NOT EXISTS tags (
            id INTEGER PRIMARY KEY AUTOINCREMENT,
            kind INTEGER,
            beg_row INTEGER,
            beg_col INTEGER,
            end_row INTEGER,
            end_col INTEGER,
            path TEXT REFERENCES files(path),
            name TEXT
        )",
    )?;
    run_plain(
        conn,
        "CREATE TABLE IF NOT EXISTS xrefs (
            name INTEGER REFERENCES tags(id),
            hold INTEGER REFERENCES tags(id)
        )",
    )
}

/// Builds the index from the answers to the four queries that load a
/// database. An answer that is missing is a storage error; answers that are
/// all there give the index that their rows stand for, or the error that
/// they stand for none.
pub fn index_from_answers(
    files: Option<Vec<SqlRow>>,
    tags: Option<Vec<SqlRow>>,
    xrefs: Option<Vec<SqlRow>>,
    sequence: Option<Vec<SqlRow>>,
) -> (loaded: Result<IndexStore, Error>)
    ensures
        loaded is Ok <==> files is Some && tags is Some && xrefs is Some && sequence is Some
            && rows_load(
            files.unwrap()@,
            tags.unwrap()@,
            xrefs.unwrap()@,
            next_id_of_rows(sequence.unwrap()@),
        ),
        loaded matches Ok(index) ==> index.wf() && index@ == rows_index(
            files_of_rows(files.unwrap()@).unwrap(),
            tags_of_rows(tags.unwrap()@).unwrap(),
            xrefs_of_rows(xrefs.unwrap()@).unwrap(),
            next_id_of_rows(sequence.unwrap()@).unwrap(),
        ),
        loaded matches Err(e) ==> e == if files is Some && tags is Some && xrefs is Some
            && sequence is Some {
            Error::CorruptStore
        } else {
            Error::Storage
        },
{
    match (files, tags, xrefs, sequence) {
        (Some(files), Some(tags), Some(xrefs), Some(sequence)) => index_from_rows(
            &files,
            &tags,
            &xrefs,
            &sequence,
        ),
        _ => Err(Error::Storage),
    }
}

/// Reads the whole index from the database.
fn load(conn: &mut rusqlite::Connection) -> (loaded: Result<IndexStore, Error>)
    ensures
        loaded matches Ok(index) ==> index.wf(),
        loaded matches Err(e) ==> e == Error::Storage || e == Error::CorruptStore,
{
    let files = sql_query(conn, "SELECT path, mtime, ptime FROM files", 1, 3);
    let tags = sql_query(
        conn,
        "SELECT path, name, id, kind, beg_row, beg_col, end_row, end_col FROM tags ORDER BY id",
        2,
        8,
    );
    let xrefs = sql_query(conn, "SELECT name, hold FROM xrefs", 0, 2);
    let sequence = sql_query(conn, "SELECT seq FROM sqlite_sequence WHERE name = 'tags'", 0, 1);
    index_from_answers(files, tags, xrefs, sequence)
}

/// Deletes from the database what it holds of one file's tags: the
/// cross-references that touch one, then the tags.
fn delete_tags_of(conn: &mut rusqlite::Connection, path: &String) -> (done: Result<(), Error>)
    ensures
        done matches Err(e) ==> e == Error::Storage,
{
    let mut texts: Vec<String> = Vec::new();
    texts.push(path.clone());
    let ints: Vec<i64> = Vec::new();
    run(
        conn,
        "DELETE FROM xrefs
            WHERE name IN (SELECT id FROM tags WHERE path = ?1)
               OR hold IN (SELECT id FROM tags WHERE path = ?1)",
        &texts,
        &ints,
    )?;
    run(conn, "DELETE FROM tags WHERE path = ?1", &texts, &ints)
}

/// Writes a scan to the database: the files that are gone leave with their
/// tags, and every file that was seen is inserted or gets its new
/// modification time. With no file gone and none seen there is nothing to
/// write, and the database is not asked.
fn write_scan(conn: &mut rusqlite::Connection, gone: &Vec<String>, files: &Vec<FileInfo>) -> (done:
    Result<(), Error>)
    ensures
        done matches Err(e) ==> e == Error::Storage,
        gone@.len() == 0 && files@.len() == 0 ==> done is Ok,
{
    let mut i: usize = 0;
    while i < gone.len()
        invariant
            i <= gone.len(),
        decreases gone.len() - i,
    {
        delete_tags_of(conn, &gone[i])?;
        let mut texts: Vec<String> = Vec::new();
        texts.push(gone[i].clone());
        let ints: Vec<i64> = Vec::new();
        run(conn, "DELETE FROM files WHERE path = ?1", &texts, &ints)?;
        i += 1;
    }
    let mut k: usize = 0;
    while k < files.len()
        invariant
            k <= files.len(),
        decreases files.len() - k,
    {
        let mut texts: Vec<String> = Vec::new();
        texts.push(files[k].path.clone());
        let mut ints: Vec<i64> = Vec::new();
        ints.push(files[k].mtime);
        run(
            conn,
            "INSERT INTO files (path, mtime, ptime) VALUES (?1, ?2, 0)
                ON CONFLICT(path) DO UPDATE SET mtime = excluded.mtime",
            &texts,
            &ints,
        )?;
        k += 1;
    }
    Ok(())
}

/// Writes a report to the database: the file's former tags leave, the rows
/// of the new tags and of the cross-references between them are inserted,
/// and the file's analysis time is set.
fn write_report(
    conn: &mut rusqlite::Connection,
    path: &String,
    tag_rows: &Vec<SqlRow>,
    xref_rows: &Vec<SqlRow>,
    now: i64,
) -> (done: Result<(), Error>)
    ensures
        done matches Err(e) ==> e == Error::Storage,
{
    delete_tags_of(conn, path)?;
    let mut i: usize = 0;
    while i < tag_rows.len()
        invariant
            i <= tag_rows.len(),
        decreases tag_rows.len() - i,
    {
        run(
            conn,
            "INSERT INTO tags (path, name, id, kind, beg_row, beg_col, end_row, end_col)
                VALUES (?1, ?2, ?3, ?4, ?5, ?6, ?7, ?8)",
            &tag_rows[i].texts,
            &tag_rows[i].ints,
        )?;
        i += 1;
    }
    let mut k: usize = 0;
    while k < xref_rows.len()
        invariant
            k <= xref_rows.len(),
        decreases xref_rows.len() - k,
    {
        run(
            conn,
            "INSERT INTO xrefs (name, hold) VALUES (?1, ?2)",
            &xref_rows[k].texts,
            &xref_rows[k].ints,
        )?;
        k += 1;
    }
    let mut texts: Vec<String> = Vec::new();
    texts.push(path.clone());
    let mut ints: Vec<i64> = Vec::new();
    ints.push(now);
    run(conn, "UPDATE files SET ptime = ?2 WHERE path = ?1", &texts, &ints)
}

/// The index store: the index in memory, and the database that every change
/// is written through to.
pub struct SqliteClient {
    conn: rusqlite::Connection,
    index: IndexStore,
}

impl View for SqliteClient {
    type V = IndexView;

    closed spec fn view(&self) -> IndexView {
        self.index@
    }
}

impl SqliteClient {
    /// The store holds a consistent index.
    pub closed spec fn wf(&self) -> bool {
        self.index.wf()
    }

    /// A store that is well formed holds a consistent index.
    pub proof fn wf_view(&self)
        requires
            self.wf(),
        ensures
            self@.wf(),
    {
        self.index.wf_view();
    }

    /// The database connection that the store writes through to.
    pub closed spec fn connection(&self) -> rusqlite::Connection {
        self.conn
    }

    /// Takes in the outcome of loading a database: a store on the
    /// connection with the index that was loaded, or the error that loading
    /// gave.
    fn open_with(conn: rusqlite::Connection, loaded: Result<IndexStore, Error>) -> (opened: Result<
        SqliteClient,
        Error,
    >)
        requires
            loaded matches Ok(index) ==> index.wf(),
        ensures
            opened is Ok <==> loaded is Ok,
            opened matches Ok(client) ==> client.wf() && client@ == loaded.unwrap()@
                && client.connection() == conn,
            opened matches Err(e) ==> loaded matches Err(f) && e == f,
    {
        match loaded {
            Ok(index) => Ok(SqliteClient { conn, index }),
            Err(e) => Err(e),
        }
    }

    /// Opens the store on a database: creates the tables that are missing
    /// and reads the index that the database holds. Fails if the database
    /// fails or if what it holds is no consistent index.
    pub fn new(conn: rusqlite::Connection) -> (opened: Result<SqliteClient, Error>)
        ensures
            opened matches Ok(client) ==> client.wf(),
            opened matches Err(e) ==> e == Error::Storage || e == Error::CorruptStore,
    {
        let mut conn = conn;
        initialize_tables(&mut conn)?;
        let loaded = load(&mut conn);
        Self::open_with(conn, loaded)
    }

    /// Gives back the database connection that the store wrote through to.
    pub fn into_connection(self) -> (conn: rusqlite::Connection)
        ensures
            conn == self.connection(),
    {
        self.conn
    }

    /// Takes in the outcome of writing a scan: with the write done the index
    /// in memory follows, with the write failed it stays.
    fn commit_scan(&mut self, files: &Vec<FileInfo>, written: Result<(), Error>) -> (done: Result<
        (),
        Error,
    >)
        requires
            old(self).wf(),
            written matches Err(e) ==> e == Error::Storage,
        ensures
            final(self).wf(),
            done is Ok <==> written is Ok,
            done matches Err(e) ==> e == Error::Storage,
            done is Ok ==> final(self)@ == old(self)@.reconcile(views(files@)),
            done is Err ==> final(self)@ == old(self)@,
    {
        match written {
            Ok(()) => {
                self.index.reconcile(files);
                Ok(())
            },
            Err(e) => Err(e),
        }
    }

    /// Reconciles the index with a full scan of the workspace, in memory and
    /// in the database, in one transaction: records of files that the scan
    /// did not see go, with their tags and the cross-references that lose an
    /// end; every file that was seen gets the modification time reported,
    /// and a record with analysis time zero if it had none.
    ///
    /// If the database fails, the transaction is rolled back and the index
    /// is as before.
    pub fn startup_scan(&mut self, files: &Vec<FileInfo>) -> (done: Result<(), Error>)
        requires
            old(self).wf(),
        ensures
            final(self).wf(),
            done is Ok ==> final(self)@ == old(self)@.reconcile(views(files@)),
            done is Err ==> final(self)@ == old(self)@,
            done matches Err(e) ==> e == Error::Storage,
    {
        let gone = self.index.unobserved(files);
        match run_plain(&mut self.conn, "BEGIN") {
            Ok(()) => {},
            Err(e) => {
                return Err(e);
            },
        }
        let work = write_scan(&mut self.conn, &gone, files);
        let written = settle(&mut self.conn, work);
        self.commit_scan(files, written)
    }

    /// The files that need analysis: every file record whose tags are older
    /// than the file, each once, in no particular order. The answer comes
    /// from the index in memory.
    pub fn pending_analysis(&self) -> (pending: Vec<FileInfo>)
        requires
            self.wf(),
        ensures
            forall|k: int|
                0 <= k < pending.len() ==> {
                    &&& self@.is_pending((#[trigger] pending[k])@.path)
                    &&& self@.files[pending[k]@.path] == (FileTimes {
                        mtime: pending[k].mtime,
                        ptime: pending[k].ptime,
                    })
                },
            forall|path: Seq<char>| self@.is_pending(path) ==> observes(views(pending@), path),
            unique_paths(views(pending@)),
    {
        self.index.pending_analysis()
    }

    /// Takes in the outcome of writing a report that the index accepts: with
    /// the write done the index in memory follows, with the write failed it
    /// stays.
    fn commit_report(
        &mut self,
        path: &String,
        tags: &Vec<NewTag>,
        xrefs: &Vec<NewXref>,
        now: i64,
        written: Result<(), Error>,
    ) -> (done: Result<(), Error>)
        requires
            old(self).wf(),
            old(self)@.accepts(path@, views(tags@), xrefs@),
            written matches Err(e) ==> e == Error::Storage,
        ensures
            final(self).wf(),
            done is Ok <==> written is Ok,
            done matches Err(e) ==> e == Error::Storage,
            done is Ok ==> final(self)@ == old(self)@.replace(path@, views(tags@), xrefs@, now),
            done is Err ==> final(self)@ == old(self)@,
    {
        match written {
            Ok(()) => self.index.replace_tags_for_file(path, tags, xrefs, now),
            Err(e) => Err(e),
        }
    }

    /// Replaces the tags of a file by a report, in memory and in the
    /// database, all or nothing: the file's former tags and the
    /// cross-references that touched one go, the reported tags get fresh ids
    /// in the order of the report, the reported cross-references are stored
    /// between them, and the file counts as analyzed at `now`.
    ///
    /// A report that the index does not accept is refused with the reason
    /// before the database is touched. An accepted report with a position
    /// that does not fit the integers of the database is a `Storage` error,
    /// also before the database is touched. If the database fails, the
    /// transaction is rolled back, the error is `Storage`, and the index is
    /// as before.
    pub fn replace_tags_for_file(
        &mut self,
        path: &String,
        tags: &Vec<NewTag>,
        xrefs: &Vec<NewXref>,
        now: i64,
    ) -> (done: Result<(), Error>)
        requires
            old(self).wf(),
        ensures
            final(self).wf(),
            done is Ok ==> old(self)@.accepts(path@, views(tags@), xrefs@) && report_fits(
                views(tags@),
            ) && final(self)@ == old(self)@.replace(path@, views(tags@), xrefs@, now),
            done is Err ==> final(self)@ == old(self)@,
            !old(self)@.accepts(path@, views(tags@), xrefs@) ==> done == old(self)@.verdict(
                path@,
                views(tags@),
                xrefs@,
            ),
            old(self)@.accepts(path@, views(tags@), xrefs@) ==> done is Ok || done == Err::<
                (),
                Error,
            >(Error::Storage),
            old(self)@.accepts(path@, views(tags@), xrefs@) && !report_fits(views(tags@)) ==> done
                == Err::<(), Error>(Error::Storage),
    {
        match self.index.check_report(path, tags, xrefs) {
            Ok(()) => {},
            Err(e) => {
                return Err(e);
            },
        }
        proof {
            self.index.wf_view();
        }
        let first = self.index.next_id();
        let rows = match encode_tag_rows(first, path, tags) {
            Some(rows) => rows,
            None => {
                return Err(Error::Storage);
            },
        };
        match run_plain(&mut self.conn, "BEGIN") {
            Ok(()) => {},
            Err(e) => {
                return Err(e);
            },
        }
        let xref_rows = encode_xref_rows(first, xrefs, tags.len());
        let work = write_report(&mut self.conn, path, &rows, &xref_rows, now);
        let written = settle(&mut self.conn, work);
        self.commit_report(path, tags, xrefs, now, written)
    }

    /// The tags of a file, in the order of their ids.
    pub fn tags_for_file(&self, path: &String) -> (tags: Vec<TagRecord>)
        ensures
            views(tags@) == self@.tags.filter(tag_inside(path@)),
    {
        self.index.tags_for_file(path)
    }

    /// The tags of a file at a position: those whose span holds it, in the
    /// order of their ids.
    pub fn tags_at(&self, path: &String, row: usize, col: usize) -> (tags: Vec<TagRecord>)
        ensures
            views(tags@) == self@.tags.filter(tag_covering(path@, row, col)),
    {
        self.index.tags_at(path, row, col)
    }

    /// The cross-references that refer to a tag.
    pub fn xrefs_holding(&self, id: i64) -> (xrefs: Vec<XrefRecord>)
        ensures
            xrefs@ == self@.xrefs.filter(xref_holding(id)),
    {
        self.index.xrefs_holding(id)
    }

    /// The cross-references that lead from a tag to what it refers to.
    pub fn xrefs_naming(&self, id: i64) -> (xrefs: Vec<XrefRecord>)
        ensures
            xrefs@ == self@.xrefs.filter(xref_naming(id)),
    {
        self.index.xrefs_naming(id)
    }

    /// The record of a file, if the index has one.
    pub fn file(&self, path: &String) -> (found: Option<FileInfo>)
        requires
            self.wf(),
        ensures
            found is Some <==> self@.files.contains_key(path@),
            found matches Some(file) ==> file@.path == path@ && self@.files[path@] == (FileTimes {
                mtime: file.mtime,
                ptime: file.ptime,
            }),
    {
        self.index.file(path)
    }
}

} // verus!
