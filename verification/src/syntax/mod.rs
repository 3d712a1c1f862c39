//! Language analyzers and the registry that picks one by file suffix.

pub mod c;
pub mod text;
pub mod tree;

use vstd::prelude::*;
use crate::db::index::xrefs_in_range;
use crate::db::record::{views, FileInfo, FileView, NewTag, NewTagView, NewXref};
use crate::db::sqlite::SqliteClient;
use crate::db::store::filter_take_next;
use crate::syntax::c::{c_parses, c_tags, SyntaxTreeC};
use crate::syntax::text::{ends_with, is_suffix};
use crate::Error;

verus! {

/// What an analyzer reports of one source text.
pub struct Analysis {
    /// The symbol occurrences, in the order they were found.
    pub tags: Vec<NewTag>,
    /// The references between them, each end a position in `tags`.
    pub xrefs: Vec<NewXref>,
}

/// The capability of a language analyzer: from source text to the tags and
/// cross-references in it. An analyzer does not touch the index.
pub trait SyntaxTree {
    /// Analyzes a source text. The cross-references of the report stay
    /// within its tags.
    fn parser(&self, source: &String) -> (analysis: Result<Analysis, Error>)
        ensures
            analysis matches Ok(a) ==> xrefs_in_range(a.xrefs@, a.tags@.len()),
    ;
}

/// The analyzers that exist, one for each language.
#[derive(Debug, Clone, Copy, PartialEq, Eq, Structural)]
pub enum AnalyzerId {
    /// The analyzer for C.
    C,
}

/// The analyzer for files whose path ends in a suffix.
#[derive(Debug)]
pub struct Association {
    pub suffix: String,
    pub analyzer: AnalyzerId,
}

/// An association with its suffix as a sequence of characters.
pub struct AssociationView {
    pub suffix: Seq<char>,
    pub analyzer: AnalyzerId,
}

impl View for Association {
    type V = AssociationView;

    open spec fn view(&self) -> AssociationView {
        AssociationView { suffix: self.suffix@, analyzer: self.analyzer }
    }
}

/// The analyzer for a path by a table of associations: that of the first
/// association whose suffix the path ends with.
pub open spec fn analyzer_of(table: Seq<AssociationView>, path: Seq<char>) -> Option<AnalyzerId>
    decreases table.len(),
{
    if table.len() == 0 {
        None
    } else if is_suffix(path, table[0].suffix) {
        Some(table[0].analyzer)
    } else {
        analyzer_of(table.drop_first(), path)
    }
}

/// An analyzer gives a report of the source text: its parser gives a tree.
pub open spec fn analyzes(analyzer: AnalyzerId, source: Seq<char>) -> bool {
    match analyzer {
        AnalyzerId::C => c_parses(source),
    }
}

/// The tags that an analyzer reports of a source text.
pub open spec fn report_of(analyzer: AnalyzerId, source: Seq<char>) -> Seq<NewTagView> {
    match analyzer {
        AnalyzerId::C => c_tags(source),
    }
}

/// The files that a table of associations has an analyzer for.
pub open spec fn supported(table: Seq<AssociationView>) -> spec_fn(FileView) -> bool {
    |file: FileView| analyzer_of(table, file.path) is Some
}

/// The registry of analyzers: which analyzer takes a file, by the suffix of
/// its path.
#[derive(Debug)]
pub struct SyntaxParser {
    associations: Vec<Association>,
}

impl View for SyntaxParser {
    type V = Seq<AssociationView>;

    closed spec fn view(&self) -> Seq<AssociationView> {
        views(self.associations@)
    }
}

impl SyntaxParser {
    /// The registry with the analyzers that exist: C, for paths that end in
    /// `.c`.
    pub fn new() -> (parser: SyntaxParser)
        ensures
            parser@ == seq![AssociationView { suffix: ".c"@, analyzer: AnalyzerId::C }],
    {
        let mut associations: Vec<Association> = Vec::new();
        associations.push(Association { suffix: ".c".to_owned(), analyzer: AnalyzerId::C });
        let parser = SyntaxParser { associations };
        assert(parser@ == seq![AssociationView { suffix: ".c"@, analyzer: AnalyzerId::C }]);
        parser
    }

    /// The analyzer that takes the file, if there is one.
    pub fn analyzer_for(&self, path: &String) -> (analyzer: Option<AnalyzerId>)
        ensures
            analyzer == analyzer_of(self@, path@),
    {
        let mut i: usize = 0;
        assert(self@.skip(0) == self@);
        while i < self.associations.len()
            invariant
                i <= self.associations.len(),
                analyzer_of(self@, path@) == analyzer_of(self@.skip(i as int), path@),
            decreases self.associations.len() - i,
        {
            assert(self@.skip(i as int).drop_first() == self@.skip(i + 1));
            if ends_with(path.as_str(), self.associations[i].suffix.as_str()) {
                return Some(self.associations[i].analyzer);
            }
            i += 1;
        }
        None
    }

    /// Whether some analyzer takes the file.
    pub fn is_match_extension(&self, path: &String) -> (matched: bool)
        ensures
            matched == (analyzer_of(self@, path@) is Some),
    {
        self.analyzer_for(path).is_some()
    }

    /// The files of a list that some analyzer takes, in the order of the
    /// list.
    pub fn filter_file_suffix(&self, file_list: &Vec<FileInfo>) -> (kept: Vec<FileInfo>)
        ensures
            views(kept@) == views(file_list@).filter(supported(self@)),
    {
        let ghost all = views(file_list@);
        let ghost pred = supported(self@);
        let mut kept: Vec<FileInfo> = Vec::new();
        let mut i: usize = 0;
        assert(all.take(0).filter(pred) == views(kept@)) by {
            reveal(Seq::filter);
        }
        while i < file_list.len()
            invariant
                i <= file_list.len(),
                all == views(file_list@),
                pred == supported(self@),
                views(kept@) == all.take(i as int).filter(pred),
            decreases file_list.len() - i,
        {
            proof {
                filter_take_next(all, pred, i as int);
            }
            if self.is_match_extension(&file_list[i].path) {
                let ghost before = views(kept@);
                kept.push(file_list[i].clone());
                assert(views(kept@) == before.push(all[i as int]));
            }
            i += 1;
        }
        assert(all.take(file_list.len() as int) == all);
        kept
    }

    /// Analyzes the content of a file and stores what was found, if an
    /// analyzer takes the file: its tags are replaced by those that the
    /// analyzer reports of `source`, and it counts as analyzed at `now`. A
    /// file that no analyzer takes is left alone, which is no error.
    ///
    /// The error is `Parse` exactly where the analyzer gives no report, the
    /// index's own verdict where it refuses the report, and `Storage` only
    /// for a report that the index accepts. If the analysis or the store
    /// fails, the index is as before, the file's analysis time included: a
    /// file that fails stays pending and is tried again by every pass, until
    /// it succeeds or leaves the workspace.
    pub fn parser(&self, path: &String, source: &String, db: &mut SqliteClient, now: i64) -> (done:
        Result<(), Error>)
        requires
            old(db).wf(),
        ensures
            final(db).wf(),
            done is Err ==> final(db)@ == old(db)@,
            match analyzer_of(self@, path@) {
                None => done is Ok && final(db)@ == old(db)@,
                Some(analyzer) => {
                    let report = report_of(analyzer, source@);
                    let taken = old(db)@.accepts(path@, report, Seq::empty());
                    &&& done == Err::<(), Error>(Error::Parse) <==> !analyzes(analyzer, source@)
                    &&& analyzes(analyzer, source@) && !taken ==> done == old(db)@.verdict(
                        path@,
                        report,
                        Seq::empty(),
                    )
                    &&& done == Err::<(), Error>(Error::Storage) ==> analyzes(analyzer, source@)
                        && taken
                    &&& done is Ok ==> analyzes(analyzer, source@) && taken && final(db)@ == old(
                        db,
                    )@.replace(path@, report, Seq::empty(), now)
                },
            },
    {
        let analysis = match self.analyzer_for(path) {
            None => {
                return Ok(());
            },
            Some(AnalyzerId::C) => SyntaxTreeC::new().parser(source),
        };
        match analysis {
            Ok(report) => db.replace_tags_for_file(path, &report.tags, &report.xrefs, now),
            Err(e) => Err(e),
        }
    }
}

} // verus!
