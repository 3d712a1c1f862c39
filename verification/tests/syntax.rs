use syntax_forest::db::{FileInfo, Span};
use syntax_forest::method::TreeSitterNodeKind;
use syntax_forest::syntax::c::{
    nodes_of_tree, parser_ast, pick_node, pick_nodes, tags_of_tree, SyntaxTreeC,
};
use syntax_forest::syntax::text::{ends_with, slice_text};
use syntax_forest::syntax::tree::{preorder_walk, SyntaxNode};
use syntax_forest::syntax::{AnalyzerId, SyntaxParser, SyntaxTree};
use syntax_forest::utils::path::{collect_files, scan_entry, WalkEntry};

fn parse(source: &str) -> tree_sitter::Tree {
    let mut parser = tree_sitter::Parser::new();
    parser.set_language(&tree_sitter_c::language()).unwrap();
    parser.parse(source, None).unwrap()
}

fn expected(node: tree_sitter::Node, depth: u32, out: &mut Vec<SyntaxNode>) {
    out.push(SyntaxNode {
        depth,
        kind_id: node.kind_id(),
        start_byte: node.start_byte(),
        end_byte: node.end_byte(),
        beg_row: node.start_position().row,
        beg_col: node.start_position().column,
        end_row: node.end_position().row,
        end_col: node.end_position().column,
    });
    for i in 0..node.child_count() {
        expected(node.child(i).unwrap(), depth + 1, out);
    }
}

fn preorder(source: &str) -> Vec<SyntaxNode> {
    let tree = parse(source);
    let mut out = Vec::new();
    expected(tree.root_node(), 0, &mut out);
    out
}

const PROGRAM: &str = "#include <stdio.h>\n#define ADD(a, b) ((a) + (b))\n\nstruct point { int x; int y; };\n\nstatic int twice(int v) {\n    if (v > 0) {\n        return ADD(v, v);\n    }\n    return 0;\n}\n";

#[test]
fn walk_visits_every_node_once_in_preorder() {
    let nodes = SyntaxTreeC::new().syntax_nodes(PROGRAM).unwrap();
    let reference = preorder(PROGRAM);
    assert!(reference.len() > 40);
    assert_eq!(nodes, reference);
}

#[test]
fn walk_of_a_single_node_tree() {
    let nodes = SyntaxTreeC::new().syntax_nodes("").unwrap();
    assert_eq!(nodes.len(), 1);
    assert_eq!(nodes[0].depth, 0);
    assert_eq!(nodes[0].kind_id, 155);
    assert_eq!((nodes[0].start_byte, nodes[0].end_byte), (0, 0));
}

#[test]
fn walk_of_a_chain_of_single_children() {
    let source = "// only a comment";
    let nodes = SyntaxTreeC::new().syntax_nodes(source).unwrap();
    let depths: Vec<u32> = nodes.iter().map(|n| n.depth).collect();
    assert_eq!(depths, vec![0, 1]);
    assert_eq!(nodes, preorder(source));
    assert_eq!((nodes[1].start_byte, nodes[1].end_byte), (0, source.len()));
}

#[test]
fn walk_of_a_deeply_nested_tree() {
    let mut source = String::from("int x = ");
    for _ in 0..300 {
        source.push('(');
    }
    source.push('1');
    for _ in 0..300 {
        source.push(')');
    }
    source.push_str(";\n");
    let nodes = SyntaxTreeC::new().syntax_nodes(&source).unwrap();
    assert_eq!(nodes, preorder(&source));
    assert!(nodes.iter().map(|n| n.depth).max().unwrap() >= 300);
}

#[test]
fn walk_from_an_inner_node_visits_the_rest_and_ends_on_the_root() {
    let tree = parse(PROGRAM);
    let reference = preorder(PROGRAM);
    let mut cursor = tree.walk();
    assert!(cursor.goto_first_child());
    assert!(cursor.goto_next_sibling());
    assert!(cursor.goto_first_child());
    let start = cursor.descendant_index();
    assert!(start > 2);
    let visited = preorder_walk(&mut cursor);
    assert_eq!(visited, reference[start..].to_vec());
    assert_eq!(cursor.descendant_index(), 0);
}

#[test]
fn walk_depths_form_a_preorder_listing() {
    let nodes = SyntaxTreeC::new().syntax_nodes(PROGRAM).unwrap();
    assert_eq!(nodes[0].depth, 0);
    for i in 1..nodes.len() {
        assert!(nodes[i].depth >= 1);
        assert!(nodes[i].depth <= nodes[i - 1].depth + 1);
    }
}

#[test]
fn node_kind_from_its_code() {
    assert_eq!(TreeSitterNodeKind::try_from(158u16), Ok(TreeSitterNodeKind::PreprocFunctionDef));
    assert_eq!(TreeSitterNodeKind::try_from(157u16), Err(157));
    assert_eq!(TreeSitterNodeKind::try_from(0u16), Err(0));
    assert_eq!(TreeSitterNodeKind::try_from(u16::MAX), Err(u16::MAX));
    assert_eq!(TreeSitterNodeKind::PreprocFunctionDef.code(), 158);
}

#[test]
fn node_kind_code_is_that_of_the_grammar() {
    let language = tree_sitter_c::language();
    assert_eq!(language.node_kind_for_id(158), Some("preproc_function_def"));
    assert_eq!(language.id_for_node_kind("preproc_function_def", true), 158);
}

fn node(kind_id: u16, start_byte: usize, end_byte: usize) -> SyntaxNode {
    SyntaxNode { depth: 1, kind_id, start_byte, end_byte, beg_row: 2, beg_col: 3, end_row: 4, end_col: 5 }
}

#[test]
fn pick_node_takes_recorded_kinds_only() {
    let source = "int a;\n#define F(x) x\n";
    let tag = pick_node(source, &node(158, 7, 22)).unwrap();
    assert_eq!(tag.kind, 158);
    assert_eq!(tag.name, "#define F(x) x\n");
    assert_eq!(tag.span, Span { beg_row: 2, beg_col: 3, end_row: 4, end_col: 5 });
    assert!(pick_node(source, &node(157, 7, 22)).is_none());
    assert!(pick_node(source, &node(1, 4, 5)).is_none());
    assert_eq!(pick_node(source, &node(158, 0, 0)).unwrap().name, "");
    assert_eq!(pick_node(source, &node(158, 0, source.len())).unwrap().name, source);
}

#[test]
fn pick_node_skips_ranges_that_are_no_text_of_the_source() {
    let source = "aé#define";
    assert_eq!(source.len(), 10);
    assert!(pick_node(source, &node(158, 3, 11)).is_none());
    assert!(pick_node(source, &node(158, 11, 12)).is_none());
    assert!(pick_node(source, &node(158, 5, 4)).is_none());
    assert!(pick_node(source, &node(158, 2, 5)).is_none());
    assert!(pick_node(source, &node(158, 0, 2)).is_none());
    assert_eq!(pick_node(source, &node(158, 1, 3)).unwrap().name, "é");
    assert_eq!(pick_node(source, &node(158, 3, 10)).unwrap().name, "#define");
}

#[test]
fn pick_nodes_keeps_the_order_of_the_walk() {
    let source = "0123456789";
    let nodes = vec![node(155, 0, 10), node(158, 0, 3), node(1, 1, 2), node(158, 4, 9), node(158, 9, 20)];
    let names: Vec<String> = pick_nodes(source, &nodes).into_iter().map(|t| t.name).collect();
    assert_eq!(names, vec!["012".to_string(), "45678".to_string()]);
    assert!(pick_nodes(source, &vec![]).is_empty());
}

#[test]
fn slice_text_by_byte_offsets() {
    assert_eq!(slice_text("hello", 1, 3), Some("el".to_string()));
    assert_eq!(slice_text("hello", 0, 5), Some("hello".to_string()));
    assert_eq!(slice_text("hello", 5, 5), Some(String::new()));
    assert_eq!(slice_text("hello", 3, 2), None);
    assert_eq!(slice_text("hello", 0, 6), None);
    assert_eq!(slice_text("", 0, 0), Some(String::new()));
    assert_eq!(slice_text("", 0, 1), None);
    assert_eq!(slice_text("日本語", 3, 6), Some("本".to_string()));
    assert_eq!(slice_text("日本語", 1, 6), None);
    assert_eq!(slice_text("日本語", 3, 7), None);
}

#[test]
fn ends_with_compares_suffixes() {
    assert!(ends_with("main.c", ".c"));
    assert!(ends_with(".c", ".c"));
    assert!(ends_with("anything", ""));
    assert!(ends_with("", ""));
    assert!(!ends_with("c", ".c"));
    assert!(!ends_with("main.cc", ".c"));
    assert!(!ends_with("main.c ", ".c"));
    assert!(!ends_with("main.C", ".c"));
    assert!(ends_with("héllo.c", "llo.c"));
    assert!(!ends_with("", ".c"));
}

#[test]
fn c_analyzer_reports_function_like_definitions() {
    let analysis = SyntaxTreeC::new().parser(&PROGRAM.to_string()).unwrap();
    assert_eq!(analysis.tags.len(), 1);
    assert!(analysis.xrefs.is_empty());
    let tag = &analysis.tags[0];
    assert_eq!(tag.kind, 158);
    assert_eq!(tag.name, "#define ADD(a, b) ((a) + (b))\n");
    assert_eq!(tag.span, Span { beg_row: 1, beg_col: 0, end_row: 2, end_col: 0 });
}

#[test]
fn c_analyzer_reports_tags_in_source_order() {
    let source = "#define A(x) x\nint v;\n#define PLAIN 1\n  #define B(y) (y)\n".to_string();
    let analysis = SyntaxTreeC::new().parser(&source).unwrap();
    let names: Vec<&str> = analysis.tags.iter().map(|t| t.name.as_str()).collect();
    assert_eq!(names, vec!["#define A(x) x\n", "#define B(y) (y)\n"]);
    assert_eq!(analysis.tags[1].span, Span { beg_row: 3, beg_col: 2, end_row: 4, end_col: 0 });
    assert!(SyntaxTreeC::new().parser(&String::new()).unwrap().tags.is_empty());
}

#[test]
fn parser_ast_classifies_the_nodes_of_the_walk() {
    let tree = parse(PROGRAM);
    let mut cursor = tree.walk();
    let tags = parser_ast(PROGRAM, &mut cursor);
    assert_eq!(tags.len(), 1);
    assert_eq!(tags[0].name, "#define ADD(a, b) ((a) + (b))\n");
}

fn info(path: &str) -> FileInfo {
    FileInfo { path: path.to_string(), mtime: 1, ptime: 0 }
}

#[test]
fn registry_matches_by_suffix() {
    let parser = SyntaxParser::new();
    assert!(parser.is_match_extension(&"src/main.c".to_string()));
    assert!(parser.is_match_extension(&".c".to_string()));
    assert!(!parser.is_match_extension(&"src/main.h".to_string()));
    assert!(!parser.is_match_extension(&"b.txt".to_string()));
    assert!(!parser.is_match_extension(&"main.c.orig".to_string()));
    assert!(!parser.is_match_extension(&"c".to_string()));
    assert!(!parser.is_match_extension(&String::new()));
    assert_eq!(parser.analyzer_for(&"a.c".to_string()), Some(AnalyzerId::C));
    assert_eq!(parser.analyzer_for(&"a.cpp".to_string()), None);
}

#[test]
fn registry_filters_a_file_list() {
    let parser = SyntaxParser::new();
    let list = vec![info("a.c"), info("b.txt"), info("dir/c.c"), info("d.h"), info("a.c")];
    let kept: Vec<String> = parser.filter_file_suffix(&list).into_iter().map(|f| f.path).collect();
    assert_eq!(kept, vec!["a.c".to_string(), "dir/c.c".to_string(), "a.c".to_string()]);
    assert!(parser.filter_file_suffix(&vec![]).is_empty());
    let kept = parser.filter_file_suffix(&vec![FileInfo { path: "x.c".to_string(), mtime: 7, ptime: 3 }]);
    assert_eq!((kept[0].mtime, kept[0].ptime), (7, 3));
}

fn entry(path: &str, is_file: bool, modified_secs: u64) -> WalkEntry {
    WalkEntry { path: path.to_string(), is_file, modified_secs }
}

#[test]
fn scan_keeps_regular_files() {
    let file = scan_entry(&entry("a.c", true, 1_700_000_000)).unwrap();
    assert_eq!((file.path.as_str(), file.mtime, file.ptime), ("a.c", 1_700_000_000, 0));
    assert!(scan_entry(&entry("dir", false, 1_700_000_000)).is_none());
    let files = collect_files(&vec![
        entry("root", false, 5),
        entry("root/a.c", true, 6),
        entry("root/sub", false, 7),
        entry("root/sub/b.txt", true, 8),
    ]);
    let listed: Vec<(String, i64, i64)> = files.into_iter().map(|f| (f.path, f.mtime, f.ptime)).collect();
    assert_eq!(listed, vec![("root/a.c".to_string(), 6, 0), ("root/sub/b.txt".to_string(), 8, 0)]);
}

#[test]
fn scan_reads_the_seconds_as_a_signed_number() {
    assert_eq!(scan_entry(&entry("a", true, 0)).unwrap().mtime, 0);
    assert_eq!(scan_entry(&entry("a", true, i64::MAX as u64)).unwrap().mtime, i64::MAX);
    assert_eq!(scan_entry(&entry("a", true, i64::MAX as u64 + 1)).unwrap().mtime, i64::MIN);
    assert_eq!(scan_entry(&entry("a", true, u64::MAX)).unwrap().mtime, -1);
}

#[test]
fn parser_ast_on_a_single_node_tree_leaves_the_cursor_on_the_root() {
    let tree = parse("");
    let mut cursor = tree.walk();
    let tags = parser_ast("", &mut cursor);
    assert!(tags.is_empty());
    assert_eq!(cursor.descendant_index(), 0);
    assert_eq!(cursor.node().id(), tree.root_node().id());
    assert_eq!(cursor.depth(), 0);
}

#[test]
fn parser_ast_on_a_chain_ends_on_the_top_node() {
    let source = "// only a comment";
    let tree = parse(source);
    let mut cursor = tree.walk();
    let tags = parser_ast(source, &mut cursor);
    assert!(tags.is_empty());
    assert_eq!(cursor.descendant_index(), 0);
    assert_eq!(cursor.node().id(), tree.root_node().id());
}

#[test]
fn parser_ast_from_the_root_ends_on_the_root() {
    let tree = parse(PROGRAM);
    let mut cursor = tree.walk();
    let tags = parser_ast(PROGRAM, &mut cursor);
    assert_eq!(tags.len(), 1);
    assert_eq!(cursor.descendant_index(), 0);
    assert_eq!(cursor.node().id(), tree.root_node().id());
    let again = parser_ast(PROGRAM, &mut cursor);
    assert_eq!(again.len(), 1);
    assert_eq!(again[0].name, tags[0].name);
}

#[test]
fn parser_ast_from_an_inner_node_classifies_the_rest() {
    let source = "#define A(x) x\n#define B(y) y\n#define C(z) z\n";
    let tree = parse(source);
    let mut cursor = tree.walk();
    assert!(cursor.goto_first_child());
    assert!(cursor.goto_next_sibling());
    let names: Vec<String> = parser_ast(source, &mut cursor).into_iter().map(|t| t.name).collect();
    assert_eq!(names, vec!["#define B(y) y\n".to_string(), "#define C(z) z\n".to_string()]);
    assert_eq!(cursor.descendant_index(), 0);
}

#[test]
fn nodes_and_tags_of_a_tree() {
    let tree = parse(PROGRAM);
    assert_eq!(nodes_of_tree(&tree), preorder(PROGRAM));
    assert_eq!(nodes_of_tree(&tree), SyntaxTreeC::new().syntax_nodes(PROGRAM).unwrap());
    let tags = tags_of_tree(PROGRAM, &tree);
    assert_eq!(tags.len(), 1);
    assert_eq!(tags[0].kind, 158);
    assert_eq!(tags[0].name, "#define ADD(a, b) ((a) + (b))\n");
    assert_eq!(tags[0].span, Span { beg_row: 1, beg_col: 0, end_row: 2, end_col: 0 });
    let empty = parse("");
    assert_eq!(nodes_of_tree(&empty).len(), 1);
    assert!(tags_of_tree("", &empty).is_empty());
}

#[test]
fn c_analyzer_gives_a_report_for_any_text() {
    for source in ["", "int", "}}}} ((((", "#define", "\u{0}\u{1}", "日本語 #define F(x) x\n"] {
        let analysis = SyntaxTreeC::new().parser(&source.to_string());
        assert!(analysis.is_ok());
        assert!(SyntaxTreeC::new().syntax_nodes(source).is_ok());
    }
}
