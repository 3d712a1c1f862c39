//! The analyzer for C.

use vstd::prelude::*;
use crate::db::record::{views, NewTag, NewTagView, NewXref, Span};
use crate::method::TreeSitterNodeKind;
use crate::syntax::text::{slice_text, text_between};
use crate::syntax::tree::{
    cursor_index, cursor_nodes, is_preorder, on_tree, preorder_walk, tree_nodes, tree_walk,
    SyntaxNode,
};
use crate::syntax::{Analysis, SyntaxTree};
use crate::Error;

verus! {

/// The syntax tree that the grammar of C gives a source text: its nodes,
/// listed as those of a tree are, or none where the parser gives no tree.
pub uninterp spec fn c_syntax(source: Seq<char>) -> Option<Seq<SyntaxNode>>;

/// The parser gives a tree for the source text.
pub open spec fn c_parses(source: Seq<char>) -> bool {
    c_syntax(source) is Some
}

/// `tree_sitter::Parser::parse`, on a new parser that was given
/// `tree_sitter_c::language`, with no earlier tree to start from, no timeout
/// and no cancellation flag. Claimed: whether there is a tree, and which,
/// depends on the source text alone.
#[verifier::external_body]
fn parse_c(source: &str) -> (tree: Option<tree_sitter::Tree>)
    ensures
        tree is Some <==> c_parses(source@),
        tree matches Some(t) ==> c_syntax(source@) == Some(tree_nodes(t)),
{
    let mut parser = tree_sitter::Parser::new();
    parser.set_language(&tree_sitter_c::language()).ok()?;
    parser.parse(source, None)
}

/// The analyzer for C source text.
pub struct SyntaxTreeC {}

/// Where a node lies in its file.
pub open spec fn span_of(node: SyntaxNode) -> Span {
    Span {
        beg_row: node.beg_row,
        beg_col: node.beg_col,
        end_row: node.end_row,
        end_col: node.end_col,
    }
}

/// The tag that a node gives: none unless its kind is one that is recorded
/// and its byte range is text of the source; then the kind's code, the
/// node's span, and as name the text of its byte range.
pub open spec fn tag_of_node(source: Seq<char>, node: SyntaxNode) -> Option<NewTagView> {
    match (
        TreeSitterNodeKind::of_code(node.kind_id),
        text_between(source, node.start_byte as int, node.end_byte as int),
    ) {
        (Some(kind), Some(name)) => Some(
            NewTagView { kind: kind.spec_code(), span: span_of(node), name },
        ),
        _ => None,
    }
}

/// The classification of nodes over one source.
pub open spec fn node_picker(source: Seq<char>) -> spec_fn(SyntaxNode) -> Option<NewTagView> {
    |node: SyntaxNode| tag_of_node(source, node)
}

/// The tags that a sequence of nodes gives, in the order of the nodes.
pub open spec fn tags_of_nodes(source: Seq<char>, nodes: Seq<SyntaxNode>) -> Seq<NewTagView> {
    nodes.filter_map(node_picker(source))
}

/// Classifies one node: the tag it gives, if any.
pub fn pick_node(source: &str, node: &SyntaxNode) -> (tag: Option<NewTag>)
    ensures
        match tag {
            Some(t) => tag_of_node(source@, *node) == Some(t@),
            None => tag_of_node(source@, *node) is None,
        },
{
    match TreeSitterNodeKind::try_from(node.kind_id) {
        Ok(kind) => match slice_text(source, node.start_byte, node.end_byte) {
            Some(name) => Some(
                NewTag {
                    kind: kind.code(),
                    span: Span {
                        beg_row: node.beg_row,
                        beg_col: node.beg_col,
                        end_row: node.end_row,
                        end_col: node.end_col,
                    },
                    name,
                },
            ),
            None => None,
        },
        Err(_) => None,
    }
}

/// Classifies the nodes of a walk, in order.
pub fn pick_nodes(source: &str, nodes: &Vec<SyntaxNode>) -> (tags: Vec<NewTag>)
    ensures
        views(tags@) == tags_of_nodes(source@, nodes@),
{
    let ghost pick = node_picker(source@);
    let mut tags: Vec<NewTag> = Vec::new();
    let mut i: usize = 0;
    assert(views(tags@) == nodes@.take(0).filter_map(pick));
    while i < nodes.len()
        invariant
            i <= nodes.len(),
            pick == node_picker(source@),
            views(tags@) == nodes@.take(i as int).filter_map(pick),
        decreases nodes.len() - i,
    {
        proof {
            nodes@.lemma_filter_map_take_succ(pick, i as int);
        }
        match pick_node(source, &nodes[i]) {
            Some(tag) => {
                let ghost before = views(tags@);
                tags.push(tag);
                assert(views(tags@) == before + seq![tag@]);
            },
            None => {},
        }
        i += 1;
    }
    assert(nodes@.take(nodes.len() as int) == nodes@);
    tags
}

/// Walks the tree from the cursor's node on and classifies every node of the
/// walk: the tags of the nodes in pre-order. The walk ends where going up
/// fails, so the cursor is left on the node it was created on.
pub fn parser_ast(source: &str, cursor: &mut tree_sitter::TreeCursor) -> (tags: Vec<NewTag>)
    requires
        on_tree(*old(cursor)),
    ensures
        views(tags@) == tags_of_nodes(
            source@,
            cursor_nodes(*old(cursor)).subrange(
                cursor_index(*old(cursor)),
                cursor_nodes(*old(cursor)).len() as int,
            ),
        ),
        cursor_nodes(*final(cursor)) == cursor_nodes(*old(cursor)),
        cursor_index(*final(cursor)) == 0,
{
    let visited = preorder_walk(cursor);
    pick_nodes(source, &visited)
}

/// The nodes of a syntax tree, in pre-order.
pub fn nodes_of_tree(tree: &tree_sitter::Tree) -> (nodes: Vec<SyntaxNode>)
    ensures
        nodes@ == tree_nodes(*tree),
        is_preorder(nodes@),
{
    let mut cursor = tree_walk(tree);
    preorder_walk(&mut cursor)
}

/// The tags of a syntax tree over its source text: those of its nodes, in
/// pre-order.
pub fn tags_of_tree(source: &str, tree: &tree_sitter::Tree) -> (tags: Vec<NewTag>)
    ensures
        views(tags@) == tags_of_nodes(source@, tree_nodes(*tree)),
{
    let mut cursor = tree_walk(tree);
    let ghost listed = cursor_nodes(cursor);
    let tags = parser_ast(source, &mut cursor);
    assert(listed.subrange(0, listed.len() as int) == listed);
    tags
}

impl SyntaxTreeC {
    /// The analyzer for C.
    pub fn new() -> Self {
        Self {  }
    }

    /// Parses C source text and lists the nodes of its syntax tree in
    /// pre-order. Fails exactly where the parser gives no tree.
    pub fn syntax_nodes(&self, source: &str) -> (nodes: Result<Vec<SyntaxNode>, Error>)
        ensures
            nodes is Ok <==> c_parses(source@),
            nodes matches Ok(n) ==> c_syntax(source@) == Some(n@) && is_preorder(n@),
            nodes matches Err(e) ==> e == Error::Parse,
    {
        match parse_c(source) {
            Some(tree) => Ok(nodes_of_tree(&tree)),
            None => Err(Error::Parse),
        }
    }
}

/// What the analyzer for C reports of a source text that parses: the tags
/// of the nodes of its syntax tree, in pre-order.
pub open spec fn c_tags(source: Seq<char>) -> Seq<NewTagView> {
    tags_of_nodes(source, c_syntax(source).unwrap())
}

impl SyntaxTree for SyntaxTreeC {
    /// Analyzes C source text: the tags of the nodes of its syntax tree, in
    /// pre-order. It reports no cross-references: none of the kinds that are
    /// recorded is a use of a symbol. It fails exactly where the parser
    /// gives no tree.
    fn parser(&self, source: &String) -> (analysis: Result<Analysis, Error>)
        ensures
            analysis is Ok <==> c_parses(source@),
            analysis matches Ok(a) ==> views(a.tags@) == c_tags(source@) && a.xrefs@
                == Seq::<NewXref>::empty(),
            analysis matches Err(e) ==> e == Error::Parse,
    {
        match parse_c(source.as_str()) {
            Some(tree) => {
                let tags = tags_of_tree(source.as_str(), &tree);
                let xrefs: Vec<NewXref> = Vec::new();
                Ok(Analysis { tags, xrefs })
            },
            None => Err(Error::Parse),
        }
    }
}

} // verus!
