//! The syntax tree as tree-sitter presents it, and the iterative pre-order
//! walk over it.

use vstd::prelude::*;

verus! {

/// What the walk reads of one node of a syntax tree.
#[derive(Debug, Clone, Copy, PartialEq, Eq, Structural)]
pub struct SyntaxNode {
    /// Distance from the node the cursor started on.
    pub depth: u32,
    /// Numerical id of the node's kind in its grammar.
    pub kind_id: u16,
    /// Offset of the node's first byte in the source.
    pub start_byte: usize,
    /// Offset one past the node's last byte.
    pub end_byte: usize,
    /// Zero-based row of the node's start.
    pub beg_row: usize,
    /// Zero-based column of the node's start.
    pub beg_col: usize,
    /// Zero-based row of the node's end.
    pub end_row: usize,
    /// Zero-based column of the node's end.
    pub end_col: usize,
}

/// `tree_sitter::TreeCursor`; what the walk knows of one is said by
/// `cursor_nodes` and `cursor_index`.
#[verifier::external_type_specification]
#[verifier::external_body]
pub struct ExTreeCursor<'cursor>(tree_sitter::TreeCursor<'cursor>);

/// `tree_sitter::Tree`; what the library knows of one is said by
/// `tree_nodes`.
#[verifier::external_type_specification]
#[verifier::external_body]
pub struct ExTree(tree_sitter::Tree);

/// The nodes of a syntax tree, listed by descendant index: the root first,
/// every node before its children, children from first to last. Each entry
/// carries the node's depth below the root.
pub uninterp spec fn tree_nodes(tree: tree_sitter::Tree) -> Seq<SyntaxNode>;

/// The nodes that a cursor can reach, listed by descendant index, as those
/// of a tree are; the first is the node the cursor was created on.
pub uninterp spec fn cursor_nodes(cursor: tree_sitter::TreeCursor) -> Seq<SyntaxNode>;

/// The descendant index of the node a cursor stands on.
pub uninterp spec fn cursor_index(cursor: tree_sitter::TreeCursor) -> int;

/// A depth listing is that of a tree in pre-order: it starts at depth zero,
/// no later node is at depth zero, and a step goes down by at most one level.
pub open spec fn is_preorder(nodes: Seq<SyntaxNode>) -> bool {
    &&& nodes.len() > 0
    &&& nodes[0].depth == 0
    &&& forall|i: int|
        #![trigger nodes[i]]
        0 < i < nodes.len() ==> 1 <= nodes[i].depth <= nodes[i - 1].depth + 1
}

/// A cursor stands on a node of a tree listed in pre-order.
pub open spec fn on_tree(cursor: tree_sitter::TreeCursor) -> bool {
    &&& is_preorder(cursor_nodes(cursor))
    &&& 0 <= cursor_index(cursor) < cursor_nodes(cursor).len()
}

/// Node `i` has a child; its first child is then node `i + 1`.
pub open spec fn has_first_child(nodes: Seq<SyntaxNode>, i: int) -> bool {
    i + 1 < nodes.len() && nodes[i + 1].depth == nodes[i].depth + 1
}

/// The nodes after `i` and before `e` are exactly the descendants of `i`.
pub open spec fn subtree_end(nodes: Seq<SyntaxNode>, i: int, e: int) -> bool {
    &&& i < e <= nodes.len()
    &&& forall|m: int| #![trigger nodes[m]] i < m < e ==> nodes[m].depth > nodes[i].depth
    &&& (e == nodes.len() || nodes[e].depth <= nodes[i].depth)
}

/// Node `j` is the next sibling of node `i`.
pub open spec fn is_next_sibling(nodes: Seq<SyntaxNode>, i: int, j: int) -> bool {
    &&& subtree_end(nodes, i, j)
    &&& j < nodes.len()
    &&& nodes[j].depth == nodes[i].depth
}

/// Node `p` is the parent of node `i`.
pub open spec fn is_parent(nodes: Seq<SyntaxNode>, i: int, p: int) -> bool {
    &&& 0 <= p < i
    &&& nodes[p].depth + 1 == nodes[i].depth
    &&& forall|m: int| #![trigger nodes[m]] p < m < i ==> nodes[m].depth >= nodes[i].depth
}

/// `tree_sitter::Tree::walk`: a cursor on the root of the tree. Claimed: the
/// nodes of the tree form a tree listed in pre-order, the cursor reaches
/// exactly them, and it stands on the first.
#[verifier::external_body]
pub(crate) fn tree_walk(tree: &tree_sitter::Tree) -> (cursor: tree_sitter::TreeCursor<'_>)
    ensures
        is_preorder(cursor_nodes(cursor)),
        cursor_nodes(cursor) == tree_nodes(*tree),
        cursor_index(cursor) == 0,
{
    tree.walk()
}

/// `tree_sitter::TreeCursor::node` and `depth`, with the node's kind id, byte
/// range and positions read off it. Claimed, of a cursor on a tree: they are
/// those of the listed node the cursor stands on.
#[verifier::external_body]
pub(crate) fn current_node(cursor: &tree_sitter::TreeCursor) -> (node: SyntaxNode)
    requires
        on_tree(*cursor),
    ensures
        node == cursor_nodes(*cursor)[cursor_index(*cursor)],
{
    let node = cursor.node();
    SyntaxNode {
        depth: cursor.depth(),
        kind_id: node.kind_id(),
        start_byte: node.start_byte(),
        end_byte: node.end_byte(),
        beg_row: node.start_position().row,
        beg_col: node.start_position().column,
        end_row: node.end_position().row,
        end_col: node.end_position().column,
    }
}

/// `tree_sitter::TreeCursor::goto_first_child`. Claimed, of a cursor on a
/// tree: it moves to the next listed node and returns `true` when the
/// current node has a child, and otherwise stays and returns `false`.
#[verifier::external_body]
pub(crate) fn goto_first_child(cursor: &mut tree_sitter::TreeCursor) -> (moved: bool)
    requires
        on_tree(*old(cursor)),
    ensures
        cursor_nodes(*final(cursor)) == cursor_nodes(*old(cursor)),
        moved == has_first_child(cursor_nodes(*old(cursor)), cursor_index(*old(cursor))),
        cursor_index(*final(cursor)) == cursor_index(*old(cursor)) + (if moved { 1int } else { 0int }),
{
    cursor.goto_first_child()
}

/// `tree_sitter::TreeCursor::goto_next_sibling`. Claimed, of a cursor on a
/// tree: it moves to the next sibling and returns `true` when there is one,
/// and otherwise stays and returns `false`.
#[verifier::external_body]
pub(crate) fn goto_next_sibling(cursor: &mut tree_sitter::TreeCursor) -> (moved: bool)
    requires
        on_tree(*old(cursor)),
    ensures
        cursor_nodes(*final(cursor)) == cursor_nodes(*old(cursor)),
        moved <==> exists|j: int|
            is_next_sibling(cursor_nodes(*old(cursor)), cursor_index(*old(cursor)), j),
        moved ==> is_next_sibling(
            cursor_nodes(*old(cursor)),
            cursor_index(*old(cursor)),
            cursor_index(*final(cursor)),
        ),
        !moved ==> cursor_index(*final(cursor)) == cursor_index(*old(cursor)),
{
    cursor.goto_next_sibling()
}

/// `tree_sitter::TreeCursor::goto_parent`. Claimed, of a cursor on a tree: it
/// moves to the parent and returns `true` unless the cursor stands on the
/// node it was created on, where it stays and returns `false`.
#[verifier::external_body]
pub(crate) fn goto_parent(cursor: &mut tree_sitter::TreeCursor) -> (moved: bool)
    requires
        on_tree(*old(cursor)),
    ensures
        cursor_nodes(*final(cursor)) == cursor_nodes(*old(cursor)),
        moved <==> cursor_index(*old(cursor)) > 0,
        moved ==> is_parent(
            cursor_nodes(*old(cursor)),
            cursor_index(*old(cursor)),
            cursor_index(*final(cursor)),
        ),
        !moved ==> cursor_index(*final(cursor)) == cursor_index(*old(cursor)),
{
    cursor.goto_parent()
}

/// Two ends of the same subtree coincide.
proof fn subtree_end_unique(nodes: Seq<SyntaxNode>, i: int, a: int, b: int)
    requires
        subtree_end(nodes, i, a),
        subtree_end(nodes, i, b),
    ensures
        a == b,
{
    if a < b {
        assert(nodes[a].depth > nodes[i].depth);
    } else if b < a {
        assert(nodes[b].depth > nodes[i].depth);
    }
}

/// Where the subtree of a last child ends, the subtree of its parent ends.
proof fn subtree_end_of_parent(nodes: Seq<SyntaxNode>, i: int, p: int, e: int)
    requires
        is_preorder(nodes),
        is_parent(nodes, i, p),
        subtree_end(nodes, i, e),
        !is_next_sibling(nodes, i, e),
    ensures
        subtree_end(nodes, p, e),
{
    assert forall|m: int| p < m < e implies (#[trigger] nodes[m]).depth > nodes[p].depth by {
        if m < i {
            assert(nodes[m].depth >= nodes[i].depth);
        } else if m > i {
            assert(nodes[m].depth > nodes[i].depth);
        }
    }
}

/// Walks the tree from the node the cursor stands on, with the three moves of
/// the cursor and no recursion: down to the first child while there is one,
/// else on to the next sibling, else up, until going up fails.
///
/// Every node from the cursor's node to the last is visited exactly once, in
/// pre-order: the result is that stretch of the listing. The cursor ends on
/// the node it was created on.
pub fn preorder_walk(cursor: &mut tree_sitter::TreeCursor) -> (visited: Vec<SyntaxNode>)
    requires
        on_tree(*old(cursor)),
    ensures
        visited@ == cursor_nodes(*old(cursor)).subrange(
            cursor_index(*old(cursor)),
            cursor_nodes(*old(cursor)).len() as int,
        ),
        cursor_nodes(*final(cursor)) == cursor_nodes(*old(cursor)),
        cursor_index(*final(cursor)) == 0,
{
    let ghost nodes = cursor_nodes(*cursor);
    let ghost start = cursor_index(*cursor);
    let mut visited: Vec<SyntaxNode> = Vec::new();
    visited.push(current_node(cursor));
    let mut recurse = true;
    let mut finished = false;

    while !finished
        invariant
            is_preorder(nodes),
            cursor_nodes(*cursor) == nodes,
            0 <= start,
            0 <= cursor_index(*cursor) < start + visited.len() <= nodes.len(),
            visited@ == nodes.subrange(start, start + visited.len()),
            !finished && recurse ==> start + visited.len() == cursor_index(*cursor) + 1,
            !finished && !recurse ==> subtree_end(
                nodes,
                cursor_index(*cursor),
                start + visited.len(),
            ),
            finished ==> cursor_index(*cursor) == 0 && start + visited.len() == nodes.len(),
        decreases
            nodes.len() - visited.len(),
            nodes[cursor_index(*cursor)].depth,
            if finished { 0int } else { 1int },
    {
        let ghost at = cursor_index(*cursor);
        let ghost seen = visited@;
        if recurse && goto_first_child(cursor) {
            recurse = true;
            visited.push(current_node(cursor));
            assert(visited@ == nodes.subrange(start, start + visited.len()));
        } else {
            assert(subtree_end(nodes, at, start + seen.len()));
            if goto_next_sibling(cursor) {
                proof {
                    subtree_end_unique(nodes, at, cursor_index(*cursor), start + seen.len());
                }
                recurse = true;
                visited.push(current_node(cursor));
                assert(visited@ == nodes.subrange(start, start + visited.len()));
            } else {
                assert(!is_next_sibling(nodes, at, start + seen.len()));
                if goto_parent(cursor) {
                    proof {
                        subtree_end_of_parent(nodes, at, cursor_index(*cursor), start + seen.len());
                    }
                    recurse = false;
                } else {
                    finished = true;
                    assert(start + seen.len() == nodes.len()) by {
                        if start + seen.len() < nodes.len() {
                            assert(nodes[start + seen.len()].depth >= 1);
                        }
                    }
                }
            }
        }
    }
    visited
}

} // verus!
