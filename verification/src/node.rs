//! The document tree that the formatter walks.

use vstd::prelude::*;

verus! {

/// One attribute of an element. Names may repeat: the supplying tree does not
/// deduplicate attributes.
pub struct Attr {
    pub name: String,
    pub value: String,
}

/// One node of the parsed document tree. The external parser builds the whole
/// tree before the formatter runs; the formatter only reads it.
pub enum Node {
    /// The single root of the tree. Its children are ordered.
    Document { children: Vec<Node> },
    /// A leaf carrying a doctype declaration. The formatter only marks its
    /// presence; the name and identifiers are never rendered.
    Doctype { name: String, public_id: String, system_id: String },
    /// A leaf carrying a raw text run.
    Text { contents: String },
    /// A leaf carrying a comment, rendered verbatim.
    Comment { contents: String },
    /// An element: a tag name, its attributes in the order the supplying tree
    /// returns them, and its ordered children.
    Element { tag: String, attrs: Vec<Attr>, children: Vec<Node> },
    /// Never produced by a standard HTML parser. A tree that reaches the
    /// formatter must not contain one: see [`no_pi`].
    ProcessingInstruction { target: String, contents: String },
}

/// No node of the tree is a `ProcessingInstruction`. The upstream parser
/// guarantees this; the formatter requires it and so never aborts.
pub open spec fn no_pi(node: Node) -> bool
    decreases node,
{
    match node {
        Node::Document { children } => no_pi_list(children@),
        Node::Element { children, .. } => no_pi_list(children@),
        Node::ProcessingInstruction { .. } => false,
        _ => true,
    }
}

/// [`no_pi`] over every node of a list.
pub open spec fn no_pi_list(nodes: Seq<Node>) -> bool
    decreases nodes,
{
    nodes.len() == 0 || (no_pi(nodes[0]) && no_pi_list(nodes.drop_first()))
}

/// Nesting depth of a subtree: 1 for a leaf, one more than the deepest child
/// otherwise. Bounds the indentation the formatter ever computes.
pub open spec fn depth(node: Node) -> nat
    decreases node,
{
    match node {
        Node::Document { children } => 1 + depth_list(children@),
        Node::Element { children, .. } => 1 + depth_list(children@),
        _ => 1,
    }
}

/// Greatest [`depth`] over a list of nodes, 0 for the empty list.
pub open spec fn depth_list(nodes: Seq<Node>) -> nat
    decreases nodes,
{
    if nodes.len() == 0 {
        0
    } else {
        let d0 = depth(nodes[0]);
        let dr = depth_list(nodes.drop_first());
        if d0 >= dr {
            d0
        } else {
            dr
        }
    }
}

/// Each node of a list lies within the list's bound, and the list's `no_pi`
/// carries down to each node.
pub proof fn lemma_list_member(nodes: Seq<Node>, i: int)
    requires
        0 <= i < nodes.len(),
    ensures
        depth(nodes[i]) <= depth_list(nodes),
        no_pi_list(nodes) ==> no_pi(nodes[i]),
    decreases nodes.len(),
{
    if i > 0 {
        lemma_list_member(nodes.drop_first(), i - 1);
        assert(nodes.drop_first()[i - 1] == nodes[i]);
    }
}

} // verus!
