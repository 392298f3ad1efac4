//! Facts that hold of the rendering for every input: what each node kind
//! emits, and how a child list is laid out inside its parent's block.

use vstd::prelude::*;

use crate::attrs::{attrs_text, classes_of, ids_of, lead_join, props_of};
use crate::escape::escape_seq;
use crate::node::{Attr, Node};
use crate::render::{render_children, render_node, shown_tag, spaces};
use crate::text::{all_ws, lemma_all_ws_trimmed_empty, lemma_not_all_ws_trimmed_nonempty, trimmed};

verus! {

/// A text node whose content is all whitespace emits nothing: not even a
/// blank line.
pub proof fn law_ws_text_silent(contents: String, indent: nat)
    requires
        all_ws(contents@),
    ensures
        render_node((Node::Text { contents }), indent) == Seq::<char>::empty(),
{
    lemma_all_ws_trimmed_empty(contents@);
}

/// A text node with non-whitespace content emits one line: the indent, then
/// the trimmed content, escaped, in double quotes.
pub proof fn law_text_line(contents: String, indent: nat)
    requires
        !all_ws(contents@),
    ensures
        render_node((Node::Text { contents }), indent) == spaces(indent) + "\""@ + escape_seq(
            trimmed(contents@),
        ) + "\"\n"@,
{
    lemma_not_all_ws_trimmed_nonempty(contents@);
}

/// Comment content is reproduced verbatim between `/*` and `*/`: no
/// trimming, no escaping, whatever characters it holds.
pub proof fn law_comment_verbatim(contents: String, indent: nat)
    ensures
        render_node((Node::Comment { contents }), indent) == spaces(indent) + "/* "@ + contents@
            + " */\n"@,
{
}

/// For an element whose tag is `div` and which has no attributes at all, the
/// rendered tag portion is empty: the line is the indent alone, closed by
/// `;` or by the child block.
pub proof fn law_div_tag_suppressed(tag: String, attrs: Vec<Attr>, children: Vec<Node>, indent: nat)
    requires
        tag@ == "div"@,
        attrs@.len() == 0,
    ensures
        render_node((Node::Element { tag, attrs, children }), indent) == spaces(indent) + (
        if children@.len() > 0 {
            " {\n"@ + render_children(children@, indent + 4) + spaces(indent) + "}\n"@
        } else {
            ";\n"@
        }),
{
    assert(lead_join(ids_of(attrs@), "#"@) =~= Seq::<char>::empty());
    assert(lead_join(classes_of(attrs@), "."@) =~= Seq::<char>::empty());
    assert(lead_join(props_of(attrs@), " "@) =~= Seq::<char>::empty());
    assert(spaces(indent) + Seq::<char>::empty() + (Seq::<char>::empty() + Seq::<char>::empty()
        + Seq::<char>::empty()) =~= spaces(indent));
    if children@.len() > 0 {
        assert(spaces(indent) + (" {\n"@ + render_children(children@, indent + 4) + spaces(indent)
            + "}\n"@) =~= spaces(indent) + " {\n"@ + render_children(children@, indent + 4)
            + spaces(indent) + "}\n"@);
    } else {
        assert(spaces(indent) + ";\n"@ =~= spaces(indent) + ";\n"@);
    }
}

/// An element with no children renders as a single line ending in `;`: no
/// child block and no closing brace follow.
pub proof fn law_childless_element(tag: String, attrs: Vec<Attr>, children: Vec<Node>, indent: nat)
    requires
        children@.len() == 0,
    ensures
        render_node((Node::Element { tag, attrs, children }), indent) == spaces(indent) + shown_tag(
            tag@,
        ) + attrs_text(attrs@) + ";\n"@,
{
}

/// An element with children ends its line with ` {`, renders each child at
/// `indent + 4`, and closes with `}` back at its own indent.
pub proof fn law_element_block(tag: String, attrs: Vec<Attr>, children: Vec<Node>, indent: nat)
    requires
        children@.len() > 0,
    ensures
        render_node((Node::Element { tag, attrs, children }), indent) == spaces(indent) + shown_tag(
            tag@,
        ) + attrs_text(attrs@) + " {\n"@ + render_children(children@, indent + 4) + spaces(indent)
            + "}\n"@,
{
}

/// Rendering a child list concatenates the children's renderings in order.
pub proof fn law_children_concat(a: Seq<Node>, b: Seq<Node>, indent: nat)
    ensures
        render_children(a + b, indent) == render_children(a, indent) + render_children(b, indent),
    decreases a.len(),
{
    if a.len() == 0 {
        assert(a + b =~= b);
        assert(Seq::<char>::empty() + render_children(b, indent) =~= render_children(b, indent));
    } else {
        law_children_concat(a.drop_first(), b, indent);
        assert((a + b).drop_first() =~= a.drop_first() + b);
        assert((a + b)[0] == a[0]);
        assert(render_node(a[0], indent) + (render_children(a.drop_first(), indent)
            + render_children(b, indent)) =~= (render_node(a[0], indent) + render_children(
            a.drop_first(),
            indent,
        )) + render_children(b, indent));
    }
}

/// Within a rendered child list, the `i`th child's lines stand between the
/// renderings of the children before it and after it, all at the same
/// indent: order is preserved and nothing is interleaved.
pub proof fn law_child_in_place(nodes: Seq<Node>, indent: nat, i: int)
    requires
        0 <= i < nodes.len(),
    ensures
        render_children(nodes, indent) == render_children(nodes.take(i), indent) + render_node(
            nodes[i],
            indent,
        ) + render_children(nodes.skip(i + 1), indent),
{
    assert(nodes.take(i) + nodes.skip(i) =~= nodes);
    law_children_concat(nodes.take(i), nodes.skip(i), indent);
    assert(nodes.skip(i)[0] == nodes[i]);
    assert(nodes.skip(i).drop_first() =~= nodes.skip(i + 1));
    assert(render_children(nodes.take(i), indent) + (render_node(nodes[i], indent)
        + render_children(nodes.skip(i + 1), indent)) =~= render_children(nodes.take(i), indent)
        + render_node(nodes[i], indent) + render_children(nodes.skip(i + 1), indent));
}

} // verus!
