//! The tree walker: renders a document tree, depth first, as indented
//! pseudo-markup text, then re-displays the parser's diagnostics.

use vstd::prelude::*;

use crate::attrs::{attrs_text, push_attrs};
use crate::escape::{escape_default, escape_seq};
use crate::node::{depth, depth_list, lemma_list_member, no_pi, no_pi_list, Node};
use crate::text::{str_eq, trim_str, trimmed};

verus! {

/// `n` spaces: the indentation of one output line.
pub open spec fn spaces(n: nat) -> Seq<char> {
    Seq::new(n, |i: int| ' ')
}

/// The tag portion of an element line. The notation treats `div` as its
/// default tag and always suppresses it, whatever the element's attributes:
/// a `div` line begins directly with the shorthands, or with nothing at all.
pub open spec fn shown_tag(tag: Seq<char>) -> Seq<char> {
    if tag == "div"@ {
        Seq::empty()
    } else {
        tag
    }
}

/// The text emitted for one node at indentation `indent`.
///
/// - `Document`: `html! {`, the children at `indent + 4`, then `}`.
/// - `Doctype`: a fixed marker on its own line; nothing of it is rendered.
/// - `Text`: nothing when the contents trim to nothing, else the trimmed
///   contents, escaped, in double quotes.
/// - `Comment`: the contents verbatim between `/*` and `*/`, never escaped
///   and never trimmed.
/// - `Element`: the tag (see [`shown_tag`]) and attribute shorthands, then
///   `;` when childless, else a brace block with the children at
///   `indent + 4`.
/// - `ProcessingInstruction`: never reaches the formatter (see
///   [`no_pi`]).
pub open spec fn render_node(node: Node, indent: nat) -> Seq<char>
    decreases node,
{
    match node {
        Node::Document { children } => "html! {\n"@ + render_children(children@, indent + 4)
            + "}\n"@,
        Node::Doctype { .. } => spaces(indent) + "(DOCTYPE)\n"@,
        Node::Text { contents } => {
            if trimmed(contents@).len() == 0 {
                Seq::empty()
            } else {
                spaces(indent) + "\""@ + escape_seq(trimmed(contents@)) + "\"\n"@
            }
        },
        Node::Comment { contents } => spaces(indent) + "/* "@ + contents@ + " */\n"@,
        Node::Element { tag, attrs, children } => {
            let line = spaces(indent) + shown_tag(tag@) + attrs_text(attrs@);
            if children@.len() > 0 {
                line + " {\n"@ + render_children(children@, indent + 4) + spaces(indent) + "}\n"@
            } else {
                line + ";\n"@
            }
        },
        Node::ProcessingInstruction { .. } => Seq::empty(),
    }
}

/// The text emitted for a list of sibling nodes, in order, each at `indent`.
pub open spec fn render_children(nodes: Seq<Node>, indent: nat) -> Seq<char>
    decreases nodes,
{
    if nodes.len() == 0 {
        Seq::empty()
    } else {
        render_node(nodes[0], indent) + render_children(nodes.drop_first(), indent)
    }
}

/// One diagnostic line: four spaces, the message, a newline.
pub open spec fn report_line(msg: Seq<char>) -> Seq<char> {
    "    "@ + msg + "\n"@
}

/// The diagnostic lines, in the order supplied.
pub open spec fn report_lines(msgs: Seq<Seq<char>>) -> Seq<char>
    decreases msgs.len(),
{
    if msgs.len() == 0 {
        Seq::empty()
    } else {
        report_line(msgs[0]) + report_lines(msgs.drop_first())
    }
}

/// The whole error report: nothing when there are no diagnostics, else a
/// blank line, the fixed header, and one line per message.
pub open spec fn report_text(msgs: Seq<Seq<char>>) -> Seq<char> {
    if msgs.len() == 0 {
        Seq::empty()
    } else {
        "\nParse errors:\n"@ + report_lines(msgs)
    }
}

/// Appends `n` spaces.
fn push_spaces(out: &mut String, n: usize)
    ensures
        final(out)@ == old(out)@ + spaces(n as nat),
{
    let mut i: usize = 0;
    proof {
        assert(spaces(0) =~= Seq::<char>::empty());
        assert(out@ + Seq::<char>::empty() =~= out@);
    }
    while i < n
        invariant
            0 <= i <= n,
            out@ == old(out)@ + spaces(i as nat),
        decreases n - i,
    {
        out.append(" ");
        proof {
            reveal_strlit(" ");
            assert(old(out)@ + spaces(i as nat) + " "@ =~= old(out)@ + spaces((i + 1) as nat));
        }
        i += 1;
    }
}

/// Renders one node at `indent`, appending its lines to `out`.
pub fn format_node(node: &Node, indent: usize, out: &mut String)
    requires
        no_pi(*node),
        indent + 4 * depth(*node) <= usize::MAX,
    ensures
        final(out)@ == old(out)@ + render_node(*node, indent as nat),
    decreases *node,
{
    match node {
        Node::Document { children } => {
            out.append("html! {\n");
            format_children(children, indent + 4, out);
            out.append("}\n");
            proof {
                assert(old(out)@ + ("html! {\n"@ + render_children(children@, (indent + 4) as nat)
                    + "}\n"@) =~= old(out)@ + "html! {\n"@ + render_children(
                    children@,
                    (indent + 4) as nat,
                ) + "}\n"@);
            }
        },
        Node::Doctype { .. } => {
            push_spaces(out, indent);
            out.append("(DOCTYPE)\n");
            proof {
                assert(old(out)@ + (spaces(indent as nat) + "(DOCTYPE)\n"@) =~= old(out)@ + spaces(
                    indent as nat,
                ) + "(DOCTYPE)\n"@);
            }
        },
        Node::Text { contents } => {
            let t = trim_str(contents.as_str());
            if t.unicode_len() > 0 {
                push_spaces(out, indent);
                out.append("\"");
                let e = escape_default(t);
                out.append(e.as_str());
                out.append("\"\n");
                proof {
                    assert(old(out)@ + (spaces(indent as nat) + "\""@ + escape_seq(
                        trimmed(contents@),
                    ) + "\"\n"@) =~= old(out)@ + spaces(indent as nat) + "\""@ + escape_seq(
                        trimmed(contents@),
                    ) + "\"\n"@);
                }
            } else {
                proof {
                    assert(old(out)@ + Seq::<char>::empty() =~= old(out)@);
                }
            }
        },
        Node::Comment { contents } => {
            push_spaces(out, indent);
            out.append("/* ");
            out.append(contents.as_str());
            out.append(" */\n");
            proof {
                assert(old(out)@ + (spaces(indent as nat) + "/* "@ + contents@ + " */\n"@) =~= old(
                    out,
                )@ + spaces(indent as nat) + "/* "@ + contents@ + " */\n"@);
            }
        },
        Node::Element { tag, attrs, children } => {
            push_spaces(out, indent);
            if !str_eq(tag.as_str(), "div") {
                out.append(tag.as_str());
            } else {
                proof {
                    assert(out@ + Seq::<char>::empty() =~= out@);
                }
            }
            push_attrs(out, attrs);
            let ghost line = spaces(indent as nat) + shown_tag(tag@) + attrs_text(attrs@);
            proof {
                assert(out@ =~= old(out)@ + line);
            }
            if children.len() > 0 {
                out.append(" {\n");
                format_children(children, indent + 4, out);
                push_spaces(out, indent);
                out.append("}\n");
                proof {
                    assert(old(out)@ + (line + " {\n"@ + render_children(
                        children@,
                        (indent + 4) as nat,
                    ) + spaces(indent as nat) + "}\n"@) =~= old(out)@ + line + " {\n"@
                        + render_children(children@, (indent + 4) as nat) + spaces(indent as nat)
                        + "}\n"@);
                }
            } else {
                out.append(";\n");
                proof {
                    assert(old(out)@ + (line + ";\n"@) =~= old(out)@ + line + ";\n"@);
                }
            }
        },
        Node::ProcessingInstruction { .. } => {
            proof {
                assert(false);
            }
        },
    }
}

/// Renders a list of sibling nodes, in order, each at `indent`.
fn format_children(children: &Vec<Node>, indent: usize, out: &mut String)
    requires
        no_pi_list(children@),
        indent + 4 * depth_list(children@) <= usize::MAX,
    ensures
        final(out)@ == old(out)@ + render_children(children@, indent as nat),
    decreases children@,
{
    let n = children.len();
    let mut i: usize = 0;
    proof {
        assert(children@.skip(0) =~= children@);
    }
    while i < n
        invariant
            0 <= i <= n,
            n == children@.len(),
            no_pi_list(children@),
            indent + 4 * depth_list(children@) <= usize::MAX,
            out@ + render_children(children@.skip(i as int), indent as nat) == old(out)@
                + render_children(children@, indent as nat),
        decreases n - i,
    {
        proof {
            lemma_list_member(children@, i as int);
            assert(children@.skip(i as int).drop_first() =~= children@.skip(i + 1int));
            assert(children@.skip(i as int)[0] == children@[i as int]);
        }
        let ghost out0 = out@;
        format_node(&children[i], indent, out);
        proof {
            assert(out0 + render_node(children@[i as int], indent as nat) + render_children(
                children@.skip(i + 1int),
                indent as nat,
            ) =~= out0 + (render_node(children@[i as int], indent as nat) + render_children(
                children@.skip(i + 1int),
                indent as nat,
            )));
        }
        i += 1;
    }
    proof {
        assert(children@.skip(n as int) =~= Seq::<Node>::empty());
        assert(out@ + Seq::<char>::empty() =~= out@);
    }
}

/// Appends the error report for `errors`.
fn push_report(out: &mut String, errors: &Vec<String>)
    ensures
        final(out)@ == old(out)@ + report_text(errors.deep_view()),
{
    let n = errors.len();
    if n == 0 {
        proof {
            assert(out@ + Seq::<char>::empty() =~= out@);
        }
        return ;
    }
    out.append("\nParse errors:\n");
    let mut i: usize = 0;
    let ghost msgs = errors.deep_view();
    proof {
        assert(msgs.skip(0) =~= msgs);
    }
    while i < n
        invariant
            0 <= i <= n,
            n == errors@.len(),
            msgs == errors.deep_view(),
            out@ + report_lines(msgs.skip(i as int)) == old(out)@ + "\nParse errors:\n"@
                + report_lines(msgs),
        decreases n - i,
    {
        proof {
            assert(msgs.skip(i as int).drop_first() =~= msgs.skip(i + 1int));
            assert(msgs.skip(i as int)[0] == errors@[i as int]@);
        }
        let ghost out0 = out@;
        out.append("    ");
        out.append(errors[i].as_str());
        out.append("\n");
        proof {
            assert(out@ =~= out0 + report_line(errors@[i as int]@));
            assert(out0 + report_line(errors@[i as int]@) + report_lines(msgs.skip(i + 1int)) =~=
                out0 + (report_line(errors@[i as int]@) + report_lines(msgs.skip(i + 1int))));
        }
        i += 1;
    }
    proof {
        assert(msgs.skip(n as int) =~= Seq::<Seq<char>>::empty());
        assert(out@ + Seq::<char>::empty() =~= out@);
    }
}

/// Renders the whole document: the tree rooted at `root`, then, when the
/// external parser produced diagnostics, the error report.
pub fn format_document(root: &Node, errors: &Vec<String>) -> (out: String)
    requires
        no_pi(*root),
        4 * depth(*root) <= usize::MAX,
    ensures
        out@ == render_node(*root, 0) + report_text(errors.deep_view()),
{
    let mut out = String::new();
    format_node(root, 0, &mut out);
    push_report(&mut out, errors);
    proof {
        assert(Seq::<char>::empty() + render_node(*root, 0) =~= render_node(*root, 0));
    }
    out
}

} // verus!
