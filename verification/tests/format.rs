use domfmt::node::{Attr, Node};
use domfmt::render::{format_document, format_node};

fn s(x: &str) -> String {
    String::from(x)
}

fn attr(name: &str, value: &str) -> Attr {
    Attr { name: s(name), value: s(value) }
}

fn elem(tag: &str, attrs: Vec<Attr>, children: Vec<Node>) -> Node {
    Node::Element { tag: s(tag), attrs, children }
}

fn text(contents: &str) -> Node {
    Node::Text { contents: s(contents) }
}

fn doc(children: Vec<Node>) -> Node {
    Node::Document { children }
}

fn render(root: Node) -> String {
    format_document(&root, &Vec::new())
}

fn render_at(node: Node, indent: usize) -> String {
    let mut out = String::new();
    format_node(&node, indent, &mut out);
    out
}

#[test]
fn round_trip_paragraph() {
    let tree = doc(vec![elem("p", vec![], vec![text("  hi  ")])]);
    assert_eq!(render(tree), "html! {\n    p {\n        \"hi\"\n    }\n}\n");
}

#[test]
fn empty_document() {
    assert_eq!(render(doc(vec![])), "html! {\n}\n");
}

#[test]
fn whitespace_text_emits_nothing() {
    let tree = doc(vec![text(" \t\r\n ")]);
    assert_eq!(render(tree), "html! {\n}\n");
}

#[test]
fn unicode_whitespace_text_emits_nothing() {
    let tree = doc(vec![text("\u{a0}\u{2003}\u{3000}")]);
    assert_eq!(render(tree), "html! {\n}\n");
}

#[test]
fn text_is_trimmed_escaped_and_quoted() {
    let tree = doc(vec![text("  hi\nthere ")]);
    assert_eq!(render(tree), "html! {\n    \"hi\\nthere\"\n}\n");
}

#[test]
fn text_trims_unicode_whitespace() {
    let tree = doc(vec![text("\u{a0}h\u{e9}\u{a0}")]);
    assert_eq!(render(tree), "html! {\n    \"h\\u{e9}\"\n}\n");
}

#[test]
fn comment_is_verbatim() {
    let node = Node::Comment { contents: s(" raw \\ \"text\" \u{1} ") };
    assert_eq!(render_at(node, 4), "    /*  raw \\ \"text\" \u{1}  */\n");
}

#[test]
fn comment_is_not_trimmed() {
    let tree = doc(vec![Node::Comment { contents: s("  padded  ") }]);
    assert_eq!(render(tree), "html! {\n    /*   padded   */\n}\n");
}

#[test]
fn doctype_marker_only() {
    let node = Node::Doctype { name: s("html"), public_id: s(""), system_id: s("") };
    let tree = doc(vec![node]);
    assert_eq!(render(tree), "html! {\n    (DOCTYPE)\n}\n");
}

#[test]
fn bare_div_tag_is_suppressed() {
    let tree = doc(vec![elem("div", vec![], vec![])]);
    assert_eq!(render(tree), "html! {\n    ;\n}\n");
}

#[test]
fn div_with_id_is_still_suppressed() {
    let tree = doc(vec![elem("div", vec![attr("id", "x")], vec![])]);
    assert_eq!(render(tree), "html! {\n    #x;\n}\n");
}

#[test]
fn div_with_children_is_suppressed() {
    let tree = doc(vec![elem("div", vec![], vec![elem("p", vec![], vec![])])]);
    assert_eq!(render(tree), "html! {\n     {\n        p;\n    }\n}\n");
}

#[test]
fn span_shorthand_line() {
    let attrs = vec![attr("id", "a"), attr("class", "b c"), attr("data-x", "y")];
    let node = elem("span", attrs, vec![]);
    assert_eq!(render_at(node, 0), "span#a.b.c data-x=\"y\";\n");
}

#[test]
fn childless_element_ends_with_semicolon() {
    let tree = doc(vec![elem("p", vec![], vec![])]);
    assert_eq!(render(tree), "html! {\n    p;\n}\n");
}

#[test]
fn children_are_indented_and_block_closed() {
    let tree = doc(vec![elem("section", vec![], vec![elem("p", vec![], vec![])])]);
    assert_eq!(render(tree), "html! {\n    section {\n        p;\n    }\n}\n");
}

#[test]
fn sibling_order_is_preserved() {
    let tree = doc(vec![elem("a", vec![], vec![]), elem("b", vec![], vec![]), text("x")]);
    assert_eq!(render(tree), "html! {\n    a;\n    b;\n    \"x\"\n}\n");
}

#[test]
fn repeated_ids_all_join() {
    let node = elem("p", vec![attr("id", "a"), attr("id", "b")], vec![]);
    assert_eq!(render_at(node, 0), "p#a#b;\n");
}

#[test]
fn empty_id_value_yields_bare_hash() {
    let node = elem("p", vec![attr("id", "")], vec![]);
    assert_eq!(render_at(node, 0), "p#;\n");
}

#[test]
fn class_value_splits_on_whitespace_runs() {
    let node = elem("p", vec![attr("class", "  b \t c  ")], vec![]);
    assert_eq!(render_at(node, 0), "p.b.c;\n");
}

#[test]
fn empty_class_value_yields_nothing() {
    let node = elem("p", vec![attr("class", "   ")], vec![]);
    assert_eq!(render_at(node, 0), "p;\n");
}

#[test]
fn repeated_class_attributes_merge_in_order() {
    let node = elem("p", vec![attr("class", "a"), attr("class", "b")], vec![]);
    assert_eq!(render_at(node, 0), "p.a.b;\n");
}

#[test]
fn buckets_keep_attribute_order() {
    let attrs = vec![attr("data-z", "1"), attr("id", "i"), attr("data-a", "2")];
    let node = elem("span", attrs, vec![]);
    assert_eq!(render_at(node, 0), "span#i data-z=\"1\" data-a=\"2\";\n");
}

#[test]
fn property_values_are_not_escaped() {
    let node = elem("p", vec![attr("title", "a\"b\\c")], vec![]);
    assert_eq!(render_at(node, 0), "p title=\"a\"b\\c\";\n");
}

#[test]
fn diagnostics_follow_the_tree() {
    let errors = vec![s("bad-char-in-tag")];
    let out = format_document(&doc(vec![]), &errors);
    assert_eq!(out, "html! {\n}\n\nParse errors:\n    bad-char-in-tag\n");
}

#[test]
fn diagnostics_keep_their_order() {
    let errors = vec![s("first"), s("second")];
    let out = format_document(&doc(vec![]), &errors);
    assert_eq!(out, "html! {\n}\n\nParse errors:\n    first\n    second\n");
}

#[test]
fn no_diagnostics_no_report() {
    let out = format_document(&doc(vec![]), &Vec::new());
    assert_eq!(out, "html! {\n}\n");
}
