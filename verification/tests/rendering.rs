use ferropress::context::Context;
use ferropress::node::Node;
use ferropress::node;
use ferropress::parser::{parse, Parser};

fn render(source: &str, ctx: &Context) -> String {
    node::render(&parse(source), ctx)
}

#[test]
fn nested_elements_round_trip_with_indentation() {
    let ctx = Context::new();
    assert_eq!(render("<a><b>hi</b></a>", &ctx), "<a>\n  <b>hi</b>\n</a>\n");
}

#[test]
fn placeholder_inside_content_is_replaced_by_its_value() {
    let mut ctx = Context::new();
    ctx.insert("variable".to_string(), "1234".to_string());
    assert_eq!(render("<p>id {{ variable }}</p>", &ctx), "<p>id 1234</p>\n");
}

#[test]
fn missing_key_inside_content_renders_the_default() {
    let ctx = Context::new();
    assert_eq!(render("<p>id {{ missing }}.</p>", &ctx), "<p>id CTX MISS.</p>\n");
}

#[test]
fn braces_between_elements_are_dropped_before_content_begins() {
    let mut ctx = Context::new();
    ctx.insert("variable".to_string(), "1234".to_string());
    assert_eq!(render("<p>{{ variable }}</p>", &ctx), "<p>variable }}</p>\n");
}

#[test]
fn attributes_are_kept_verbatim_and_substituted() {
    let mut ctx = Context::new();
    ctx.insert("target".to_string(), "/home".to_string());
    assert_eq!(
        render("<a href=\"{{ target }}\" class=\"x y\">go</a>", &ctx),
        "<a href=\"/home\" class=\"x y\">go</a>\n"
    );
}

#[test]
fn three_levels_are_indented_two_spaces_each() {
    let ctx = Context::new();
    assert_eq!(
        render("<a><b><c>x</c></b><d></d></a>", &ctx),
        "<a>\n  <b>\n    <c>x</c>\n  </b>\n  <d>\n  </d>\n</a>\n"
    );
}

#[test]
fn empty_document_renders_to_nothing() {
    let ctx = Context::new();
    assert_eq!(render("", &ctx), "");
    assert_eq!(Node::new_root().to_html(String::new(), -1, &ctx), "");
}

#[test]
fn output_is_appended_to_what_is_there() {
    let ctx = Context::new();
    let tree = parse("<p>x</p>");
    assert_eq!(tree.to_html("head:".to_string(), -1, &ctx), "head:<p>x</p>\n");
}

#[test]
fn depth_gives_the_indentation_of_a_tagged_node() {
    let ctx = Context::new();
    let mut node = Node::new_root();
    node.tag = Some("div".to_string());
    assert_eq!(node.to_html(String::new(), 2, &ctx), "    <div>\n    </div>\n");
    assert_eq!(node.to_html(String::new(), 0, &ctx), "<div>\n</div>\n");
    assert_eq!(node.to_html(String::new(), -3, &ctx), "<div>\n</div>\n");
}

#[test]
fn closing_tag_sits_flush_against_content() {
    let ctx = Context::new();
    let mut node = Node::new_root();
    node.tag = Some("em".to_string());
    node.content = Some("now".to_string());
    assert_eq!(node.to_html(String::new(), 3, &ctx), "      <em>now</em>\n");
}

#[test]
fn content_of_a_node_hides_its_children() {
    let ctx = Context::new();
    let mut node = Node::new_root();
    node.tag = Some("a".to_string());
    node.add_child(Some("b".to_string()), None);
    node.content = Some("text".to_string());
    assert_eq!(node.to_html(String::new(), 0, &ctx), "<a>text</a>\n");
}

#[test]
fn rendering_twice_gives_the_same_text() {
    let mut ctx = Context::new();
    ctx.insert("who".to_string(), "world".to_string());
    let mut parser = Parser::new();
    for ch in "<div id=\"{{ who }}\"><p>hello {{ who }}</p></div>".chars() {
        parser.parse_ch(ch);
    }
    let first = parser.to_html(&ctx);
    let second = parser.to_html(&ctx);
    assert_eq!(first, second);
    assert_eq!(first, "<div id=\"world\">\n  <p>hello world</p>\n</div>\n");
}
