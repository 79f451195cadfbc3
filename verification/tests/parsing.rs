use ferropress::context::Context;
use ferropress::node::Node;
use ferropress::parser::{parse, Parser, State};

fn feed(parser: &mut Parser, source: &str) {
    for ch in source.chars() {
        parser.parse_ch(ch);
    }
}

#[test]
fn new_parser_is_blank_at_the_root() {
    let parser = Parser::new();
    assert_eq!(parser.state(), State::Blank);
    assert_eq!(parser.depth(), 0);
    assert!(parser.root().tag.is_none());
    assert!(parser.root().attrs.is_none());
    assert!(parser.root().content.is_none());
    assert!(parser.root().children.is_empty());
}

#[test]
fn comment_is_skipped_through_the_first_closing_mark() {
    let mut parser = Parser::new();
    feed(&mut parser, "<!-- a > b -- comment -->");
    assert_eq!(parser.state(), State::Blank);
    feed(&mut parser, "content");
    assert_eq!(parser.state(), State::Content);
    assert!(parser.root().children.is_empty());
    assert!(parser.root().content.is_none());
    assert_eq!(parser.depth(), 0);
}

#[test]
fn bare_angle_bracket_does_not_close_a_comment() {
    let mut parser = Parser::new();
    feed(&mut parser, "<!-- a > b");
    assert_eq!(parser.state(), State::Comment);
    feed(&mut parser, " -->");
    assert_eq!(parser.state(), State::Blank);
}

#[test]
fn unterminated_comment_swallows_the_rest() {
    let tree = parse("<!-- <a>x</a>");
    assert!(tree.children.is_empty());
}

#[test]
fn stray_closing_tag_at_the_root_is_absorbed() {
    let mut parser = Parser::new();
    feed(&mut parser, "</a>");
    assert_eq!(parser.state(), State::Blank);
    assert_eq!(parser.depth(), 0);
    assert!(parser.root().children.is_empty());
    let ctx = Context::new();
    assert_eq!(parser.to_html(&ctx), "");
}

#[test]
fn depth_follows_opening_and_closing_tags() {
    let mut parser = Parser::new();
    feed(&mut parser, "<a>");
    assert_eq!(parser.depth(), 1);
    feed(&mut parser, "<b>");
    assert_eq!(parser.depth(), 2);
    feed(&mut parser, "hi</b>");
    assert_eq!(parser.depth(), 1);
    feed(&mut parser, "<c></wrong>");
    assert_eq!(parser.depth(), 1);
    feed(&mut parser, "</a>");
    assert_eq!(parser.depth(), 0);
    let root = parser.into_root();
    assert_eq!(root.children.len(), 1);
    let a = &root.children[0];
    assert_eq!(a.tag.as_deref(), Some("a"));
    assert_eq!(a.children.len(), 2);
    assert_eq!(a.children[0].tag.as_deref(), Some("b"));
    assert_eq!(a.children[0].content.as_deref(), Some("hi"));
    assert_eq!(a.children[1].tag.as_deref(), Some("c"));
    assert!(a.children[1].content.is_none());
}

#[test]
fn attribute_text_is_stored_verbatim() {
    let tree = parse("<a href=\"x\" {{ k }}>t</a>");
    let a = &tree.children[0];
    assert_eq!(a.tag.as_deref(), Some("a"));
    assert_eq!(a.attrs.as_deref(), Some("href=\"x\" {{ k }}"));
    assert_eq!(a.content.as_deref(), Some("t"));
}

#[test]
fn space_before_the_bracket_leaves_attributes_absent() {
    let tree = parse("<a >");
    assert_eq!(tree.children[0].tag.as_deref(), Some("a"));
    assert!(tree.children[0].attrs.is_none());
}

#[test]
fn escaped_bracket_in_content_is_dropped() {
    let mut parser = Parser::new();
    feed(&mut parser, "<p>a\\<");
    assert_eq!(parser.state(), State::Content);
    feed(&mut parser, "b</p>");
    assert_eq!(parser.depth(), 0);
    let root = parser.into_root();
    assert_eq!(root.children[0].content.as_deref(), Some("a\\b"));
}

#[test]
fn unclosed_tags_leave_a_best_effort_tree() {
    let tree = parse("<a><b>");
    assert_eq!(tree.children.len(), 1);
    assert_eq!(tree.children[0].children.len(), 1);
    assert_eq!(tree.children[0].children[0].tag.as_deref(), Some("b"));
}

#[test]
fn characters_without_a_transition_are_dropped() {
    let mut parser = Parser::new();
    feed(&mut parser, " \n\t{}>");
    assert_eq!(parser.state(), State::Blank);
    feed(&mut parser, "<");
    assert_eq!(parser.state(), State::Tag);
    feed(&mut parser, " ?");
    assert_eq!(parser.state(), State::Tag);
    feed(&mut parser, "a-_");
    assert_eq!(parser.state(), State::TagOpen);
    feed(&mut parser, "b>");
    assert_eq!(parser.root().children[0].tag.as_deref(), Some("ab"));
}

#[test]
fn letters_and_digits_of_any_script_make_a_tag_name() {
    let tree = parse("<h1></h1><\u{e9}t\u{e9}></x>");
    assert_eq!(tree.children.len(), 2);
    assert_eq!(tree.children[0].tag.as_deref(), Some("h1"));
    assert_eq!(tree.children[1].tag.as_deref(), Some("\u{e9}t\u{e9}"));
}

#[test]
fn is_content_rejects_exactly_the_nine_delimiters() {
    for ch in ['<', '>', '\n', '\t', '\r', '\\', '{', '}', ' '] {
        assert!(!Parser::is_content(ch));
    }
    for ch in ['a', 'Z', '0', '/', '!', '-', '"', '\u{e9}'] {
        assert!(Parser::is_content(ch));
    }
}

#[test]
fn add_child_returns_the_index_of_the_new_child() {
    let mut root = Node::new_root();
    assert_eq!(root.add_child(Some("a".to_string()), None), 0);
    assert_eq!(root.add_child(Some("b".to_string()), Some("k=v".to_string())), 1);
    assert_eq!(root.children[1].tag.as_deref(), Some("b"));
    assert_eq!(root.children[1].attrs.as_deref(), Some("k=v"));
    assert!(root.children[1].content.is_none());
    assert!(root.children[1].children.is_empty());
}

#[test]
fn path_directed_edits_reach_the_node_they_name() {
    let mut root = Node::new_root();
    root.add_child(Some("a".to_string()), None);
    root.add_child(Some("b".to_string()), None);
    let path = vec![1usize];
    assert_eq!(root.add_child_at(&path, 0, Some("c".to_string()), None), 0);
    let deeper = vec![1usize, 0usize];
    root.set_content_at(&deeper, 0, "text".to_string());
    assert_eq!(root.children[1].children[0].content.as_deref(), Some("text"));
    assert_eq!(root.add_child_at(&deeper, 2, Some("top".to_string()), None), 2);
    assert_eq!(root.children[2].tag.as_deref(), Some("top"));
}

#[test]
fn add_child_to_current_node_moves_the_cursor_down() {
    let mut parser = Parser::new();
    parser.add_child_to_current_node(Some("a".to_string()), None);
    assert_eq!(parser.depth(), 1);
    parser.add_child_to_current_node(Some("b".to_string()), Some("x".to_string()));
    assert_eq!(parser.depth(), 2);
    assert_eq!(parser.root().children[0].children[0].attrs.as_deref(), Some("x"));
}

#[test]
fn cursor_and_parent_follow_the_tags() {
    let mut parser = Parser::new();
    assert!(parser.parent().is_none());
    assert!(parser.current().tag.is_none());
    feed(&mut parser, "<a><b");
    assert_eq!(parser.buf(), "b");
    assert_eq!(parser.current().tag.as_deref(), Some("a"));
    assert!(parser.parent().unwrap().tag.is_none());
    feed(&mut parser, ">");
    assert_eq!(parser.buf(), "");
    assert_eq!(parser.current().tag.as_deref(), Some("b"));
    assert_eq!(parser.parent().unwrap().tag.as_deref(), Some("a"));
    feed(&mut parser, "</b></a></a>");
    assert!(parser.parent().is_none());
    assert_eq!(parser.current().children.len(), 1);
}

#[test]
fn descend_follows_a_stretch_of_the_path() {
    let tree = parse("<a><b></b><c><d></d></c></a>");
    let path = vec![0usize, 1usize, 0usize];
    assert_eq!(tree.descend(&path, 0, 3).tag.as_deref(), Some("d"));
    assert_eq!(tree.descend(&path, 0, 2).tag.as_deref(), Some("c"));
    assert_eq!(tree.descend(&path, 0, 1).tag.as_deref(), Some("a"));
    assert!(tree.descend(&path, 1, 1).tag.is_none());
    assert_eq!(tree.children[0].descend(&path, 1, 3).tag.as_deref(), Some("d"));
}

#[test]
fn outline_lists_tags_behind_tabs() {
    let tree = parse("<a><b>x</b><c><d></d></c></a><e></e>");
    assert_eq!(tree.traverse_dfs(String::new(), 0), "\ta\n\t\tb\n\t\tc\n\t\t\td\n\te\n");
    assert_eq!(tree.traverse_dfs("tree:\n".to_string(), -1), "tree:\na\n\tb\n\tc\n\t\td\ne\n");
    assert_eq!(tree.traverse_dfs(String::new(), -3), "a\nb\nc\nd\ne\n");
    assert_eq!(Node::new_root().traverse_dfs(String::new(), 5), "");
}
