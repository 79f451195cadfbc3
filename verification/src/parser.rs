//! The lexer and tree builder: a state machine that reads the source one
//! character at a time and grows the document tree as it goes.
//!
//! The machine never rejects its input. A character that means nothing in the
//! current state is dropped, and a closing tag at the root closes nothing.

use crate::context::Context;
use crate::node::{
    lemma_child_keeps_path, lemma_child_reachable, lemma_content_keeps_path, lemma_parent_path,
    render, text_of, Node, NodeView,
};
use crate::text::{alphanumeric, ends_with, is_suffix};
use vstd::prelude::*;

verus! {

/// What the machine is in the middle of.
#[derive(Clone, Copy, PartialEq, Eq, Debug)]
pub enum State {
    /// Collecting attribute text.
    Attr,
    /// Collecting the text of an element.
    Content,
    /// Inside a comment.
    Comment,
    /// Between elements.
    Blank,
    /// Just past a `<`.
    Tag,
    /// Collecting the name of an opening tag.
    TagOpen,
    /// Inside a closing tag.
    TagClose,
}

/// A character that can begin a run of text between elements: anything but
/// `<`, `>`, line feed, tab, carriage return, backslash, the two braces and
/// the space.
pub open spec fn is_content_char(ch: char) -> bool {
    ch != '<' && ch != '>' && ch != '\n' && ch != '\t' && ch != '\r' && ch != '\\' && ch != '{'
        && ch != '}' && ch != ' '
}

/// The machine as the contracts see it.
#[verifier::ext_equal]
pub struct ParserView {
    pub state: State,
    /// The text buffer: a tag name or a run of content in the making.
    pub buf: Seq<char>,
    /// What the comment in progress has held so far, `>` left out.
    pub comment_buf: Seq<char>,
    /// The attribute text in the making.
    pub attr_buf: Seq<char>,
    /// The tree built so far.
    pub root: NodeView,
    /// The cursor: the path from the root to the node under construction.
    pub path: Seq<usize>,
}

impl ParserView {
    /// The machine before it has read anything.
    pub open spec fn initial() -> ParserView {
        ParserView {
            state: State::Blank,
            buf: Seq::empty(),
            comment_buf: Seq::empty(),
            attr_buf: Seq::empty(),
            root: NodeView::root(),
            path: Seq::empty(),
        }
    }

    /// The node under construction.
    pub open spec fn current(self) -> NodeView {
        self.root.node_at(self.path)
    }

    /// How far below the root the cursor stands.
    pub open spec fn depth(self) -> nat {
        self.path.len()
    }

    /// The cursor leads to a node of the tree, and each buffer is empty
    /// outside the states that fill it.
    pub open spec fn well_formed(self) -> bool {
        &&& self.root.has_path(self.path)
        &&& (self.state is Blank || self.state is Tag || self.state is TagClose
            || self.state is Comment) ==> self.buf.len() == 0
        &&& !(self.state is Attr) ==> self.attr_buf.len() == 0
        &&& !(self.state is Comment) ==> self.comment_buf.len() == 0
    }

    /// Whether reading `ch` now completes an opening tag.
    pub open spec fn opens_element(self, ch: char) -> bool {
        (self.state is TagOpen || self.state is Attr) && ch == '>'
    }

    /// Whether reading `ch` now completes a closing tag.
    pub open spec fn closes_element(self, ch: char) -> bool {
        self.state is TagClose && ch == '>'
    }

    /// A new element under the current node becomes the current node. Its tag
    /// is the text buffer; its attributes are the attribute buffer, or absent
    /// where that is empty. Both buffers are cleared.
    pub open spec fn open_element(self) -> ParserView {
        let attrs = if self.attr_buf.len() > 0 {
            Some(self.attr_buf)
        } else {
            None
        };
        ParserView {
            state: State::Blank,
            buf: Seq::empty(),
            attr_buf: Seq::empty(),
            root: self.root.with_child_at(self.path, NodeView::element(Some(self.buf), attrs)),
            path: self.path.push(self.current().children.len() as usize),
            ..self
        }
    }

    /// The cursor moves to the parent of the current node. At the root, which
    /// has none, it stays.
    pub open spec fn close_element(self) -> ParserView {
        ParserView {
            state: State::Blank,
            path: if self.path.len() > 0 {
                self.path.drop_last()
            } else {
                self.path
            },
            ..self
        }
    }

    /// The text buffer becomes the content of the current node, and the
    /// closing tag is expected next.
    pub open spec fn commit_content(self) -> ParserView {
        ParserView {
            state: State::TagClose,
            buf: Seq::empty(),
            root: self.root.with_content_at(self.path, self.buf),
            ..self
        }
    }

    /// The machine after reading `ch`: the transition table. A pair of state
    /// and character that the table does not list changes nothing.
    pub open spec fn step(self, ch: char) -> ParserView {
        match self.state {
            State::Blank => if ch == '<' {
                ParserView { state: State::Tag, buf: Seq::empty(), ..self }
            } else if is_content_char(ch) {
                ParserView { state: State::Content, buf: seq![ch], ..self }
            } else {
                self
            },
            State::Tag => if ch == '/' {
                ParserView { state: State::TagClose, ..self }
            } else if ch == '!' {
                ParserView { state: State::Comment, ..self }
            } else if alphanumeric(ch) {
                ParserView { state: State::TagOpen, buf: seq![ch], ..self }
            } else {
                self
            },
            State::Comment => if ch != '>' {
                ParserView { comment_buf: self.comment_buf.push(ch), ..self }
            } else if is_suffix(seq!['-', '-'], self.comment_buf) {
                ParserView { state: State::Blank, comment_buf: Seq::empty(), ..self }
            } else {
                self
            },
            State::TagClose => if ch == '>' {
                self.close_element()
            } else {
                self
            },
            State::TagOpen => if ch == ' ' {
                ParserView { state: State::Attr, ..self }
            } else if ch == '>' {
                self.open_element()
            } else if alphanumeric(ch) {
                ParserView { buf: self.buf.push(ch), ..self }
            } else {
                self
            },
            State::Attr => if ch == '>' {
                self.open_element()
            } else {
                ParserView { attr_buf: self.attr_buf.push(ch), ..self }
            },
            State::Content => if ch != '<' {
                ParserView { buf: self.buf.push(ch), ..self }
            } else if is_suffix(seq!['\\'], self.buf) {
                self
            } else {
                self.commit_content()
            },
        }
    }

    /// The machine after reading all of `input`, from left to right.
    pub open spec fn run(self, input: Seq<char>) -> ParserView
        decreases input.len(),
    {
        if input.len() == 0 {
            self
        } else {
            self.run(input.drop_last()).step(input.last())
        }
    }
}

/// Only two things ever change the tree: completing an opening tag, which
/// adds a node, and ending a run of content, which gives the current node its
/// content. Every other character leaves the tree as it is; in particular
/// nothing read inside a comment creates a node.
pub proof fn lemma_step_keeps_tree(before: ParserView, ch: char)
    requires
        !before.opens_element(ch),
        !(before.state is Content && ch == '<' && !is_suffix(seq!['\\'], before.buf)),
    ensures
        before.step(ch).root == before.root,
{
}

/// Completing an opening tag adds exactly one node: the new last child of the
/// node the cursor was on, with the buffered name as its tag, without content
/// and without children. The cursor moves to it.
pub proof fn lemma_opening_adds_current(before: ParserView, ch: char)
    requires
        before.root.has_path(before.path),
        before.opens_element(ch),
        before.current().children.len() <= usize::MAX,
    ensures
        before.step(ch).root.has_path(before.step(ch).path),
        before.step(ch).current().tag == Some(before.buf),
        before.step(ch).current().content is None,
        before.step(ch).current().children.len() == 0,
{
    let attrs = if before.attr_buf.len() > 0 {
        Some(before.attr_buf)
    } else {
        None
    };
    lemma_child_reachable(
        before.root,
        before.path,
        NodeView::element(Some(before.buf), attrs),
        before.current().children.len() as usize,
    );
}

/// The lexer and tree builder.
pub struct Parser {
    state: State,
    buf: String,
    comment_buf: String,
    attr_buf: String,
    root: Node,
    path: Vec<usize>,
}

impl View for Parser {
    type V = ParserView;

    closed spec fn view(&self) -> ParserView {
        ParserView {
            state: self.state,
            buf: self.buf@,
            comment_buf: self.comment_buf@,
            attr_buf: self.attr_buf@,
            root: self.root@,
            path: self.path@,
        }
    }
}

impl Parser {
    /// What every parser made by [`Parser::new`] and driven by
    /// [`Parser::parse_ch`] satisfies.
    pub open spec fn well_formed(&self) -> bool {
        self@.well_formed()
    }

    /// A parser that has read nothing: an empty document with the cursor at its
    /// root.
    pub fn new() -> (parser: Parser)
        ensures
            parser.well_formed(),
            parser@ == ParserView::initial(),
    {
        Parser {
            state: State::Blank,
            buf: String::new(),
            comment_buf: String::new(),
            attr_buf: String::new(),
            root: Node::new_root(),
            path: Vec::new(),
        }
    }

    /// Whether `ch` can begin a run of text between elements.
    pub fn is_content(ch: char) -> (b: bool)
        ensures
            b == is_content_char(ch),
    {
        ch != '<' && ch != '>' && ch != '\n' && ch != '\t' && ch != '\r' && ch != '\\' && ch != '{'
            && ch != '}' && ch != ' '
    }

    /// Creates a new element under the current node and moves the cursor to
    /// it.
    pub fn add_child_to_current_node(&mut self, tag: Option<String>, attrs: Option<String>)
        requires
            old(self).well_formed(),
        ensures
            final(self).well_formed(),
            final(self)@ == (ParserView {
                root: old(self)@.root.with_child_at(
                    old(self)@.path,
                    NodeView::element(text_of(tag), text_of(attrs)),
                ),
                path: old(self)@.path.push(old(self)@.current().children.len() as usize),
                ..old(self)@
            }),
    {
        let ghost child = NodeView::element(text_of(tag), text_of(attrs));
        assert(self.path@.skip(0) =~= self.path@);
        let index = self.root.add_child_at(&self.path, 0, tag, attrs);
        proof {
            lemma_child_reachable(old(self)@.root, old(self)@.path, child, index);
        }
        self.path.push(index);
    }

    /// Reads one character.
    pub fn parse_ch(&mut self, ch: char)
        requires
            old(self).well_formed(),
        ensures
            final(self).well_formed(),
            final(self)@ == old(self)@.step(ch),
    {
        match self.state {
            State::Blank => {
                if ch == '<' {
                    self.state = State::Tag;
                    self.buf.clear();
                } else if Self::is_content(ch) {
                    self.state = State::Content;
                    self.buf.push(ch);
                    assert(self.buf@ =~= seq![ch]);
                }
            },
            State::Tag => {
                if ch == '/' {
                    self.state = State::TagClose;
                } else if ch == '!' {
                    self.state = State::Comment;
                } else if ch.is_alphanumeric() {
                    self.state = State::TagOpen;
                    self.buf.push(ch);
                    assert(self.buf@ =~= seq![ch]);
                }
            },
            State::Comment => {
                if ch != '>' {
                    self.comment_buf.push(ch);
                } else {
                    proof {
                        reveal_strlit("--");
                        assert("--"@ =~= seq!['-', '-']);
                    }
                    if ends_with(self.comment_buf.as_str(), "--") {
                        self.comment_buf.clear();
                        self.state = State::Blank;
                    }
                }
            },
            State::TagClose => {
                if ch == '>' {
                    if self.path.len() > 0 {
                        proof {
                            lemma_parent_path(self@.root, self@.path);
                        }
                        self.path.pop();
                    }
                    self.state = State::Blank;
                }
            },
            State::TagOpen => {
                if ch == ' ' {
                    self.state = State::Attr;
                } else if ch == '>' {
                    self.open_element();
                } else if ch.is_alphanumeric() {
                    self.buf.push(ch);
                }
            },
            State::Attr => {
                if ch == '>' {
                    self.open_element();
                } else {
                    self.attr_buf.push(ch);
                }
            },
            State::Content => {
                if ch != '<' {
                    self.buf.push(ch);
                } else {
                    proof {
                        reveal_strlit("\\");
                        assert("\\"@ =~= seq!['\\']);
                    }
                    if !ends_with(self.buf.as_str(), "\\") {
                        let content = self.buf.clone();
                        assert(self.path@.skip(0) =~= self.path@);
                        proof {
                            lemma_content_keeps_path(self@.root, self@.path, content@);
                        }
                        self.root.set_content_at(&self.path, 0, content);
                        self.buf.clear();
                        self.state = State::TagClose;
                    }
                }
            },
        }
    }

    /// Completes an opening tag from what the buffers hold.
    fn open_element(&mut self)
        requires
            old(self).well_formed(),
            old(self)@.state is TagOpen || old(self)@.state is Attr,
        ensures
            final(self).well_formed(),
            final(self)@ == old(self)@.open_element(),
    {
        let attrs = if !self.attr_buf.as_str().is_empty() {
            Some(self.attr_buf.clone())
        } else {
            None
        };
        let tag = Some(self.buf.clone());
        self.add_child_to_current_node(tag, attrs);
        self.state = State::Blank;
        self.buf.clear();
        self.attr_buf.clear();
    }

    /// Renders the tree built so far.
    pub fn to_html(&self, ctx: &Context) -> (out: String)
        ensures
            out@ == self@.root.rendered(-1, ctx@),
    {
        render(&self.root, ctx)
    }

    /// The state the machine is in.
    pub fn state(&self) -> (state: State)
        ensures
            state == self@.state,
    {
        self.state
    }

    /// How far below the root the cursor stands.
    pub fn depth(&self) -> (depth: usize)
        ensures
            depth == self@.depth(),
    {
        self.path.len()
    }

    /// The text buffer: the tag name or the run of content in the making.
    pub fn buf(&self) -> (buf: &str)
        ensures
            buf@ == self@.buf,
    {
        self.buf.as_str()
    }

    /// The node under construction.
    pub fn current(&self) -> (node: &Node)
        requires
            self.well_formed(),
        ensures
            node@ == self@.current(),
    {
        assert(self.path@.subrange(0, self.path@.len() as int) =~= self.path@);
        self.root.descend(&self.path, 0, self.path.len())
    }

    /// The parent of the node under construction: where the cursor goes
    /// when the next closing tag is read. The root has none.
    pub fn parent(&self) -> (node: Option<&Node>)
        requires
            self.well_formed(),
        ensures
            match node {
                Some(parent) => self@.depth() > 0 && parent@ == self@.root.node_at(
                    self@.path.drop_last(),
                ),
                None => self@.depth() == 0,
            },
    {
        if self.path.len() > 0 {
            proof {
                lemma_parent_path(self@.root, self@.path);
                assert(self.path@.subrange(0, self.path@.len() - 1) =~= self.path@.drop_last());
            }
            Some(self.root.descend(&self.path, 0, self.path.len() - 1))
        } else {
            None
        }
    }

    /// The tree built so far.
    pub fn root(&self) -> (root: &Node)
        ensures
            root@ == self@.root,
    {
        &self.root
    }

    /// Gives up the parser for the tree it has built.
    pub fn into_root(self) -> (root: Node)
        ensures
            root@ == self@.root,
    {
        self.root
    }
}

/// Parses a source text into its document tree.
pub fn parse(source: &str) -> (tree: Node)
    ensures
        tree@ == ParserView::initial().run(source@).root,
{
    let mut parser = Parser::new();
    for ch in chars: source.chars()
        invariant
            chars.seq() == source@,
            parser.well_formed(),
            parser@ == ParserView::initial().run(source@.take(chars.index())),
    {
        proof {
            let read = source@.take(chars.index() + 1);
            assert(read.drop_last() =~= source@.take(chars.index()));
            assert(read.last() == ch);
        }
        parser.parse_ch(ch);
    }
    assert(source@.take(source@.len() as int) =~= source@);
    parser.into_root()
}

} // verus!
