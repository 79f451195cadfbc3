//! The document tree and its rendering.
//!
//! A node owns its children, so the tree is a tree by construction. A position
//! in it is the path of child indices that leads there from the root.

use crate::context::Context;
use crate::placeholder::{inject_context, injected};
use vstd::prelude::*;
use vstd::string::StringExecFns;

verus! {

/// The text of an optional string.
pub open spec fn text_of(s: Option<String>) -> Option<Seq<char>> {
    match s {
        Some(t) => Some(t@),
        None => None,
    }
}

/// Two spaces for each level of nesting; nothing at level zero and above it.
pub open spec fn indentation(depth: int) -> Seq<char> {
    Seq::new(
        if depth > 0 {
            (2 * depth) as nat
        } else {
            0
        },
        |i: int| ' ',
    )
}

/// One tab for each level of nesting; nothing at level zero and above it.
pub open spec fn tabs(depth: int) -> Seq<char> {
    Seq::new(
        if depth > 0 {
            depth as nat
        } else {
            0
        },
        |i: int| '\t',
    )
}

/// A node as the contracts see it: texts and an ordered list of children.
#[verifier::ext_equal]
pub struct NodeView {
    pub tag: Option<Seq<char>>,
    pub attrs: Option<Seq<char>>,
    pub content: Option<Seq<char>>,
    pub children: Seq<NodeView>,
}

impl NodeView {
    /// The root of an empty document: no tag, no attributes, no content, no
    /// children.
    pub open spec fn root() -> NodeView {
        NodeView { tag: None, attrs: None, content: None, children: Seq::empty() }
    }

    /// A freshly opened element: it has neither content nor children yet.
    pub open spec fn element(tag: Option<Seq<char>>, attrs: Option<Seq<char>>) -> NodeView {
        NodeView { tag, attrs, content: None, children: Seq::empty() }
    }

    /// This node with `child` as its new last child.
    pub open spec fn with_child(self, child: NodeView) -> NodeView {
        NodeView { children: self.children.push(child), ..self }
    }

    /// This node with `content` as its content.
    pub open spec fn with_content(self, content: Seq<char>) -> NodeView {
        NodeView { content: Some(content), ..self }
    }

    /// Whether `path` leads to a node of this tree.
    pub open spec fn has_path(self, path: Seq<usize>) -> bool
        decreases path.len(),
    {
        path.len() == 0 || (path[0] < self.children.len() && self.children[path[0] as int].has_path(
            path.drop_first(),
        ))
    }

    /// The node that `path` leads to.
    pub open spec fn node_at(self, path: Seq<usize>) -> NodeView
        recommends
            self.has_path(path),
        decreases path.len(),
    {
        if path.len() == 0 {
            self
        } else {
            self.children[path[0] as int].node_at(path.drop_first())
        }
    }

    /// This tree with `child` appended to the children of the node at `path`.
    /// A path that leads nowhere changes nothing.
    pub open spec fn with_child_at(self, path: Seq<usize>, child: NodeView) -> NodeView
        decreases path.len(),
    {
        if path.len() == 0 {
            self.with_child(child)
        } else if path[0] < self.children.len() {
            NodeView {
                children: self.children.update(
                    path[0] as int,
                    self.children[path[0] as int].with_child_at(path.drop_first(), child),
                ),
                ..self
            }
        } else {
            self
        }
    }

    /// This tree with `content` as the content of the node at `path`. A path
    /// that leads nowhere changes nothing.
    pub open spec fn with_content_at(self, path: Seq<usize>, content: Seq<char>) -> NodeView
        decreases path.len(),
    {
        if path.len() == 0 {
            self.with_content(content)
        } else if path[0] < self.children.len() {
            NodeView {
                children: self.children.update(
                    path[0] as int,
                    self.children[path[0] as int].with_content_at(path.drop_first(), content),
                ),
                ..self
            }
        } else {
            self
        }
    }

    /// The opening tag, indented: `<tag>` or `<tag attrs>` with the
    /// placeholders of `attrs` replaced. A node without a tag has none.
    pub open spec fn opening(self, depth: int, ctx: Map<Seq<char>, Seq<char>>) -> Seq<char> {
        match self.tag {
            Some(tag) => indentation(depth) + seq!['<'] + tag + (match self.attrs {
                Some(attrs) => seq![' '] + injected(attrs, ctx),
                None => Seq::empty(),
            }) + seq!['>'],
            None => Seq::empty(),
        }
    }

    /// The closing tag and the line break that ends it. It is indented like
    /// the opening tag, unless it follows content: then it sits flush against
    /// the content. A node without a tag has none.
    pub open spec fn closing(self, depth: int) -> Seq<char> {
        match self.tag {
            Some(tag) => (if self.content is Some {
                Seq::empty()
            } else {
                indentation(depth)
            }) + seq!['<', '/'] + tag + seq!['>', '\n'],
            None => Seq::empty(),
        }
    }

    /// The text that this node renders to at nesting level `depth`.
    ///
    /// Between its opening and its closing tag a node with content shows the
    /// content, placeholders replaced, and nothing else. A node without
    /// content ends the line of its opening tag and shows its children, one
    /// level deeper.
    pub open spec fn rendered(self, depth: int, ctx: Map<Seq<char>, Seq<char>>) -> Seq<char>
        decreases self,
    {
        self.opening(depth, ctx) + (match self.content {
            Some(content) => injected(content, ctx),
            None => (if self.tag is Some {
                seq!['\n']
            } else {
                Seq::empty()
            }) + Self::rendered_all(self.children, depth + 1, ctx),
        }) + self.closing(depth)
    }

    /// The outline of this subtree: the tag of every element on a line of its
    /// own, behind one tab for each level of nesting, parents before children.
    /// Nodes without a tag have no line, but count as a level.
    pub open spec fn outline(self, depth: int) -> Seq<char>
        decreases self,
    {
        (match self.tag {
            Some(tag) => tabs(depth) + tag + seq!['\n'],
            None => Seq::empty(),
        }) + Self::outline_all(self.children, depth + 1)
    }

    /// The outlines of `nodes`, one after the other.
    pub open spec fn outline_all(nodes: Seq<NodeView>, depth: int) -> Seq<char>
        decreases nodes,
    {
        if nodes.len() == 0 {
            Seq::empty()
        } else {
            Self::outline_all(nodes.drop_last(), depth) + nodes.last().outline(depth)
        }
    }

    /// The renderings of `nodes`, one after the other.
    pub open spec fn rendered_all(
        nodes: Seq<NodeView>,
        depth: int,
        ctx: Map<Seq<char>, Seq<char>>,
    ) -> Seq<char>
        decreases nodes,
    {
        if nodes.len() == 0 {
            Seq::empty()
        } else {
            Self::rendered_all(nodes.drop_last(), depth, ctx) + nodes.last().rendered(depth, ctx)
        }
    }
}

/// A path that leads to a node still does so after a child was appended
/// somewhere along it or at its end.
pub proof fn lemma_child_keeps_path(tree: NodeView, path: Seq<usize>, child: NodeView)
    requires
        tree.has_path(path),
    ensures
        tree.with_child_at(path, child).has_path(path),
    decreases path.len(),
{
    if path.len() > 0 {
        lemma_child_keeps_path(tree.children[path[0] as int], path.drop_first(), child);
    }
}

/// A child appended to the node at `path` is found at the index it was given,
/// one step below that node.
pub proof fn lemma_child_reachable(tree: NodeView, path: Seq<usize>, child: NodeView, index: usize)
    requires
        tree.has_path(path),
        index == tree.node_at(path).children.len(),
    ensures
        tree.with_child_at(path, child).has_path(path.push(index)),
        tree.with_child_at(path, child).node_at(path.push(index)) == child,
    decreases path.len(),
{
    let longer = path.push(index);
    let grown = tree.with_child_at(path, child);
    if path.len() == 0 {
        assert(longer.drop_first() =~= Seq::<usize>::empty());
        assert(grown.children[index as int] == child);
        assert(child.has_path(longer.drop_first()));
        assert(child.node_at(longer.drop_first()) == child);
    } else {
        let below = tree.children[path[0] as int];
        assert(longer.drop_first() =~= path.drop_first().push(index));
        assert(longer[0] == path[0]);
        lemma_child_reachable(below, path.drop_first(), child, index);
        assert(grown.children[path[0] as int] == below.with_child_at(path.drop_first(), child));
        assert(grown.children[longer[0] as int].has_path(longer.drop_first()));
    }
}

/// Setting the content of the node at `path` leaves the path in place.
pub proof fn lemma_content_keeps_path(tree: NodeView, path: Seq<usize>, content: Seq<char>)
    requires
        tree.has_path(path),
    ensures
        tree.with_content_at(path, content).has_path(path),
    decreases path.len(),
{
    if path.len() > 0 {
        lemma_content_keeps_path(tree.children[path[0] as int], path.drop_first(), content);
    }
}

/// The parent of a node of the tree is a node of the tree.
pub proof fn lemma_parent_path(tree: NodeView, path: Seq<usize>)
    requires
        tree.has_path(path),
        path.len() > 0,
    ensures
        tree.has_path(path.drop_last()),
    decreases path.len(),
{
    if path.len() > 1 {
        assert(path.drop_last().drop_first() =~= path.drop_first().drop_last());
        lemma_parent_path(tree.children[path[0] as int], path.drop_first());
    }
}

/// One element of the document tree, or its root.
#[derive(Debug)]
pub struct Node {
    /// The element's name; the root has none.
    pub tag: Option<String>,
    /// The attribute text as it stood in the source, placeholders included.
    pub attrs: Option<String>,
    /// The text body as it stood in the source, placeholders included.
    pub content: Option<String>,
    /// The child elements in document order.
    pub children: Vec<Node>,
}

impl Node {
    /// The node as the contracts see it.
    pub open spec fn model(self) -> NodeView
        decreases self,
    {
        NodeView {
            tag: text_of(self.tag),
            attrs: text_of(self.attrs),
            content: text_of(self.content),
            children: Seq::new(
                self.children@.len(),
                |i: int|
                    if 0 <= i < self.children@.len() {
                        self.children@[i].model()
                    } else {
                        arbitrary()
                    },
            ),
        }
    }
}

impl View for Node {
    type V = NodeView;

    open spec fn view(&self) -> NodeView {
        self.model()
    }
}

impl Node {
    /// The root of an empty document.
    pub fn new_root() -> (root: Node)
        ensures
            root@ == NodeView::root(),
    {
        let root = Node { tag: None, attrs: None, content: None, children: Vec::new() };
        assert(root@.children =~= Seq::empty());
        root
    }

    /// Appends a new element to this node's children and returns its index
    /// among them.
    pub fn add_child(&mut self, tag: Option<String>, attrs: Option<String>) -> (index: usize)
        ensures
            final(self)@ == old(self)@.with_child(NodeView::element(text_of(tag), text_of(attrs))),
            index == old(self)@.children.len(),
    {
        let index = self.children.len();
        let child = Node { tag, attrs, content: None, children: Vec::new() };
        assert(child@.children =~= Seq::empty());
        self.children.push(child);
        assert(self@.children =~= old(self)@.children.push(child@));
        index
    }

    /// Appends a new element to the children of the node that the rest of
    /// `path`, from position `level` on, leads to from here. Returns the index
    /// of the new element among those children.
    pub fn add_child_at(
        &mut self,
        path: &Vec<usize>,
        level: usize,
        tag: Option<String>,
        attrs: Option<String>,
    ) -> (index: usize)
        requires
            level <= path@.len(),
            old(self)@.has_path(path@.skip(level as int)),
        ensures
            final(self)@ == old(self)@.with_child_at(
                path@.skip(level as int),
                NodeView::element(text_of(tag), text_of(attrs)),
            ),
            index == old(self)@.node_at(path@.skip(level as int)).children.len(),
        decreases path@.len() - level,
    {
        if level == path.len() {
            self.add_child(tag, attrs)
        } else {
            let at = path[level];
            assert(path@.skip(level as int).drop_first() =~= path@.skip(level + 1));
            let index = self.children[at].add_child_at(path, level + 1, tag, attrs);
            assert(self@.children =~= old(self)@.children.update(
                at as int,
                old(self)@.children[at as int].with_child_at(
                    path@.skip(level + 1),
                    NodeView::element(text_of(tag), text_of(attrs)),
                ),
            ));
            index
        }
    }

    /// Makes `content` the content of the node that the rest of `path`, from
    /// position `level` on, leads to from here.
    pub fn set_content_at(&mut self, path: &Vec<usize>, level: usize, content: String)
        requires
            level <= path@.len(),
            old(self)@.has_path(path@.skip(level as int)),
        ensures
            final(self)@ == old(self)@.with_content_at(path@.skip(level as int), content@),
        decreases path@.len() - level,
    {
        if level == path.len() {
            self.content = Some(content);
            assert(self@.children =~= old(self)@.children);
        } else {
            let at = path[level];
            assert(path@.skip(level as int).drop_first() =~= path@.skip(level + 1));
            self.children[at].set_content_at(path, level + 1, content);
            assert(self@.children =~= old(self)@.children.update(
                at as int,
                old(self)@.children[at as int].with_content_at(path@.skip(level + 1), content@),
            ));
        }
    }

    /// The node that the part of `path` from position `level` up to `end`
    /// leads to from here.
    pub fn descend(&self, path: &Vec<usize>, level: usize, end: usize) -> (found: &Node)
        requires
            level <= end <= path@.len(),
            self@.has_path(path@.subrange(level as int, end as int)),
        ensures
            found@ == self@.node_at(path@.subrange(level as int, end as int)),
        decreases end - level,
    {
        if level == end {
            self
        } else {
            assert(path@.subrange(level as int, end as int).drop_first() =~= path@.subrange(
                level + 1,
                end as int,
            ));
            self.children[path[level]].descend(path, level + 1, end)
        }
    }

    /// Appends the outline of this subtree to `out`: the tags of its elements,
    /// one to a line, each behind as many tabs as it lies deep. `depth` is the
    /// level of this node.
    pub fn traverse_dfs(&self, out: String, depth: i32) -> (listed: String)
        ensures
            listed@ == out@ + self@.outline(depth as int),
    {
        let mut margin = String::new();
        let mut level: i32 = 0;
        while level < depth
            invariant
                0 <= level,
                level <= depth || level == 0,
                margin@ == tabs(level as int),
            decreases depth - level,
        {
            margin.push('\t');
            level += 1;
            assert(margin@ =~= tabs(level as int));
        }
        assert(margin@ =~= tabs(depth as int));
        let above = if depth < 0 {
            depth
        } else {
            0
        };
        self.outline_into(out, above, margin.as_str(), Ghost(depth as int))
    }

    /// Appends the outline of this subtree to `out`. The level is `above`
    /// while that is negative; from level zero on it is carried by `margin`.
    fn outline_into(&self, out: String, above: i32, margin: &str, Ghost(depth): Ghost<int>) -> (listed:
        String)
        requires
            above <= 0,
            above < 0 ==> depth == above,
            above == 0 ==> depth >= 0,
            margin@ == tabs(depth),
        ensures
            listed@ == out@ + self@.outline(depth),
        decreases self,
    {
        let mut listed = out;
        if let Some(tag) = &self.tag {
            listed.append(margin);
            listed.append(tag.as_str());
            listed.push('\n');
        }
        let mut deeper = margin.to_owned();
        let below = if above < 0 {
            above + 1
        } else {
            deeper.push('\t');
            0
        };
        assert(deeper@ =~= tabs(depth + 1));
        let ghost before = listed@;
        let mut i: usize = 0;
        while i < self.children.len()
            invariant
                i <= self.children@.len(),
                below <= 0,
                below < 0 ==> depth + 1 == below,
                below == 0 ==> depth + 1 >= 0,
                deeper@ == tabs(depth + 1),
                listed@ == before + NodeView::outline_all(self@.children.take(i as int), depth + 1),
            decreases self.children@.len() - i,
        {
            listed = self.children[i].outline_into(listed, below, deeper.as_str(), Ghost(depth + 1));
            proof {
                let done = self@.children.take(i + 1);
                assert(done.drop_last() =~= self@.children.take(i as int));
                assert(done.last() == self.children[i as int]@);
            }
            i += 1;
        }
        assert(self@.children.take(i as int) =~= self@.children);
        assert(listed@ =~= out@ + self@.outline(depth));
        listed
    }

    /// Renders this node after `html`, at nesting level `depth`. A level below
    /// zero indents like level zero: the root of a document is rendered
    /// at level -1, which puts its children at the left margin.
    pub fn to_html(&self, html: String, depth: i32, ctx: &Context) -> (out: String)
        ensures
            out@ == html@ + self@.rendered(depth as int, ctx@),
    {
        let start = indent(depth);
        let above = if depth < 0 {
            depth
        } else {
            0
        };
        self.render_into(html, above, start.as_str(), ctx, Ghost(depth as int))
    }

    /// Renders this node after `html`. The nesting level is `above` while that
    /// is negative; from level zero on it is carried by `margin`, the
    /// indentation itself, which grows with the tree and needs no counter.
    fn render_into(
        &self,
        html: String,
        above: i32,
        margin: &str,
        ctx: &Context,
        Ghost(depth): Ghost<int>,
    ) -> (out: String)
        requires
            above <= 0,
            above < 0 ==> depth == above,
            above == 0 ==> depth >= 0,
            margin@ == indentation(depth),
        ensures
            out@ == html@ + self@.rendered(depth, ctx@),
        decreases self, 1nat,
    {
        let opened = self.push_opening(html, margin, ctx, Ghost(depth));
        let filled = if let Some(content) = &self.content {
            let mut out = opened;
            let shown = inject_context(content.as_str(), ctx);
            out.append(shown.as_str());
            out
        } else {
            self.push_children(opened, above, margin, ctx, Ghost(depth))
        };
        let out = self.push_closing(filled, margin, Ghost(depth));
        assert(out@ =~= html@ + self@.rendered(depth, ctx@));
        out
    }

    /// Appends the opening tag to `html`.
    fn push_opening(
        &self,
        html: String,
        margin: &str,
        ctx: &Context,
        Ghost(depth): Ghost<int>,
    ) -> (out: String)
        requires
            margin@ == indentation(depth),
        ensures
            out@ == html@ + self@.opening(depth, ctx@),
    {
        proof {
            reveal_strlit("<");
            reveal_strlit(">");
            reveal_strlit(" ");
        }
        let mut out = html;
        if let Some(tag) = &self.tag {
            out.append(margin);
            out.append("<");
            out.append(tag.as_str());
            if let Some(attrs) = &self.attrs {
                out.append(" ");
                let shown = inject_context(attrs.as_str(), ctx);
                out.append(shown.as_str());
            }
            out.append(">");
        }
        assert(out@ =~= html@ + self@.opening(depth, ctx@));
        out
    }

    /// Appends the closing tag to `html`.
    fn push_closing(&self, html: String, margin: &str, Ghost(depth): Ghost<int>) -> (out: String)
        requires
            margin@ == indentation(depth),
        ensures
            out@ == html@ + self@.closing(depth),
    {
        proof {
            reveal_strlit("</");
            reveal_strlit(">\n");
        }
        let mut out = html;
        if let Some(tag) = &self.tag {
            if self.content.is_none() {
                out.append(margin);
            }
            out.append("</");
            out.append(tag.as_str());
            out.append(">\n");
        }
        assert(out@ =~= html@ + self@.closing(depth));
        out
    }

    /// Appends to `html` what a node without content shows between its tags:
    /// the end of the opening tag's line, then the children one level deeper.
    fn push_children(
        &self,
        html: String,
        above: i32,
        margin: &str,
        ctx: &Context,
        Ghost(depth): Ghost<int>,
    ) -> (out: String)
        requires
            above <= 0,
            above < 0 ==> depth == above,
            above == 0 ==> depth >= 0,
            margin@ == indentation(depth),
        ensures
            out@ == html@ + (if self@.tag is Some {
                seq!['\n']
            } else {
                Seq::empty()
            }) + NodeView::rendered_all(self@.children, depth + 1, ctx@),
        decreases self, 0nat,
    {
        let mut out = html;
        if self.tag.is_some() {
            proof {
                reveal_strlit("\n");
            }
            out.append("\n");
        }
        let mut deeper = margin.to_owned();
        let below = if above < 0 {
            above + 1
        } else {
            proof {
                reveal_strlit("  ");
            }
            deeper.append("  ");
            0
        };
        assert(deeper@ =~= indentation(depth + 1));
        let ghost before = out@;
        assert(before =~= html@ + (if self@.tag is Some {
            seq!['\n']
        } else {
            Seq::empty()
        }));
        let mut i: usize = 0;
        while i < self.children.len()
            invariant
                i <= self.children@.len(),
                below <= 0,
                below < 0 ==> depth + 1 == below,
                below == 0 ==> depth + 1 >= 0,
                deeper@ == indentation(depth + 1),
                out@ == before + NodeView::rendered_all(
                    self@.children.take(i as int),
                    depth + 1,
                    ctx@,
                ),
            decreases self.children@.len() - i,
        {
            out = self.children[i].render_into(out, below, deeper.as_str(), ctx, Ghost(depth + 1));
            proof {
                let done = self@.children.take(i + 1);
                assert(done.drop_last() =~= self@.children.take(i as int));
                assert(done.last() == self.children[i as int]@);
            }
            i += 1;
        }
        assert(self@.children.take(i as int) =~= self@.children);
        out
    }
}

/// Renders a finished document: the tree below `tree`, which is its root,
/// with the root's children at the left margin.
pub fn render(tree: &Node, ctx: &Context) -> (out: String)
    ensures
        out@ == tree@.rendered(-1, ctx@),
{
    tree.to_html(String::new(), -1, ctx)
}

/// Rendering is a function of what the tree and the context hold: two trees
/// that hold the same, rendered under two contexts that bind the same, at the
/// same level and after the same text, give the same text, character for
/// character and so byte for byte. In particular, rendering one tree under one
/// context twice gives one output.
pub proof fn lemma_rendering_repeats(
    tree: Node,
    again: Node,
    ctx: Context,
    ctx_again: Context,
    html: Seq<char>,
    depth: int,
    first: String,
    second: String,
)
    requires
        tree@ == again@,
        ctx@ == ctx_again@,
        first@ == html + tree@.rendered(depth, ctx@),
        second@ == html + again@.rendered(depth, ctx_again@),
    ensures
        first@ == second@,
        vstd::utf8::encode_utf8(first@) == vstd::utf8::encode_utf8(second@),
{
}

/// The indentation of nesting level `depth`, as a string.
fn indent(depth: i32) -> (margin: String)
    ensures
        margin@ == indentation(depth as int),
{
    let mut margin = String::new();
    let mut level: i32 = 0;
    while level < depth
        invariant
            0 <= level,
            level <= depth || level == 0,
            margin@ == indentation(level as int),
        decreases depth - level,
    {
        proof {
            reveal_strlit("  ");
        }
        margin.append("  ");
        level += 1;
        assert(margin@ =~= indentation(level as int));
    }
    assert(margin@ =~= indentation(depth as int));
    margin
}

} // verus!
