//! Answers in Markdown, shown without anything that could be followed or that
//! would load something.

use crate::text::{
    boundary_at, byte_len, byte_length, byte_slice, chars_of, decimal, decimal_reads_back, digit,
    digit_value, digits_value, lemma_byte_len_ge, lemma_char_boundary, option_text, push_decimal, text_of,
};
use vstd::prelude::*;
use vstd::string::*;

verus! {

/// What a node of a Markdown tree is, as far as its display depends on it.
#[derive(Clone, Copy, Debug, PartialEq, Eq, Structural)]
pub enum NodeKind {
    Html,
    Image,
    ImageReference,
    Link,
    LinkReference,
    Break,
    /// Any other node.
    Plain,
}

/// A node of a Markdown tree, with everything below it.
#[derive(Debug, PartialEq, Eq)]
pub struct MarkdownNode {
    pub kind: NodeKind,
    /// The alternative text of an image; the text of any other node.
    pub text: String,
    /// The bytes of the source that the node was made from.
    pub span: Option<(usize, usize)>,
    /// Nothing for a node that cannot have children.
    pub children: Option<Vec<MarkdownNode>>,
}

/// A Markdown tree, as texts.
pub struct TreeView {
    pub kind: NodeKind,
    pub text: Seq<char>,
    pub span: Option<(int, int)>,
    pub children: Option<Seq<TreeView>>,
}

/// The tree below a node.
pub open spec fn tree_of(node: MarkdownNode) -> TreeView
    decreases node,
{
    TreeView {
        kind: node.kind,
        text: node.text@,
        span: match node.span {
            Some((start, end)) => Some((start as int, end as int)),
            None => None,
        },
        children: match node.children {
            Some(children) => Some(trees_of(children@)),
            None => None,
        },
    }
}

/// The trees below some nodes.
pub open spec fn trees_of(nodes: Seq<MarkdownNode>) -> Seq<TreeView>
    decreases nodes,
{
    if nodes.len() == 0 {
        Seq::empty()
    } else {
        trees_of(nodes.drop_last()).push(tree_of(nodes.last()))
    }
}

impl View for MarkdownNode {
    type V = TreeView;

    open spec fn view(&self) -> TreeView {
        tree_of(*self)
    }
}

// ---------------------------------------------------------------------------
// The parser
// ---------------------------------------------------------------------------

#[verifier::external_type_specification]
#[verifier::external_body]
pub struct ExMdastNode(markdown::mdast::Node);

/// The tree that a node of the parser holds.
pub uninterp spec fn mdast_tree(node: markdown::mdast::Node) -> TreeView;

/// The tree that GitHub-flavoured Markdown is parsed to.
pub uninterp spec fn gfm_tree(content: Seq<char>) -> Option<TreeView>;

/// `markdown::to_mdast` with `ParseOptions::gfm()`: the tree of a text, which
/// depends on the text alone. A text that is one block of fenced code has a tree,
/// and nothing in it can be followed or would load something: only a sequence of
/// as many backticks as the opening one closes the block, no container starts
/// inside it, and its lines are not parsed any further.
#[verifier::external_body]
fn to_mdast(content: &str) -> (r: Option<markdown::mdast::Node>)
    ensures
        match r {
            Some(node) => gfm_tree(content@) == Some(mdast_tree(node)),
            None => gfm_tree(content@) is None,
        },
        is_code_block(content@) ==> r is Some && inert(mdast_tree(r->0)),
{
    markdown::to_mdast(content, &markdown::ParseOptions::gfm()).ok()
}

/// The variants of `markdown::mdast::Node`.
#[verifier::external_body]
fn node_kind(node: &markdown::mdast::Node) -> (r: NodeKind)
    ensures
        r == mdast_tree(*node).kind,
{
    match node {
        markdown::mdast::Node::Html(_) => NodeKind::Html,
        markdown::mdast::Node::Image(_) => NodeKind::Image,
        markdown::mdast::Node::ImageReference(_) => NodeKind::ImageReference,
        markdown::mdast::Node::Link(_) => NodeKind::Link,
        markdown::mdast::Node::LinkReference(_) => NodeKind::LinkReference,
        markdown::mdast::Node::Break(_) => NodeKind::Break,
        _ => NodeKind::Plain,
    }
}

/// `markdown::mdast::Node::to_string`, and the field `alt` of the two kinds of
/// images.
#[verifier::external_body]
fn node_text(node: &markdown::mdast::Node) -> (r: String)
    ensures
        r@ == mdast_tree(*node).text,
{
    match node {
        markdown::mdast::Node::Image(image) => image.alt.clone(),
        markdown::mdast::Node::ImageReference(image) => image.alt.clone(),
        _ => node.to_string(),
    }
}

/// `markdown::mdast::Node::position`, as offsets in bytes.
#[verifier::external_body]
fn node_span(node: &markdown::mdast::Node) -> (r: Option<(usize, usize)>)
    ensures
        mdast_tree(*node).span == (match r {
            Some((start, end)) => Some((start as int, end as int)),
            None => None,
        }),
{
    node.position().map(|position| (position.start.offset, position.end.offset))
}

/// The trees that some nodes of the parser hold.
pub open spec fn mdast_trees(nodes: Seq<markdown::mdast::Node>) -> Seq<TreeView> {
    nodes.map_values(|node: markdown::mdast::Node| mdast_tree(node))
}

/// `markdown::mdast::Node::children`: the nodes right below a node, or nothing
/// for a node that cannot have any.
#[verifier::external_body]
fn node_children(node: &markdown::mdast::Node) -> (r: Option<&Vec<markdown::mdast::Node>>)
    ensures
        mdast_tree(*node).children == (match r {
            Some(children) => Some(mdast_trees(children@)),
            None => None,
        }),
{
    node.children()
}

proof fn lemma_trees_of(nodes: Seq<MarkdownNode>)
    ensures
        trees_of(nodes).len() == nodes.len(),
        forall|i: int| 0 <= i < nodes.len() ==> #[trigger] trees_of(nodes)[i] == tree_of(nodes[i]),
    decreases nodes.len(),
{
    if nodes.len() > 0 {
        lemma_trees_of(nodes.drop_last());
    }
}

proof fn lemma_child_is_smaller(tree: TreeView, i: int)
    requires
        tree.children is Some,
        0 <= i < tree.children->0.len(),
    ensures
        decreases_to!(tree => tree.children->0[i]),
{
    let children = tree.children->0;
    assert(decreases_to!(children => children[i]));
    assert(decreases_to!(tree => children));
}

/// The node with everything below it.
fn node_of(node: &markdown::mdast::Node) -> (r: MarkdownNode)
    ensures
        tree_of(r) == mdast_tree(*node),
    decreases mdast_tree(*node),
{
    let children = match node_children(node) {
        Some(nodes) => {
            let mut out: Vec<MarkdownNode> = Vec::new();
            let mut i: usize = 0;
            let ghost expected = mdast_trees(nodes@);
            while i < nodes.len()
                invariant
                    i <= nodes@.len(),
                    expected == mdast_trees(nodes@),
                    mdast_tree(*node).children == Some(expected),
                    trees_of(out@) == expected.subrange(0, i as int),
                decreases nodes@.len() - i,
            {
                proof {
                    assert(expected[i as int] == mdast_tree(nodes@[i as int]));
                    lemma_child_is_smaller(mdast_tree(*node), i as int);
                }
                let child = node_of(&nodes[i]);
                let ghost had = out@;
                out.push(child);
                i = i + 1;
                proof {
                    assert(out@.drop_last() =~= had);
                    assert(trees_of(out@) =~= expected.subrange(0, i as int));
                }
            }
            assert(expected.subrange(0, expected.len() as int) =~= expected);
            Some(out)
        },
        None => None,
    };
    MarkdownNode { kind: node_kind(node), text: node_text(node), span: node_span(node), children }
}

/// The tree of a text in GitHub-flavoured Markdown.
pub fn parse_gfm(content: &str) -> (r: Option<MarkdownNode>)
    ensures
        match r {
            Some(node) => gfm_tree(content@) == Some(node@),
            None => gfm_tree(content@) is None,
        },
        is_code_block(content@) ==> is_inert_text(content@),
{
    match to_mdast(content) {
        Some(node) => Some(node_of(&node)),
        None => None,
    }
}

// ---------------------------------------------------------------------------
// What is shown of a tree
// ---------------------------------------------------------------------------

/// Whether a node of this kind can be followed or would load something.
pub open spec fn is_active(kind: NodeKind) -> bool {
    kind is Html || kind is Image || kind is ImageReference || kind is Link
        || kind is LinkReference
}

/// Whether nothing in a tree can be followed or would load something.
pub open spec fn inert(tree: TreeView) -> bool
    decreases tree,
{
    &&& !is_active(tree.kind)
    &&& match tree.children {
        Some(children) => all_inert(children),
        None => true,
    }
}

/// Whether nothing in some trees can be followed or would load something.
pub open spec fn all_inert(trees: Seq<TreeView>) -> bool
    decreases trees,
{
    trees.len() == 0 || (all_inert(trees.drop_last()) && inert(trees.last()))
}

/// The text that a reader sees of a tree.
pub open spec fn visible(tree: TreeView) -> Seq<char>
    decreases tree,
{
    if tree.kind is Image || tree.kind is ImageReference {
        tree.text
    } else if tree.kind is Break {
        seq!['\n']
    } else {
        match tree.children {
            Some(children) => all_visible(children),
            None => tree.text,
        }
    }
}

/// The text that a reader sees of some trees.
pub open spec fn all_visible(trees: Seq<TreeView>) -> Seq<char>
    decreases trees,
{
    if trees.len() == 0 {
        Seq::empty()
    } else {
        all_visible(trees.drop_last()) + visible(trees.last())
    }
}

/// The ASCII characters that Markdown may give a meaning to.
pub open spec fn is_punctuation(c: char) -> bool {
    let v = c as u32;
    33 <= v <= 47 || 58 <= v <= 64 || 91 <= v <= 96 || 123 <= v <= 126
}

/// A character that Markdown takes as it is.
pub open spec fn literal_char(c: char) -> Seq<char> {
    if is_punctuation(c) {
        "&#"@ + decimal(c as u32 as nat) + ";"@
    } else {
        seq![c]
    }
}

/// A text that Markdown takes as it is.
pub open spec fn literal(text: Seq<char>) -> Seq<char>
    decreases text.len(),
{
    if text.len() == 0 {
        Seq::empty()
    } else {
        literal(text.drop_last()) + literal_char(text.last())
    }
}

/// What stands in the place of an image.
pub open spec fn shown_image(alt: Seq<char>) -> Seq<char> {
    literal(
        if alt.len() == 0 {
            "（图片）"@
        } else {
            alt
        },
    )
}

/// What stands in the place of a link.
pub open spec fn shown_link(tree: TreeView) -> Seq<char> {
    let label = visible(tree);
    literal(
        if label.len() == 0 {
            "（链接）"@
        } else {
            label
        },
    )
}

/// What stands in the place of an active node.
pub open spec fn replacement(tree: TreeView) -> Option<Seq<char>> {
    match tree.kind {
        NodeKind::Html => Some(literal(tree.text)),
        NodeKind::Image => Some(shown_image(tree.text)),
        NodeKind::ImageReference => Some(shown_image(tree.text)),
        NodeKind::Link => Some(shown_link(tree)),
        NodeKind::LinkReference => Some(shown_link(tree)),
        _ => None,
    }
}

/// A stretch of the source, from the first byte up to the second, and what
/// stands in its place.
pub struct Replacement {
    pub start: usize,
    pub end: usize,
    pub text: String,
}

impl View for Replacement {
    type V = (int, int, Seq<char>);

    open spec fn view(&self) -> (int, int, Seq<char>) {
        (self.start as int, self.end as int, self.text@)
    }
}

/// The replacements that a list holds.
pub open spec fn replacement_views(list: Seq<Replacement>) -> Seq<(int, int, Seq<char>)> {
    list.map_values(|r: Replacement| r@)
}

/// The replacements of the outermost active nodes of a tree, in the order of the
/// source; nothing where the place of one is not known.
pub open spec fn replacements(tree: TreeView) -> Option<Seq<(int, int, Seq<char>)>>
    decreases tree,
{
    match (replacement(tree), tree.span, tree.children) {
        (Some(text), Some(span), _) => Some(seq![(span.0, span.1, text)]),
        (Some(text), None, _) => None,
        (None, _, Some(children)) => all_replacements(children),
        (None, _, None) => Some(Seq::empty()),
    }
}

/// The replacements of the outermost active nodes of some trees.
pub open spec fn all_replacements(trees: Seq<TreeView>) -> Option<Seq<(int, int, Seq<char>)>>
    decreases trees,
{
    if trees.len() == 0 {
        Some(Seq::empty())
    } else {
        match (all_replacements(trees.drop_last()), replacements(trees.last())) {
            (Some(before), Some(last)) => Some(before + last),
            _ => None,
        }
    }
}

/// The source from the byte `cursor` on, with replacements; nothing where their
/// places do not follow one another in the source.
pub open spec fn replaced(
    content: Seq<char>,
    cursor: int,
    list: Seq<(int, int, Seq<char>)>,
) -> Option<Seq<char>>
    decreases list.len(),
{
    if list.len() == 0 {
        byte_slice(content, cursor, byte_len(content) as int)
    } else {
        let (start, end, text) = list[0];
        match (
            byte_slice(content, cursor, start),
            byte_slice(content, start, end),
            replaced(content, end, list.drop_first()),
        ) {
            (Some(unchanged), Some(_), Some(rest)) => Some(unchanged + text + rest),
            _ => None,
        }
    }
}

/// How an answer may be shown, before the result was parsed again.
pub enum Rewrite {
    /// As it is.
    Keep,
    /// With every character taken as it is.
    Literal,
    /// In another wording, if that turns out to be inert.
    Check(String),
}

/// How an answer may be shown, as texts.
pub enum RewriteView {
    Keep,
    Literal,
    Check(Seq<char>),
}

impl View for Rewrite {
    type V = RewriteView;

    open spec fn view(&self) -> RewriteView {
        match *self {
            Rewrite::Keep => RewriteView::Keep,
            Rewrite::Literal => RewriteView::Literal,
            Rewrite::Check(text) => RewriteView::Check(text@),
        }
    }
}

/// How an answer with a tree may be shown.
pub open spec fn rewriting(content: Seq<char>, tree: Option<TreeView>) -> RewriteView {
    match tree {
        None => RewriteView::Literal,
        Some(tree) => match replacements(tree) {
            None => RewriteView::Literal,
            Some(list) => if list.len() == 0 {
                RewriteView::Keep
            } else {
                match replaced(content, 0, list) {
                    Some(text) => RewriteView::Check(text),
                    None => RewriteView::Literal,
                }
            },
        },
    }
}

/// How many characters of the longest run of backticks, and of the run that the
/// text ends with, a text holds.
pub open spec fn backtick_runs(text: Seq<char>) -> (nat, nat)
    decreases text.len(),
{
    if text.len() == 0 {
        (0, 0)
    } else {
        let (longest, current) = backtick_runs(text.drop_last());
        if text.last() == '`' {
            let run = current + 1;
            (
                if longest < run {
                    run
                } else {
                    longest
                },
                run,
            )
        } else {
            (longest, 0)
        }
    }
}

/// The length of a fence that a text cannot close: at least three, and more than
/// the longest run of backticks, as far as the machine can count.
pub open spec fn fence_length(text: Seq<char>) -> nat {
    let longest = backtick_runs(text).0;
    if longest < 2 {
        3
    } else if longest >= usize::MAX {
        longest
    } else {
        longest + 1
    }
}

/// A line of backticks.
pub open spec fn fence(length: nat) -> Seq<char> {
    Seq::new(length, |i: int| '`')
}

/// A block of fenced code around a text.
pub open spec fn code_block(length: nat, text: Seq<char>) -> Seq<char> {
    fence(length) + "text\n"@ + text + "\n"@ + fence(length) + "\n"@
}

/// Whether a fence is one, and a text cannot close it.
pub open spec fn fence_holds(length: nat, text: Seq<char>) -> bool {
    length >= 3 && backtick_runs(text).0 < length
}

/// Whether a text is one block of fenced code: a fence of backticks, lines in
/// which no run of backticks is as long as the fence, and the same fence.
pub open spec fn is_code_block(s: Seq<char>) -> bool {
    exists|length: nat, text: Seq<char>|
        fence_holds(length, text) && s == #[trigger] code_block(length, text)
}

/// Whether a text is parsed to a tree in which nothing can be followed or would
/// load something.
pub open spec fn is_inert_text(s: Seq<char>) -> bool {
    match gfm_tree(s) {
        Some(tree) => inert(tree),
        None => false,
    }
}

/// A text as one block of code.
pub open spec fn fenced(text: Seq<char>) -> Seq<char> {
    code_block(fence_length(text), text)
}

/// What is shown of a new wording, given the tree that it is parsed to.
pub open spec fn shown_if_inert(
    content: Seq<char>,
    display: Seq<char>,
    reparsed: Option<TreeView>,
) -> Seq<char> {
    match reparsed {
        Some(tree) => if inert(tree) {
            display
        } else {
            fenced(content)
        },
        None => fenced(content),
    }
}

/// What is shown of an answer.
pub open spec fn displayed(content: Seq<char>) -> Seq<char> {
    match rewriting(content, gfm_tree(content)) {
        RewriteView::Keep => content,
        RewriteView::Literal => fenced(content),
        RewriteView::Check(display) => shown_if_inert(content, display, gfm_tree(display)),
    }
}

// ---------------------------------------------------------------------------
// Running code
// ---------------------------------------------------------------------------

proof fn lemma_tree_fields(node: MarkdownNode)
    ensures
        tree_of(node).kind == node.kind,
        tree_of(node).text == node.text@,
        node.children is None <==> tree_of(node).children is None,
        node.children is Some ==> tree_of(node).children == Some(trees_of(node.children->0@)),
{
}

proof fn lemma_child_node_is_smaller(node: MarkdownNode, i: int)
    requires
        node.children is Some,
        0 <= i < node.children->0@.len(),
    ensures
        decreases_to!(node => node.children->0@[i]),
{
    let children = node.children->0;
    assert(decreases_to!(node => children));
    assert(decreases_to!(children => children@));
    assert(decreases_to!(children@ => children@[i]));
}

/// Whether nothing in a tree can be followed or would load something.
pub fn has_no_active_content(tree: &MarkdownNode) -> (r: bool)
    ensures
        r == inert(tree@),
    decreases tree,
{
    proof {
        lemma_tree_fields(*tree);
    }
    match tree.kind {
        NodeKind::Html
        | NodeKind::Image
        | NodeKind::ImageReference
        | NodeKind::Link
        | NodeKind::LinkReference => {
            return false;
        },
        _ => {},
    }
    match &tree.children {
        None => true,
        Some(children) => {
            let ghost trees = trees_of(children@);
            proof {
                lemma_trees_of(children@);
            }
            let mut i: usize = 0;
            while i < children.len()
                invariant
                    i <= children@.len(),
                    tree.children == Some(*children),
                    trees == trees_of(children@),
                    trees.len() == children@.len(),
                    forall|k: int|
                        0 <= k < children@.len() ==> #[trigger] trees[k] == tree_of(children@[k]),
                    all_inert(trees.subrange(0, i as int)),
                decreases children@.len() - i,
            {
                proof {
                    assert(trees.subrange(0, i + 1).drop_last() =~= trees.subrange(0, i as int));
                    assert(trees.subrange(0, i + 1).last() == tree_of(children@[i as int]));
                    lemma_child_node_is_smaller(*tree, i as int);
                }
                if !has_no_active_content(&children[i]) {
                    proof {
                        lemma_not_all_inert(trees, i as int);
                    }
                    return false;
                }
                i = i + 1;
            }
            assert(trees.subrange(0, trees.len() as int) =~= trees);
            true
        },
    }
}

proof fn lemma_not_all_inert(trees: Seq<TreeView>, i: int)
    requires
        0 <= i < trees.len(),
        !inert(trees[i]),
    ensures
        !all_inert(trees),
    decreases trees.len(),
{
    if i < trees.len() - 1 {
        lemma_not_all_inert(trees.drop_last(), i);
    }
}

/// The text that a reader sees of a tree.
pub fn visible_text(node: &MarkdownNode) -> (r: String)
    ensures
        r@ == visible(node@),
    decreases node,
{
    proof {
        lemma_tree_fields(*node);
    }
    match node.kind {
        NodeKind::Image | NodeKind::ImageReference => {
            return node.text.clone();
        },
        NodeKind::Break => {
            let mut out = String::new();
            out.push('\n');
            assert(out@ =~= seq!['\n']);
            return out;
        },
        _ => {},
    }
    match &node.children {
        None => node.text.clone(),
        Some(children) => {
            let ghost trees = trees_of(children@);
            proof {
                lemma_trees_of(children@);
            }
            let mut out = String::new();
            let mut i: usize = 0;
            assert(trees.subrange(0, 0) =~= Seq::<TreeView>::empty());
            while i < children.len()
                invariant
                    i <= children@.len(),
                    node.children == Some(*children),
                    trees == trees_of(children@),
                    trees.len() == children@.len(),
                    forall|k: int|
                        0 <= k < children@.len() ==> #[trigger] trees[k] == tree_of(children@[k]),
                    out@ == all_visible(trees.subrange(0, i as int)),
                decreases children@.len() - i,
            {
                proof {
                    assert(trees.subrange(0, i + 1).drop_last() =~= trees.subrange(0, i as int));
                    assert(trees.subrange(0, i + 1).last() == tree_of(children@[i as int]));
                    lemma_child_node_is_smaller(*node, i as int);
                }
                out.push_str(visible_text(&children[i]).as_str());
                i = i + 1;
            }
            assert(trees.subrange(0, trees.len() as int) =~= trees);
            out
        },
    }
}

/// A text that Markdown takes as it is: its punctuation becomes character
/// references, which are read as characters and nothing else.
pub fn literal_markdown(text: &str) -> (r: String)
    ensures
        r@ == literal(text@),
{
    let chars = chars_of(text);
    let mut out = String::new();
    let mut i: usize = 0;
    assert(chars@.subrange(0, 0) =~= Seq::<char>::empty());
    while i < chars.len()
        invariant
            i <= chars@.len(),
            out@ == literal(chars@.subrange(0, i as int)),
        decreases chars@.len() - i,
    {
        let c = chars[i];
        let v: u32 = c as u32;
        proof {
            assert(chars@.subrange(0, i + 1).drop_last() =~= chars@.subrange(0, i as int));
        }
        let ghost before = out@;
        if (33 <= v && v <= 47) || (58 <= v && v <= 64) || (91 <= v && v <= 96) || (123 <= v && v
            <= 126) {
            out.push_str("&#");
            push_decimal(&mut out, v as u128);
            out.push_str(";");
            assert(out@ =~= before + literal_char(c));
        } else {
            out.push(c);
            assert(out@ =~= before + literal_char(c));
        }
        i = i + 1;
    }
    assert(chars@.subrange(0, chars@.len() as int) =~= chars@);
    out
}

/// What stands in the place of an image.
pub fn image_label(alt: &str) -> (r: String)
    ensures
        r@ == shown_image(alt@),
{
    if alt.is_empty() {
        literal_markdown("（图片）")
    } else {
        literal_markdown(alt)
    }
}

/// What stands in the place of an active node.
fn replacement_for(node: &MarkdownNode) -> (r: Option<String>)
    ensures
        option_text(r) == replacement(node@),
{
    proof {
        lemma_tree_fields(*node);
    }
    match node.kind {
        NodeKind::Html => Some(literal_markdown(node.text.as_str())),
        NodeKind::Image => Some(image_label(node.text.as_str())),
        NodeKind::ImageReference => Some(image_label(node.text.as_str())),
        NodeKind::Link | NodeKind::LinkReference => {
            let label = visible_text(node);
            if label.as_str().is_empty() {
                Some(literal_markdown("（链接）"))
            } else {
                Some(literal_markdown(label.as_str()))
            }
        },
        _ => None,
    }
}

/// Appends the replacements of a tree. The result is false where the place of
/// one is not known.
fn collect_replacements(node: &MarkdownNode, out: &mut Vec<Replacement>) -> (r: bool)
    ensures
        match replacements(node@) {
            Some(list) => r && replacement_views(final(out)@) == replacement_views(old(out)@)
                + list,
            None => !r,
        },
    decreases node,
{
    proof {
        lemma_tree_fields(*node);
    }
    if let Some(text) = replacement_for(node) {
        return match node.span {
            Some((start, end)) => {
                let item = Replacement { start, end, text };
                let ghost had = out@;
                out.push(item);
                proof {
                    assert(replacement_views(out@) =~= replacement_views(had) + seq![item@]);
                }
                true
            },
            None => false,
        };
    }
    match &node.children {
        None => {
            assert(replacement_views(out@) =~= replacement_views(old(out)@) + Seq::empty());
            true
        },
        Some(children) => {
            let ghost trees = trees_of(children@);
            let ghost start = replacement_views(out@);
            proof {
                lemma_trees_of(children@);
                assert(trees.subrange(0, 0) =~= Seq::<TreeView>::empty());
                assert(start =~= start + Seq::empty());
            }
            let mut i: usize = 0;
            while i < children.len()
                invariant
                    i <= children@.len(),
                    node.children == Some(*children),
                    trees == trees_of(children@),
                    trees.len() == children@.len(),
                    forall|k: int|
                        0 <= k < children@.len() ==> #[trigger] trees[k] == tree_of(children@[k]),
                    replacement(node@) is None,
                    node@.children == Some(trees),
                    all_replacements(trees.subrange(0, i as int)) is Some,
                    replacement_views(out@) == start + all_replacements(
                        trees.subrange(0, i as int),
                    )->0,
                decreases children@.len() - i,
            {
                proof {
                    assert(trees.subrange(0, i + 1).drop_last() =~= trees.subrange(0, i as int));
                    assert(trees.subrange(0, i + 1).last() == tree_of(children@[i as int]));
                    lemma_child_node_is_smaller(*node, i as int);
                }
                if !collect_replacements(&children[i], out) {
                    proof {
                        lemma_no_replacements(trees, i + 1);
                    }
                    return false;
                }
                i = i + 1;
                proof {
                    let before = all_replacements(trees.subrange(0, i - 1))->0;
                    let last = replacements(trees[i - 1])->0;
                    assert(start + before + last =~= start + (before + last));
                }
            }
            assert(trees.subrange(0, trees.len() as int) =~= trees);
            true
        },
    }
}

proof fn lemma_no_replacements(trees: Seq<TreeView>, i: int)
    requires
        0 <= i <= trees.len(),
        all_replacements(trees.subrange(0, i)) is None,
    ensures
        all_replacements(trees) is None,
    decreases trees.len() - i,
{
    if i < trees.len() {
        assert(trees.subrange(0, i + 1).drop_last() =~= trees.subrange(0, i));
        lemma_no_replacements(trees, i + 1);
    } else {
        assert(trees.subrange(0, i) =~= trees);
    }
}

fn slice_bytes(chars: &Vec<char>, start: usize, end: usize) -> (r: Option<String>)
    ensures
        option_text(r) == byte_slice(chars@, start as int, end as int),
{
    proof {
        lemma_char_boundary(chars@, start as int);
        lemma_char_boundary(chars@, end as int);
    }
    match (boundary_at(chars, start as u64), boundary_at(chars, end as u64)) {
        (Some(i), Some(j)) => if i <= j {
            Some(text_of(chars, i, j))
        } else {
            None
        },
        _ => None,
    }
}

/// The source with replacements.
fn apply_replacements(content: &str, list: &Vec<Replacement>) -> (r: Option<String>)
    ensures
        option_text(r) == replaced(content@, 0, replacement_views(list@)),
{
    let chars = chars_of(content);
    let total: usize = byte_length(content);
    let ghost all = replacement_views(list@);
    let mut out = String::new();
    let mut cursor: usize = 0;
    let mut i: usize = 0;
    assert(all.subrange(0, all.len() as int) =~= all);
    proof {
        match replaced(content@, 0, all) {
            Some(text) => {
                assert(out@ + text =~= text);
            },
            None => {},
        }
    }
    while i < list.len()
        invariant
            i <= list@.len(),
            chars@ == content@,
            all == replacement_views(list@),
            match replaced(content@, cursor as int, all.subrange(i as int, all.len() as int)) {
                Some(rest) => replaced(content@, 0, all) == Some(out@ + rest),
                None => replaced(content@, 0, all) is None,
            },
        decreases list@.len() - i,
    {
        let ghost here = all.subrange(i as int, all.len() as int);
        proof {
            assert(here.drop_first() =~= all.subrange(i + 1, all.len() as int));
            assert(here[0] == list@[i as int]@);
        }
        let unchanged = match slice_bytes(&chars, cursor, list[i].start) {
            Some(text) => text,
            None => {
                return None;
            },
        };
        if slice_bytes(&chars, list[i].start, list[i].end).is_none() {
            return None;
        }
        let ghost before = out@;
        out.push_str(unchanged.as_str());
        out.push_str(list[i].text.as_str());
        cursor = list[i].end;
        proof {
            match replaced(content@, cursor as int, here.drop_first()) {
                Some(rest) => {
                    assert(before + (unchanged@ + list@[i as int].text@ + rest) =~= out@ + rest);
                },
                None => {},
            }
        }
        i = i + 1;
    }
    assert(all.subrange(i as int, all.len() as int) =~= Seq::<(int, int, Seq<char>)>::empty());
    match slice_bytes(&chars, cursor, total) {
        Some(rest) => {
            out.push_str(rest.as_str());
            Some(out)
        },
        None => None,
    }
}

/// How an answer with a tree may be shown.
pub fn rewrite(content: &str, tree: &Option<MarkdownNode>) -> (r: Rewrite)
    ensures
        r@ == rewriting(
            content@,
            match *tree {
                Some(tree) => Some(tree@),
                None => None,
            },
        ),
{
    match tree {
        None => Rewrite::Literal,
        Some(tree) => {
            let mut list: Vec<Replacement> = Vec::new();
            let collected: bool = collect_replacements(tree, &mut list);
            if !collected {
                return Rewrite::Literal;
            }
            proof {
                assert(replacement_views(list@) =~= replacements(tree@)->0);
                assert(replacement_views(list@).len() == list@.len());
            }
            if list.len() == 0 {
                return Rewrite::Keep;
            }
            match apply_replacements(content, &list) {
                Some(text) => Rewrite::Check(text),
                None => Rewrite::Literal,
            }
        },
    }
}

fn push_fence(out: &mut String, length: usize)
    ensures
        final(out)@ == old(out)@ + fence(length as nat),
{
    let mut i: usize = 0;
    assert(out@ =~= old(out)@ + fence(0));
    while i < length
        invariant
            i <= length,
            out@ == old(out)@ + fence(i as nat),
        decreases length - i,
    {
        out.push('`');
        i = i + 1;
        assert(out@ =~= old(out)@ + fence(i as nat));
    }
}

proof fn lemma_runs_bounded(text: Seq<char>)
    ensures
        backtick_runs(text).0 <= text.len(),
        backtick_runs(text).1 <= backtick_runs(text).0,
    decreases text.len(),
{
    if text.len() > 0 {
        lemma_runs_bounded(text.drop_last());
        let (longest, current) = backtick_runs(text.drop_last());
        assert(current + 1 <= text.len()) by {
            assert(longest <= text.len() - 1);
        }
    }
}

/// A text as one block of code. The fence is longer than any run of backticks in
/// the text, so the text cannot close it, and nothing in the block is active. The
/// block is parsed once more, as any other wording is before it is shown.
pub fn literal_message(content: &str) -> (r: String)
    ensures
        r@ == fenced(content@),
        is_inert_text(r@),
{
    let chars = chars_of(content);
    let mut longest: usize = 0;
    let mut current: usize = 0;
    let mut i: usize = 0;
    assert(chars@.subrange(0, 0) =~= Seq::<char>::empty());
    while i < chars.len()
        invariant
            i <= chars@.len(),
            (longest as nat, current as nat) == backtick_runs(chars@.subrange(0, i as int)),
            current <= longest <= i,
        decreases chars@.len() - i,
    {
        assert(chars@.subrange(0, i + 1).drop_last() =~= chars@.subrange(0, i as int));
        if chars[i] == '`' {
            current = current + 1;
            if longest < current {
                longest = current;
            }
        } else {
            current = 0;
        }
        i = i + 1;
    }
    assert(chars@.subrange(0, chars@.len() as int) =~= chars@);
    let length: usize = if longest < 2 {
        3
    } else if longest == usize::MAX {
        longest
    } else {
        longest + 1
    };
    let mut out = String::new();
    push_fence(&mut out, length);
    out.push_str("text\n");
    out.push_str(content);
    out.push_str("\n");
    push_fence(&mut out, length);
    out.push_str("\n");
    assert(out@ =~= fenced(content@));
    let size: usize = byte_length(out.as_str());
    proof {
        lemma_byte_len_ge(out@);
        assert(content@.len() < size);
        a_literal_answer_is_a_code_block(content@);
    }
    let _ = parse_gfm(out.as_str());
    out
}

/// What is shown of a new wording, given the tree that it is parsed to.
pub fn checked_display(content: &str, display: String, reparsed: &Option<MarkdownNode>) -> (r:
    String)
    ensures
        r@ == shown_if_inert(
            content@,
            display@,
            match *reparsed {
                Some(tree) => Some(tree@),
                None => None,
            },
        ),
        !(*reparsed is Some && inert((*reparsed)->0@)) ==> is_inert_text(r@),
{
    match reparsed {
        Some(tree) => if has_no_active_content(tree) {
            display
        } else {
            literal_message(content)
        },
        None => literal_message(content),
    }
}

/// What is shown of an answer: a text in which nothing is active, and which is
/// shown unchanged when it is shown again.
pub fn assistant_display_markdown(content: &str) -> (r: String)
    ensures
        r@ == displayed(content@),
        is_inert_text(r@),
        displayed(r@) == r@,
{
    let shown = display_once(content);
    proof {
        inert_answers_are_shown_unchanged(shown@);
    }
    shown
}

fn display_once(content: &str) -> (r: String)
    ensures
        r@ == displayed(content@),
        is_inert_text(r@),
{
    proof {
        if displayed(content@) != fenced(content@) {
            nothing_active_is_shown(content@);
        } else if rewriting(content@, gfm_tree(content@)) is Keep {
            lemma_inert_without_replacements(gfm_tree(content@)->0);
        }
    }
    match rewrite(content, &parse_gfm(content)) {
        Rewrite::Keep => content.to_owned(),
        Rewrite::Literal => literal_message(content),
        // A replaced block can change how the text behind it is parsed.
        Rewrite::Check(display) => {
            let reparsed = parse_gfm(display.as_str());
            checked_display(content, display, &reparsed)
        },
    }
}

// ---------------------------------------------------------------------------
// Laws
// ---------------------------------------------------------------------------

/// What is shown of an answer is a text whose own tree is inert, or the whole
/// answer as one block of code.
pub proof fn nothing_active_is_shown(content: Seq<char>)
    ensures
        displayed(content) == fenced(content) || is_inert_text(displayed(content)),
{
    match gfm_tree(content) {
        Some(tree) => {
            lemma_inert_without_replacements(tree);
            if let Some(list) = replacements(tree) {
                if list.len() == 0 {
                    assert(list =~= Seq::empty());
                }
            }
        },
        None => {},
    }
}

/// A text as one block of code is a block whose fence the text cannot close.
pub proof fn a_literal_answer_is_a_code_block(text: Seq<char>)
    requires
        text.len() < usize::MAX,
    ensures
        is_code_block(fenced(text)),
{
    lemma_runs_bounded(text);
    assert(fence_holds(fence_length(text), text));
}

/// An answer in which nothing is active is shown as it is.
pub proof fn inert_answers_are_shown_unchanged(content: Seq<char>)
    requires
        is_inert_text(content),
    ensures
        displayed(content) == content,
{
    lemma_inert_without_replacements(gfm_tree(content)->0);
}

proof fn lemma_inert_without_replacements(tree: TreeView)
    ensures
        inert(tree) <==> replacements(tree) == Some(Seq::<(int, int, Seq<char>)>::empty()),
    decreases tree,
{
    match tree.children {
        Some(children) => {
            lemma_all_inert_without_replacements(children);
        },
        None => {},
    }
    if is_active(tree.kind) {
        if let Some(span) = tree.span {
            assert(replacements(tree)->0.len() == 1);
        }
    }
}

proof fn lemma_all_inert_without_replacements(trees: Seq<TreeView>)
    ensures
        all_inert(trees) <==> all_replacements(trees) == Some(
            Seq::<(int, int, Seq<char>)>::empty(),
        ),
    decreases trees,
{
    if trees.len() > 0 {
        lemma_all_inert_without_replacements(trees.drop_last());
        lemma_inert_without_replacements(trees.last());
        match (all_replacements(trees.drop_last()), replacements(trees.last())) {
            (Some(before), Some(last)) => {
                if (before + last).len() == 0 {
                    assert(before =~= Seq::empty());
                    assert(last =~= Seq::empty());
                }
                if before.len() == 0 && last.len() == 0 {
                    assert(before =~= Seq::empty());
                    assert(last =~= Seq::empty());
                    assert(before + last =~= Seq::empty());
                }
            },
            _ => {},
        }
    }
}

/// Of all punctuation, a text that is taken as it is holds only what its
/// character references are made of.
pub proof fn literal_text_has_no_markup(text: Seq<char>)
    ensures
        forall|i: int|
            0 <= i < literal(text).len() && is_punctuation(#[trigger] literal(text)[i])
                ==> literal(text)[i] == '&' || literal(text)[i] == '#' || literal(text)[i] == ';',
    decreases text.len(),
{
    if text.len() > 0 {
        literal_text_has_no_markup(text.drop_last());
        let head = literal(text.drop_last());
        let tail = literal_char(text.last());
        reveal_strlit("&#");
        reveal_strlit(";");
        let number = decimal(text.last() as u32 as nat);
        lemma_decimal_is_digits(text.last() as u32 as nat);
        assert forall|i: int| 0 <= i < tail.len() && is_punctuation(#[trigger] tail[i]) implies tail[i]
            == '&' || tail[i] == '#' || tail[i] == ';' by {
            if is_punctuation(text.last()) {
                if 2 <= i < 2 + number.len() {
                    assert(tail[i] == number[i - 2]);
                }
            }
        }
        assert forall|i: int|
            0 <= i < literal(text).len() && is_punctuation(
                #[trigger] literal(text)[i],
            ) implies literal(text)[i] == '&' || literal(text)[i] == '#' || literal(text)[i]
            == ';' by {
            if i < head.len() {
                assert(literal(text)[i] == head[i]);
            } else {
                assert(literal(text)[i] == tail[i - head.len()]);
            }
        }
    }
}

/// The place behind the digits that a text holds from a place on.
pub open spec fn digits_end(s: Seq<char>, from: int) -> int
    decreases s.len() - from,
{
    if 0 <= from < s.len() && digit_value(s[from]) is Some {
        digits_end(s, from + 1)
    } else {
        from
    }
}

/// Whether a text begins with a character reference in decimal to an ASCII
/// character.
pub open spec fn begins_with_reference(s: Seq<char>) -> bool {
    let end = digits_end(s, 2);
    &&& s.len() > 2
    &&& s[0] == '&'
    &&& s[1] == '#'
    &&& 2 < end < s.len()
    &&& s[end] == ';'
    &&& digits_value(s.subrange(2, end)) matches Some(n) && n < 128
}

/// A text with its character references decoded: `&#38;` is read as `&`.
pub open spec fn decoded(s: Seq<char>) -> Seq<char>
    decreases s.len(),
{
    if s.len() == 0 {
        Seq::empty()
    } else if begins_with_reference(s) {
        let end = digits_end(s, 2);
        let n = digits_value(s.subrange(2, end))->0;
        seq![(n as u8) as char] + decoded(s.subrange(end + 1, s.len() as int))
    } else {
        seq![s[0]] + decoded(s.drop_first())
    }
}

/// Decoding the character references of a text that is taken as it is gives the
/// text back, character by character.
pub proof fn literal_text_is_read_back(text: Seq<char>)
    ensures
        decoded(literal(text)) == text,
    decreases text.len(),
{
    if text.len() > 0 {
        let c = text[0];
        let rest = text.drop_first();
        literal_text_is_read_back(rest);
        lemma_literal_from_front(text);
        let tail = literal(rest);
        let s = literal(text);
        if is_punctuation(c) {
            let number = decimal(c as u32 as nat);
            reveal_strlit("&#");
            reveal_strlit(";");
            lemma_decimal_all_digits(c as u32 as nat);
            decimal_reads_back(c as u32 as nat);
            assert(s =~= seq!['&', '#'] + number + seq![';'] + tail);
            let end = 2 + number.len() as int;
            assert forall|i: int| 2 <= i < end implies digit_value(#[trigger] s[i]) is Some by {
                assert(s[i] == number[i - 2]);
            }
            assert(s[end] == ';');
            lemma_digits_end(s, 2, end);
            assert(s.subrange(2, end) =~= number);
            assert(number[0] != '+');
            assert(s.subrange(end + 1, s.len() as int) =~= tail);
            lemma_ascii_character(c);
            assert(seq![c] + rest =~= text);
        } else {
            assert(s =~= seq![c] + tail);
            assert(s.drop_first() =~= tail);
            assert(seq![c] + rest =~= text);
        }
    }
}

proof fn lemma_ascii_character(c: char)
    requires
        is_punctuation(c),
    ensures
        c as u32 <= 126,
        ((c as u32 as nat) as u8) as char == c,
{
    let n = c as u32 as nat;
    assert((n as u8) as u32 == c as u32);
    assert(((n as u8) as char) as u32 == c as u32);
}

proof fn lemma_literal_from_front(text: Seq<char>)
    requires
        text.len() > 0,
    ensures
        literal(text) == literal_char(text[0]) + literal(text.drop_first()),
    decreases text.len(),
{
    if text.len() == 1 {
        assert(text.drop_last() =~= Seq::<char>::empty());
        assert(text.drop_first() =~= Seq::<char>::empty());
        assert(literal(text) =~= literal_char(text[0]) + literal(text.drop_first()));
    } else {
        lemma_literal_from_front(text.drop_last());
        assert(text.drop_last().drop_first() =~= text.drop_first().drop_last());
        assert(text.drop_last()[0] == text[0]);
        assert(text.drop_first().last() == text.last());
        assert(literal(text) =~= literal_char(text[0]) + literal(text.drop_first()));
    }
}

proof fn lemma_digits_end(s: Seq<char>, from: int, end: int)
    requires
        0 <= from <= end < s.len(),
        forall|i: int| from <= i < end ==> digit_value(#[trigger] s[i]) is Some,
        digit_value(s[end]) is None,
    ensures
        digits_end(s, from) == end,
    decreases end - from,
{
    if from < end {
        lemma_digits_end(s, from + 1, end);
    }
}

proof fn lemma_decimal_all_digits(n: nat)
    ensures
        forall|i: int|
            0 <= i < decimal(n).len() ==> digit_value(#[trigger] decimal(n)[i]) is Some,
    decreases n,
{
    let d = n % 10;
    assert(d == 0 || d == 1 || d == 2 || d == 3 || d == 4 || d == 5 || d == 6 || d == 7 || d == 8
        || d == 9);
    if n >= 10 {
        lemma_decimal_all_digits(n / 10);
        assert forall|i: int| 0 <= i < decimal(n).len() implies digit_value(
            #[trigger] decimal(n)[i],
        ) is Some by {
            if i < decimal(n / 10).len() {
                assert(decimal(n)[i] == decimal(n / 10)[i]);
            }
        }
    }
}

proof fn lemma_digit_is_plain(d: nat)
    requires
        d < 10,
    ensures
        !is_punctuation(digit(d)),
{
    assert(d == 0 || d == 1 || d == 2 || d == 3 || d == 4 || d == 5 || d == 6 || d == 7 || d == 8
        || d == 9);
}

proof fn lemma_decimal_is_digits(n: nat)
    ensures
        forall|i: int| 0 <= i < decimal(n).len() ==> !is_punctuation(#[trigger] decimal(n)[i]),
    decreases n,
{
    lemma_digit_is_plain(n % 10);
    if n >= 10 {
        lemma_decimal_is_digits(n / 10);
        assert forall|i: int| 0 <= i < decimal(n).len() implies !is_punctuation(
            #[trigger] decimal(n)[i],
        ) by {
            if i < decimal(n / 10).len() {
                assert(decimal(n)[i] == decimal(n / 10)[i]);
            }
        }
    }
}

/// No run of backticks in a text is as long as the fence around it.
pub proof fn a_fence_cannot_be_closed_from_inside(text: Seq<char>, start: int, end: int)
    requires
        text.len() < usize::MAX,
        0 <= start <= end <= text.len(),
        forall|i: int| start <= i < end ==> #[trigger] text[i] == '`',
    ensures
        end - start < fence_length(text),
        fence_length(text) >= 3,
{
    lemma_runs_bounded(text);
    lemma_run_is_counted(text, start, end);
}

proof fn lemma_run_is_counted(text: Seq<char>, start: int, end: int)
    requires
        0 <= start <= end <= text.len(),
        forall|i: int| start <= i < end ==> #[trigger] text[i] == '`',
    ensures
        end - start <= backtick_runs(text).0,
        end == text.len() ==> end - start <= backtick_runs(text).1,
    decreases text.len(),
{
    if text.len() > 0 {
        let rest = text.drop_last();
        if end < text.len() {
            assert forall|i: int| start <= i < end implies #[trigger] rest[i] == '`' by {
                assert(rest[i] == text[i]);
            }
            lemma_run_is_counted(rest, start, end);
        } else if start < end {
            assert forall|i: int| start <= i < end - 1 implies #[trigger] rest[i] == '`' by {
                assert(rest[i] == text[i]);
            }
            lemma_run_is_counted(rest, start, end - 1);
            assert(text[end - 1] == '`');
        }
    }
}

} // verus!
