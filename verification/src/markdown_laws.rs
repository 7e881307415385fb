//! What a reader sees of an answer: all of its text, and of links, images and HTML
//! the text that they stand for.

use crate::display_markdown::{
    all_replacements, all_visible, backtick_runs, decoded, displayed, fence_length, fenced,
    gfm_tree, is_inert_text, is_punctuation, literal, literal_text_has_no_markup,
    literal_text_is_read_back, replaced, replacement, replacements, visible, NodeKind, TreeView,
};
use crate::text::{
    byte_len, byte_slice, char_boundary, lemma_boundary_of_char, lemma_byte_len_prefix,
    lemma_char_boundary,
};
use vstd::prelude::*;

verus! {

/// The nodes of a tree that show something themselves, in reading order: images,
/// line breaks, and nodes that cannot have children.
pub open spec fn leaves(tree: TreeView) -> Seq<TreeView>
    decreases tree,
{
    if tree.children is None || tree.kind is Image || tree.kind is ImageReference
        || tree.kind is Break {
        seq![tree]
    } else {
        all_leaves(tree.children->0)
    }
}

/// The nodes of some trees that show something themselves, in reading order.
pub open spec fn all_leaves(trees: Seq<TreeView>) -> Seq<TreeView>
    decreases trees,
{
    if trees.len() == 0 {
        Seq::empty()
    } else {
        all_leaves(trees.drop_last()) + leaves(trees.last())
    }
}

/// What a node shows itself: a line break a new line, any other node its text.
pub open spec fn own_text(tree: TreeView) -> Seq<char> {
    if tree.kind is Break {
        seq!['\n']
    } else {
        tree.text
    }
}

/// The texts of nodes, one behind the other.
pub open spec fn own_texts(trees: Seq<TreeView>) -> Seq<char> {
    trees.map_values(|tree: TreeView| own_text(tree)).flatten()
}

proof fn lemma_own_texts(a: Seq<TreeView>, b: Seq<TreeView>)
    ensures
        own_texts(a + b) == own_texts(a) + own_texts(b),
        b.len() == 1 ==> own_texts(b) == own_text(b[0]),
        b.len() == 0 ==> own_texts(b) == Seq::<char>::empty(),
{
    let f = |tree: TreeView| own_text(tree);
    assert((a + b).map_values(f) =~= a.map_values(f) + b.map_values(f));
    lemma_flatten_concat(a.map_values(f), b.map_values(f));
    if b.len() == 1 {
        let one = b.map_values(f);
        assert(one =~= seq![own_text(b[0])]);
        one.lemma_flatten_one_element();
    }
}

proof fn lemma_flatten_concat(a: Seq<Seq<char>>, b: Seq<Seq<char>>)
    ensures
        (a + b).flatten() == a.flatten() + b.flatten(),
    decreases a.len(),
{
    if a.len() == 0 {
        assert(a + b =~= b);
        assert(a.flatten() + b.flatten() =~= b.flatten());
    } else {
        assert((a + b).drop_first() =~= a.drop_first() + b);
        lemma_flatten_concat(a.drop_first(), b);
        assert((a + b).flatten() =~= a.flatten() + b.flatten());
    }
}

/// The text that a reader sees of a tree is made of the texts of all its leaves,
/// in their order.
pub proof fn all_leaves_are_visible(tree: TreeView)
    ensures
        visible(tree) == own_texts(leaves(tree)),
    decreases tree,
{
    lemma_own_texts(Seq::empty(), seq![tree]);
    if let Some(children) = tree.children {
        lemma_all_leaves_are_visible(children);
    }
}

proof fn lemma_all_leaves_are_visible(trees: Seq<TreeView>)
    ensures
        all_visible(trees) == own_texts(all_leaves(trees)),
    decreases trees,
{
    if trees.len() == 0 {
        lemma_own_texts(Seq::empty(), Seq::empty());
    } else {
        lemma_all_leaves_are_visible(trees.drop_last());
        all_leaves_are_visible(trees.last());
        lemma_own_texts(all_leaves(trees.drop_last()), leaves(trees.last()));
    }
}

/// What stands in the place of a link is read as the texts of all nodes below it,
/// however long they are, and as a word for a link where there is none. An image
/// is read as its alternative text, or as a word for an image, and HTML as its
/// source. Nothing stands in the place of any other node.
pub proof fn a_replacement_is_read_as_what_it_replaces(tree: TreeView)
    ensures
        replacement(tree) is Some <==> (tree.kind == NodeKind::Html || tree.kind == NodeKind::Image
            || tree.kind == NodeKind::ImageReference || tree.kind == NodeKind::Link || tree.kind
            == NodeKind::LinkReference),
        tree.kind == NodeKind::Link || tree.kind == NodeKind::LinkReference ==> decoded(
            replacement(tree)->0,
        ) == (if own_texts(leaves(tree)).len() == 0 {
            "（链接）"@
        } else {
            own_texts(leaves(tree))
        }),
        tree.kind == NodeKind::Image || tree.kind == NodeKind::ImageReference ==> decoded(
            replacement(tree)->0,
        ) == (if tree.text.len() == 0 {
            "（图片）"@
        } else {
            tree.text
        }),
        tree.kind == NodeKind::Html ==> decoded(replacement(tree)->0) == tree.text,
{
    all_leaves_are_visible(tree);
    literal_text_is_read_back(visible(tree));
    literal_text_is_read_back("（链接）"@);
    literal_text_is_read_back("（图片）"@);
    literal_text_is_read_back(tree.text);
}

/// Whether a character is an ASCII character that is seen and is neither a letter
/// nor a digit.
pub open spec fn is_ascii_sign(c: char) -> bool {
    let v = c as u32;
    32 < v < 127 && !('0' as u32 <= v <= '9' as u32) && !('A' as u32 <= v <= 'Z' as u32) && !(
    'a' as u32 <= v <= 'z' as u32)
}

/// What stands in the place of an active node holds no ASCII sign that Markdown
/// could give a meaning to, but for those that character references are made of.
pub proof fn a_replacement_has_no_markup(tree: TreeView, i: int)
    requires
        replacement(tree) is Some,
        0 <= i < replacement(tree)->0.len(),
        is_ascii_sign(replacement(tree)->0[i]),
    ensures
        replacement(tree)->0[i] == '&' || replacement(tree)->0[i] == '#' || replacement(
            tree,
        )->0[i] == ';',
{
    literal_text_has_no_markup(visible(tree));
    literal_text_has_no_markup("（链接）"@);
    literal_text_has_no_markup("（图片）"@);
    literal_text_has_no_markup(tree.text);
    let shown = replacement(tree)->0;
    assert(is_punctuation(shown[i]));
    assert(shown == literal(visible(tree)) || shown == literal("（链接）"@) || shown == literal(
        "（图片）"@,
    ) || shown == literal(tree.text));
}

/// A text without ASCII signs is taken as it is without any change.
pub proof fn plain_text_stays_as_it_is(text: Seq<char>)
    requires
        forall|i: int| 0 <= i < text.len() ==> !is_ascii_sign(#[trigger] text[i]),
    ensures
        literal(text) == text,
    decreases text.len(),
{
    if text.len() > 0 {
        let rest = text.drop_last();
        assert forall|i: int| 0 <= i < rest.len() implies !is_ascii_sign(#[trigger] rest[i]) by {
            assert(rest[i] == text[i]);
        }
        plain_text_stays_as_it_is(rest);
        assert(!is_ascii_sign(text[text.len() - 1]));
        assert(literal(text) =~= text);
    } else {
        assert(literal(text) =~= text);
    }
}

// ---------------------------------------------------------------------------
// Which nodes are replaced
// ---------------------------------------------------------------------------

/// Whether a node is HTML, an image or a link.
pub open spec fn can_act(tree: TreeView) -> bool {
    tree.kind == NodeKind::Html || tree.kind == NodeKind::Image || tree.kind
        == NodeKind::ImageReference || tree.kind == NodeKind::Link || tree.kind
        == NodeKind::LinkReference
}

/// The active nodes of a tree that stand below no other one, in reading order.
pub open spec fn outermost(tree: TreeView) -> Seq<TreeView>
    decreases tree,
{
    if can_act(tree) {
        seq![tree]
    } else {
        match tree.children {
            Some(children) => all_outermost(children),
            None => Seq::empty(),
        }
    }
}

/// The active nodes of some trees that stand below no other one.
pub open spec fn all_outermost(trees: Seq<TreeView>) -> Seq<TreeView>
    decreases trees,
{
    if trees.len() == 0 {
        Seq::empty()
    } else {
        all_outermost(trees.drop_last()) + outermost(trees.last())
    }
}

/// Whether the places of some nodes are known.
pub open spec fn all_placed(nodes: Seq<TreeView>) -> bool {
    forall|i: int| 0 <= i < nodes.len() ==> (#[trigger] nodes[i]).span is Some
}

/// Whether a list holds the place of each node and what stands there instead.
pub open spec fn replaces(list: Seq<(int, int, Seq<char>)>, nodes: Seq<TreeView>) -> bool {
    &&& list.len() == nodes.len()
    &&& forall|i: int|
        #![trigger list[i]]
        #![trigger nodes[i]]
        0 <= i < list.len() ==> nodes[i].span == Some((list[i].0, list[i].1)) && replacement(
            nodes[i],
        ) == Some(list[i].2)
}

/// Every active node that stands below no other one is replaced in its place, and
/// nothing else is; where the place of one is not known, none is.
pub proof fn every_active_node_is_replaced(tree: TreeView)
    ensures
        replacements(tree) is Some <==> all_placed(outermost(tree)),
        replacements(tree) is Some ==> replaces(replacements(tree)->0, outermost(tree)),
    decreases tree,
{
    if can_act(tree) {
        assert(outermost(tree)[0] == tree);
        assert(replacement(tree) is Some);
    } else {
        assert(replacement(tree) is None);
        if let Some(children) = tree.children {
            lemma_every_active_node_is_replaced(children);
        }
    }
}

proof fn lemma_every_active_node_is_replaced(trees: Seq<TreeView>)
    ensures
        all_replacements(trees) is Some <==> all_placed(all_outermost(trees)),
        all_replacements(trees) is Some ==> replaces(
            all_replacements(trees)->0,
            all_outermost(trees),
        ),
    decreases trees,
{
    if trees.len() > 0 {
        lemma_every_active_node_is_replaced(trees.drop_last());
        every_active_node_is_replaced(trees.last());
        let before = all_outermost(trees.drop_last());
        let last = outermost(trees.last());
        let all = all_outermost(trees);
        if all_placed(all) {
            assert forall|i: int| 0 <= i < before.len() implies (#[trigger] before[i]).span is Some by {
                assert(before[i] == all[i]);
            }
            assert forall|i: int| 0 <= i < last.len() implies (#[trigger] last[i]).span is Some by {
                assert(last[i] == all[before.len() + i]);
            }
        }
        if all_replacements(trees) is Some {
            let list = all_replacements(trees)->0;
            assert forall|i: int|
                #![trigger list[i]]
                #![trigger all[i]]
                0 <= i < list.len() implies all[i].span == Some((list[i].0, list[i].1))
                && replacement(all[i]) == Some(list[i].2) by {
                if i < before.len() {
                    assert(all[i] == before[i]);
                } else {
                    assert(all[i] == last[i - before.len()]);
                }
            }
        }
    }
}

// ---------------------------------------------------------------------------
// What stays of the source
// ---------------------------------------------------------------------------

/// Texts with an item between each and the next one.
pub open spec fn woven(gaps: Seq<Seq<char>>, items: Seq<Seq<char>>) -> Seq<char>
    decreases items.len(),
{
    if items.len() == 0 {
        gaps[0]
    } else {
        gaps[0] + items[0] + woven(gaps.drop_first(), items.drop_first())
    }
}

/// What stands in the places of a list.
pub open spec fn new_texts(list: Seq<(int, int, Seq<char>)>) -> Seq<Seq<char>> {
    list.map_values(|item: (int, int, Seq<char>)| item.2)
}

/// Where the gap in front of the place at an index begins.
pub open spec fn gap_start(cursor: int, list: Seq<(int, int, Seq<char>)>, i: int) -> int {
    if i == 0 {
        cursor
    } else {
        list[i - 1].1
    }
}

/// Where the gap in front of the place at an index ends.
pub open spec fn gap_end(
    content: Seq<char>,
    list: Seq<(int, int, Seq<char>)>,
    i: int,
) -> int {
    if i == list.len() {
        byte_len(content) as int
    } else {
        list[i].0
    }
}

/// Whether a source is made of some gaps and the old texts at the places of a list,
/// from a byte on.
pub open spec fn is_parted(
    content: Seq<char>,
    cursor: int,
    list: Seq<(int, int, Seq<char>)>,
    gaps: Seq<Seq<char>>,
    olds: Seq<Seq<char>>,
) -> bool {
    &&& gaps.len() == list.len() + 1
    &&& olds.len() == list.len()
    &&& byte_slice(content, cursor, byte_len(content) as int) == Some(woven(gaps, olds))
    &&& forall|i: int|
        0 <= i < list.len() ==> byte_slice(content, (#[trigger] list[i]).0, list[i].1) == Some(
            olds[i],
        )
    &&& forall|i: int|
        0 <= i < gaps.len() ==> byte_slice(
            content,
            gap_start(cursor, list, i),
            gap_end(content, list, i),
        ) == Some(#[trigger] gaps[i])
}

/// Whether the places of a list follow one another in a source, from a byte on.
pub open spec fn places_follow(
    content: Seq<char>,
    cursor: int,
    list: Seq<(int, int, Seq<char>)>,
) -> bool {
    &&& char_boundary(content, cursor) is Some
    &&& forall|i: int|
        0 <= i < list.len() ==> byte_slice(content, (#[trigger] list[i]).0, list[i].1) is Some
            && gap_start(cursor, list, i) <= list[i].0
}

proof fn lemma_slices_join(content: Seq<char>, a: int, b: int, c: int)
    requires
        byte_slice(content, a, b) is Some,
        byte_slice(content, b, c) is Some,
    ensures
        byte_slice(content, a, c) == Some(
            byte_slice(content, a, b)->0 + byte_slice(content, b, c)->0,
        ),
{
    lemma_char_boundary(content, a);
    lemma_char_boundary(content, b);
    lemma_char_boundary(content, c);
    let i = char_boundary(content, a)->0;
    let j = char_boundary(content, b)->0;
    let k = char_boundary(content, c)->0;
    assert(content.subrange(i, j) + content.subrange(j, k) =~= content.subrange(i, k));
}

proof fn lemma_slice_between(content: Seq<char>, a: int, b: int)
    requires
        char_boundary(content, a) is Some,
        char_boundary(content, b) is Some,
        a <= b,
    ensures
        byte_slice(content, a, b) is Some,
{
    lemma_char_boundary(content, a);
    lemma_char_boundary(content, b);
    let i = char_boundary(content, a)->0;
    let j = char_boundary(content, b)->0;
    if j < i {
        lemma_byte_len_prefix(content, j, i);
    }
}

/// What stands outside the places of a list stays, character by character and in
/// its order: the source is some gaps with the old texts between them, and the
/// result the same gaps with the new texts between them. There is a result
/// wherever the places follow one another in the source.
pub proof fn the_rest_of_the_source_stays(
    content: Seq<char>,
    cursor: int,
    list: Seq<(int, int, Seq<char>)>,
)
    ensures
        places_follow(content, cursor, list) ==> replaced(content, cursor, list) is Some,
        replaced(content, cursor, list) is Some ==> exists|gaps: Seq<Seq<char>>, olds: Seq<Seq<char>>|
            #[trigger] is_parted(content, cursor, list, gaps, olds) && replaced(
                content,
                cursor,
                list,
            ) == Some(woven(gaps, new_texts(list))),
    decreases list.len(),
{
    assert(content.subrange(0, content.len() as int) =~= content);
    lemma_boundary_of_char(content, content.len() as int);
    lemma_char_boundary(content, cursor);
    let size = byte_len(content) as int;
    if list.len() == 0 {
        if char_boundary(content, cursor) is Some {
            let k = char_boundary(content, cursor)->0;
            lemma_byte_len_prefix(content, k, content.len() as int);
            lemma_slice_between(content, cursor, size);
        }
        if replaced(content, cursor, list) is Some {
            let gaps = seq![replaced(content, cursor, list)->0];
            let olds = Seq::<Seq<char>>::empty();
            assert(woven(gaps, olds) == gaps[0]);
            assert(woven(gaps, new_texts(list)) == gaps[0]);
            assert(is_parted(content, cursor, list, gaps, olds));
        }
    } else {
        let (start, end, text) = list[0];
        let rest = list.drop_first();
        the_rest_of_the_source_stays(content, end, rest);
        if places_follow(content, cursor, list) {
            assert(byte_slice(content, list[0].0, list[0].1) is Some);
            lemma_slice_between(content, cursor, start);
            assert(char_boundary(content, end) is Some);
            assert forall|i: int| 0 <= i < rest.len() implies byte_slice(
                content,
                (#[trigger] rest[i]).0,
                rest[i].1,
            ) is Some && gap_start(end, rest, i) <= rest[i].0 by {
                assert(rest[i] == list[i + 1]);
            }
        }
        if replaced(content, cursor, list) is Some {
            let (later, olds) = choose|gaps: Seq<Seq<char>>, olds: Seq<Seq<char>>|
                #[trigger] is_parted(content, end, rest, gaps, olds) && replaced(content, end, rest)
                    == Some(woven(gaps, new_texts(rest)));
            let gap = byte_slice(content, cursor, start)->0;
            let old = byte_slice(content, start, end)->0;
            let gaps = seq![gap] + later;
            let all_olds = seq![old] + olds;
            assert(gaps.drop_first() =~= later);
            assert(all_olds.drop_first() =~= olds);
            assert(new_texts(list).drop_first() =~= new_texts(rest));
            assert(new_texts(list)[0] == text);
            lemma_slices_join(content, cursor, start, end);
            lemma_slices_join(content, cursor, end, size);
            assert(woven(gaps, all_olds) == gap + old + woven(later, olds));
            assert forall|i: int| 0 <= i < list.len() implies byte_slice(
                content,
                (#[trigger] list[i]).0,
                list[i].1,
            ) == Some(all_olds[i]) by {
                if i > 0 {
                    assert(rest[i - 1] == list[i]);
                }
            }
            assert forall|i: int| 0 <= i < gaps.len() implies byte_slice(
                content,
                gap_start(cursor, list, i),
                gap_end(content, list, i),
            ) == Some(#[trigger] gaps[i]) by {
                if i > 0 {
                    assert(gaps[i] == later[i - 1]);
                    assert(gap_start(cursor, list, i) == gap_start(end, rest, i - 1));
                    assert(gap_end(content, list, i) == gap_end(content, rest, i - 1));
                }
            }
            assert(is_parted(content, cursor, list, gaps, all_olds));
            assert(replaced(content, cursor, list) == Some(woven(gaps, new_texts(list))));
        }
    }
}

// ---------------------------------------------------------------------------
// What is shown
// ---------------------------------------------------------------------------

/// An answer without active nodes is shown as it is. Any other one is shown with
/// every active node replaced and the rest of it unchanged, wherever the places of
/// the nodes are known and follow one another and the result is inert; and as one
/// block of code otherwise.
pub proof fn an_answer_is_shown_with_its_active_nodes_replaced(content: Seq<char>)
    ensures
        gfm_tree(content) is None ==> displayed(content) == fenced(content),
        gfm_tree(content) is Some && outermost(gfm_tree(content)->0).len() == 0 ==> displayed(
            content,
        ) == content,
        gfm_tree(content) is Some && outermost(gfm_tree(content)->0).len() > 0 && !all_placed(
            outermost(gfm_tree(content)->0),
        ) ==> displayed(content) == fenced(content),
        forall|list: Seq<(int, int, Seq<char>)>, gaps: Seq<Seq<char>>, olds: Seq<Seq<char>>|
            #![trigger is_parted(content, 0, list, gaps, olds)]
            gfm_tree(content) is Some && list.len() > 0 && replaces(
                list,
                outermost(gfm_tree(content)->0),
            ) && places_follow(content, 0, list) && is_parted(content, 0, list, gaps, olds)
                ==> displayed(content) == (if is_inert_text(woven(gaps, new_texts(list))) {
                woven(gaps, new_texts(list))
            } else {
                fenced(content)
            }),
{
    if let Some(tree) = gfm_tree(content) {
        every_active_node_is_replaced(tree);
        assert forall|list: Seq<(int, int, Seq<char>)>, gaps: Seq<Seq<char>>, olds: Seq<Seq<char>>|
            #![trigger is_parted(content, 0, list, gaps, olds)]
            list.len() > 0 && replaces(list, outermost(tree)) && places_follow(content, 0, list)
                && is_parted(content, 0, list, gaps, olds) implies displayed(content) == (
        if is_inert_text(woven(gaps, new_texts(list))) {
            woven(gaps, new_texts(list))
        } else {
            fenced(content)
        }) by {
            let nodes = outermost(tree);
            assert forall|i: int| 0 <= i < nodes.len() implies (#[trigger] nodes[i]).span is Some by {
                assert(nodes[i].span == Some((list[i].0, list[i].1)));
            }
            let own = replacements(tree)->0;
            assert forall|i: int| 0 <= i < own.len() implies own[i] == list[i] by {
                assert(nodes[i].span == Some((list[i].0, list[i].1)));
                assert(nodes[i].span == Some((own[i].0, own[i].1)));
            }
            assert(own =~= list);
            the_rest_of_the_source_stays(content, 0, list);
            let (other, others) = choose|gaps: Seq<Seq<char>>, olds: Seq<Seq<char>>|
                #[trigger] is_parted(content, 0, list, gaps, olds) && replaced(content, 0, list)
                    == Some(woven(gaps, new_texts(list)));
            assert forall|i: int| 0 <= i < gaps.len() implies gaps[i] == other[i] by {
                assert(Some(gaps[i]) == Some(other[i]));
            }
            assert(gaps =~= other);
        }
    }
}

/// Whether a stretch of a text is made of backticks.
pub open spec fn is_run(text: Seq<char>, start: int, end: int) -> bool {
    &&& 0 <= start <= end <= text.len()
    &&& forall|i: int| start <= i < end ==> #[trigger] text[i] == '`'
}

proof fn lemma_longest_run_stands(text: Seq<char>) -> (start: int)
    ensures
        is_run(text, start, start + backtick_runs(text).0),
        is_run(text, text.len() - backtick_runs(text).1, text.len() as int),
    decreases text.len(),
{
    if text.len() == 0 {
        0
    } else {
        let rest = text.drop_last();
        let found = lemma_longest_run_stands(rest);
        let (longest, current) = backtick_runs(text);
        assert forall|i: int| text.len() - current <= i < text.len() implies #[trigger] text[i]
            == '`' by {
            if i < rest.len() {
                assert(rest[i] == text[i]);
            }
        }
        if longest == backtick_runs(rest).0 {
            assert forall|i: int| found <= i < found + longest implies #[trigger] text[i]
                == '`' by {
                assert(rest[i] == text[i]);
            }
            found
        } else {
            text.len() - longest
        }
    }
}

/// An answer that is shown as one block of code stands in it whole, between two
/// lines of backticks. They are no longer than they have to be: three backticks,
/// or one more than some run of backticks in the answer has.
pub proof fn a_literal_answer_stands_in_its_block(text: Seq<char>)
    requires
        text.len() < usize::MAX,
    ensures
        ({
            let n = fence_length(text) as int;
            let shown = fenced(text);
            &&& shown.len() == 2 * n + text.len() + 7
            &&& is_run(shown, 0, n)
            &&& shown.subrange(n, n + 5) == "text\n"@
            &&& shown.subrange(n + 5, n + 5 + text.len()) == text
            &&& shown[n + 5 + text.len()] == '\n'
            &&& is_run(shown, n + 6 + text.len(), 2 * n + 6 + text.len())
            &&& shown.last() == '\n'
            &&& n == 3 || exists|start: int| #[trigger] is_run(text, start, start + n - 1)
        }),
{
    let n = fence_length(text) as int;
    let shown = fenced(text);
    reveal_strlit("text\n");
    reveal_strlit("\n");
    assert(shown.subrange(n + 5, n + 5 + text.len()) =~= text);
    assert(shown.subrange(n, n + 5) =~= "text\n"@);
    let start = lemma_longest_run_stands(text);
    if n != 3 {
        assert(backtick_runs(text).0 == n - 1);
        assert(is_run(text, start, start + n - 1));
    }
}

} // verus!
