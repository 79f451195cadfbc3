//! How the cursor moves while the machine reads: down by one with every
//! opening tag, up by one with every closing tag below the root.
//!
//! The closing tag's name is never compared with the opening tag's, so which
//! closer belongs to which opener is a matter of counting alone. The lemmas
//! here show that counting is enough: where the tags between an opener and a
//! closer pair off, that closer brings the cursor back to where the opener
//! found it.

use crate::parser::ParserView;
use vstd::prelude::*;

verus! {

/// How many opening tags are completed while the machine reads `input`,
/// starting from `start`.
pub open spec fn opened(start: ParserView, input: Seq<char>) -> nat
    decreases input.len(),
{
    if input.len() == 0 {
        0
    } else {
        opened(start, input.drop_last()) + (if start.run(input.drop_last()).opens_element(
            input.last(),
        ) {
            1nat
        } else {
            0nat
        })
    }
}

/// How many closing tags are completed while the machine reads `input`,
/// starting from `start`.
pub open spec fn closed(start: ParserView, input: Seq<char>) -> nat
    decreases input.len(),
{
    if input.len() == 0 {
        0
    } else {
        closed(start, input.drop_last()) + (if start.run(input.drop_last()).closes_element(
            input.last(),
        ) {
            1nat
        } else {
            0nat
        })
    }
}

/// No closing tag of `input` comes before an opening tag of `input` that it
/// could close: at every point the closers read so far are no more than the
/// openers read so far.
pub open spec fn well_nested(start: ParserView, input: Seq<char>) -> bool {
    forall|k: int|
        0 <= k <= input.len() ==> closed(start, #[trigger] input.take(k)) <= opened(
            start,
            input.take(k),
        )
}

/// The tags of `input` pair off: it is well nested, and every opening tag in
/// it has its closer in it.
pub open spec fn paired(start: ParserView, input: Seq<char>) -> bool {
    well_nested(start, input) && closed(start, input) == opened(start, input)
}

/// One character moves the cursor by at most one level: down when it
/// completes an opening tag, up when it completes a closing tag below the
/// root, and not at all otherwise. Moving down appends to the path; moving up
/// drops its last step.
pub proof fn lemma_step_moves_cursor(before: ParserView, ch: char)
    ensures
        before.opens_element(ch) ==> before.step(ch).path.drop_last() == before.path
            && before.step(ch).depth() == before.depth() + 1,
        before.closes_element(ch) && before.depth() > 0 ==> before.step(ch).path
            == before.path.drop_last() && before.step(ch).depth() == before.depth() - 1,
        before.closes_element(ch) && before.depth() == 0 ==> before.step(ch).path == before.path,
        !before.opens_element(ch) && !before.closes_element(ch) ==> before.step(ch).path
            == before.path,
{
    if before.opens_element(ch) {
        assert(before.step(ch).path.drop_last() =~= before.path);
    }
}

/// Reading a text in two parts is reading it whole.
pub proof fn lemma_run_in_parts(start: ParserView, first: Seq<char>, second: Seq<char>)
    ensures
        start.run(first + second) == start.run(first).run(second),
        opened(start, first + second) == opened(start, first) + opened(start.run(first), second),
        closed(start, first + second) == closed(start, first) + closed(start.run(first), second),
    decreases second.len(),
{
    if second.len() == 0 {
        assert(first + second =~= first);
    } else {
        let whole = first + second;
        assert(whole.drop_last() =~= first + second.drop_last());
        assert(whole.last() == second.last());
        lemma_run_in_parts(start, first, second.drop_last());
    }
}

/// While the input is well nested, the cursor never rises above where it
/// started: the path it started with stays the beginning of its path, and its
/// depth is the starting depth plus the openers minus the closers.
pub proof fn lemma_depth_counts_tags(start: ParserView, input: Seq<char>)
    requires
        well_nested(start, input),
    ensures
        start.run(input).depth() == start.depth() + opened(start, input) - closed(start, input),
        start.run(input).path.take(start.depth() as int) == start.path,
    decreases input.len(),
{
    if input.len() == 0 {
        assert(start.path.take(start.depth() as int) =~= start.path);
    } else {
        let shorter = input.drop_last();
        assert forall|k: int| 0 <= k <= shorter.len() implies closed(
            start,
            #[trigger] shorter.take(k),
        ) <= opened(start, shorter.take(k)) by {
            assert(shorter.take(k) =~= input.take(k));
        }
        lemma_depth_counts_tags(start, shorter);
        let before = start.run(shorter);
        let ch = input.last();
        lemma_step_moves_cursor(before, ch);
        assert(input.take(input.len() as int) =~= input);
        assert(closed(start, input) <= opened(start, input));
        let after = before.step(ch);
        let keep = start.depth() as int;
        if before.opens_element(ch) {
            assert(after.path.take(keep) =~= after.path.drop_last().take(keep));
        } else if before.closes_element(ch) {
            assert(before.depth() > start.depth());
            assert(after.path.take(keep) =~= before.path.take(keep));
        }
    }
}

/// Where the tags of `input` pair off, reading it leaves the cursor on the
/// node it started from.
pub proof fn lemma_paired_tags_restore_cursor(start: ParserView, input: Seq<char>)
    requires
        paired(start, input),
    ensures
        start.run(input).depth() == start.depth(),
        start.run(input).path == start.path,
{
    lemma_depth_counts_tags(start, input);
    let end = start.run(input);
    assert(end.path.take(start.depth() as int) =~= end.path);
}

/// Balanced nesting is preserved without a look at the names. Take an opening
/// tag completed at position `opener` of `input` and a closing tag completed
/// at position `closer`, with the tags between the two pairing off, so that
/// the closer is the opener's own. Then the node that the closer closes is the
/// node that the opener created, at the same depth, and after the closer the
/// cursor stands where it stood before the opener, at the same depth.
pub proof fn lemma_closer_returns_to_opener(
    start: ParserView,
    input: Seq<char>,
    opener: int,
    closer: int,
)
    requires
        0 <= opener < closer < input.len(),
        start.run(input.take(opener)).opens_element(input[opener]),
        start.run(input.take(closer)).closes_element(input[closer]),
        paired(start.run(input.take(opener + 1)), input.subrange(opener + 1, closer)),
    ensures
        start.run(input.take(closer)).depth() == start.run(input.take(opener + 1)).depth(),
        start.run(input.take(closer)).path == start.run(input.take(opener + 1)).path,
        start.run(input.take(closer + 1)).depth() == start.run(input.take(opener)).depth(),
        start.run(input.take(closer + 1)).path == start.run(input.take(opener)).path,
{
    let found = start.run(input.take(opener));
    let inside = start.run(input.take(opener + 1));
    let between = input.subrange(opener + 1, closer);
    let closing = start.run(input.take(closer));
    let left = start.run(input.take(closer + 1));

    assert(input.take(opener + 1).drop_last() =~= input.take(opener));
    assert(input.take(opener + 1).last() == input[opener]);
    assert(inside == found.step(input[opener]));
    lemma_step_moves_cursor(found, input[opener]);

    assert(input.take(closer) =~= input.take(opener + 1) + between);
    lemma_run_in_parts(start, input.take(opener + 1), between);
    assert(closing == inside.run(between));
    lemma_paired_tags_restore_cursor(inside, between);

    assert(input.take(closer + 1).drop_last() =~= input.take(closer));
    assert(input.take(closer + 1).last() == input[closer]);
    assert(left == closing.step(input[closer]));
    lemma_step_moves_cursor(closing, input[closer]);
}

/// A document whose tags all pair off is read with the cursor back at the
/// root when the input ends.
pub proof fn lemma_paired_document_ends_at_root(input: Seq<char>)
    requires
        paired(ParserView::initial(), input),
    ensures
        ParserView::initial().run(input).depth() == 0,
{
    lemma_paired_tags_restore_cursor(ParserView::initial(), input);
}

} // verus!
