//! Placeholder substitution: every `{{ name }}` in a text is replaced by the
//! value that the context binds to `name`.
//!
//! Finding the placeholders is the work of the `regex` crate; what is put in
//! their place, and how the pieces are joined again, is decided here.

use crate::context::Context;
use regex::Regex;
use vstd::prelude::*;
use vstd::string::StringExecFns;

verus! {

/// What a placeholder looks like: two opening braces, optional white space, a
/// name of at least one character matched as short as possible, optional white
/// space, two closing braces.
pub const PLACEHOLDER_PATTERN: &'static str = "\\{\\{\\s*(.+?)\\s*\\}\\}";

/// The text that stands in for a placeholder whose name the context does not
/// bind.
pub const CTX_MISS: &'static str = "CTX MISS";

/// The stretches of `text` that no placeholder covers, in order: the text
/// before the first placeholder, the text between each two neighbours, and the
/// text after the last one. Placeholders are the successive non-overlapping
/// matches of [`PLACEHOLDER_PATTERN`], found from left to right.
pub uninterp spec fn placeholder_gaps(text: Seq<char>) -> Seq<Seq<char>>;

/// The names captured by the placeholders of `text`, in order of appearance.
/// Placeholders are the successive non-overlapping matches of
/// [`PLACEHOLDER_PATTERN`], found from left to right; the name is what its one
/// capture group matched.
pub uninterp spec fn placeholder_names(text: Seq<char>) -> Seq<Seq<char>>;

/// The character sequences that a list of strings holds.
pub open spec fn texts(strings: Seq<String>) -> Seq<Seq<char>> {
    strings.map_values(|s: String| s@)
}

/// The value that replaces a placeholder called `name`.
pub open spec fn resolved(ctx: Map<Seq<char>, Seq<char>>, name: Seq<char>) -> Seq<char> {
    if ctx.contains_key(name) {
        ctx[name]
    } else {
        CTX_MISS@
    }
}

/// The `i`-th of `pieces`, or nothing where there is no such piece.
pub open spec fn piece(pieces: Seq<Seq<char>>, i: int) -> Seq<char> {
    if 0 <= i < pieces.len() {
        pieces[i]
    } else {
        Seq::empty()
    }
}

/// The first `rounds` gaps, each followed by the value of the placeholder that
/// came after it.
pub open spec fn spliced_upto(
    gaps: Seq<Seq<char>>,
    names: Seq<Seq<char>>,
    ctx: Map<Seq<char>, Seq<char>>,
    rounds: nat,
) -> Seq<char>
    decreases rounds,
{
    if rounds == 0 {
        Seq::empty()
    } else {
        let i = rounds - 1;
        spliced_upto(gaps, names, ctx, i as nat) + piece(gaps, i) + (if i < names.len() {
            resolved(ctx, names[i])
        } else {
            Seq::empty()
        })
    }
}

/// Gaps and placeholder values in alternation, starting with the first gap:
/// gap, value, gap, value, and so on until both lists are used up.
pub open spec fn spliced(
    gaps: Seq<Seq<char>>,
    names: Seq<Seq<char>>,
    ctx: Map<Seq<char>, Seq<char>>,
) -> Seq<char> {
    spliced_upto(
        gaps,
        names,
        ctx,
        if gaps.len() >= names.len() {
            gaps.len()
        } else {
            names.len()
        },
    )
}

/// `text` with every placeholder replaced by the value that `ctx` binds to its
/// name, or by [`CTX_MISS`] where it binds none.
pub open spec fn injected(text: Seq<char>, ctx: Map<Seq<char>, Seq<char>>) -> Seq<char> {
    spliced(placeholder_gaps(text), placeholder_names(text), ctx)
}

/// `Regex::split` with [`PLACEHOLDER_PATTERN`]: the substrings of `text`
/// delimited by the matches of the pattern, as owned strings. The pattern is a
/// valid regular expression, so `Regex::new` accepts it. The result is a
/// function of `text` alone, named [`placeholder_gaps`]; nothing else is
/// claimed of it.
#[verifier::external_body]
fn split_at_placeholders(text: &str) -> (gaps: Vec<String>)
    ensures
        texts(gaps@) == placeholder_gaps(text@),
{
    let pattern = Regex::new(PLACEHOLDER_PATTERN).unwrap();
    pattern.split(text).map(|gap| gap.to_string()).collect()
}

/// `Regex::captures_iter` with [`PLACEHOLDER_PATTERN`]: for each match in
/// `text`, the substring that capture group 1 matched, as an owned string. The
/// pattern is a valid regular expression, so `Regex::new` accepts it, and its
/// one group takes part in every match. The result is a function of `text`
/// alone, named [`placeholder_names`]; nothing else is claimed of it.
#[verifier::external_body]
fn capture_names(text: &str) -> (names: Vec<String>)
    ensures
        texts(names@) == placeholder_names(text@),
{
    let pattern = Regex::new(PLACEHOLDER_PATTERN).unwrap();
    pattern.captures_iter(text).map(|found| found.get(1).unwrap().as_str().to_string()).collect()
}

/// Looks a placeholder name up in the context.
pub fn resolve<'a>(ctx: &'a Context, name: &str) -> (value: &'a str)
    ensures
        value@ == resolved(ctx@, name@),
{
    match ctx.get(name) {
        Some(bound) => bound.as_str(),
        None => CTX_MISS,
    }
}

/// Joins the gaps of a text with the values of the placeholders that stood
/// between them.
pub fn splice(gaps: &Vec<String>, names: &Vec<String>, ctx: &Context) -> (out: String)
    ensures
        out@ == spliced(texts(gaps@), texts(names@), ctx@),
{
    let rounds = if gaps.len() >= names.len() {
        gaps.len()
    } else {
        names.len()
    };
    let mut out = String::new();
    let mut i: usize = 0;
    while i < rounds
        invariant
            i <= rounds,
            rounds >= gaps@.len(),
            rounds >= names@.len(),
            out@ == spliced_upto(texts(gaps@), texts(names@), ctx@, i as nat),
        decreases rounds - i,
    {
        if i < gaps.len() {
            out.append(gaps[i].as_str());
        }
        if i < names.len() {
            out.append(resolve(ctx, names[i].as_str()));
        }
        i += 1;
    }
    out
}

/// Replaces every placeholder of `target_str` by its value in `ctx`.
pub fn inject_context(target_str: &str, ctx: &Context) -> (out: String)
    ensures
        out@ == injected(target_str@, ctx@),
{
    let gaps = split_at_placeholders(target_str);
    let names = capture_names(target_str);
    splice(&gaps, &names, ctx)
}

} // verus!
