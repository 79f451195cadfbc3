//! Specifications for the few `String` and `char` operations of the standard
//! library that the engine relies on.

use vstd::prelude::*;

verus! {

/// `suffix` is the tail end of `text`.
pub open spec fn is_suffix(suffix: Seq<char>, text: Seq<char>) -> bool {
    &&& suffix.len() <= text.len()
    &&& text.subrange(text.len() - suffix.len(), text.len() as int) == suffix
}

/// Whether the standard library classifies `c` as alphanumeric
/// (`char::is_alphanumeric`, the Unicode `Alphabetic` property or one of the
/// numeric general categories).
pub uninterp spec fn alphanumeric(c: char) -> bool;

/// Whether the standard library classifies `c` as white space
/// (`char::is_whitespace`, the Unicode `White_Space` property).
pub uninterp spec fn whitespace(c: char) -> bool;

/// `char::is_whitespace` is a fixed classification of characters; it is known
/// to the proofs only by name.
pub assume_specification[ char::is_whitespace ](c: char) -> (b: bool)
    ensures
        b == whitespace(c),
;

/// `String::push` appends exactly one character.
pub assume_specification[ String::push ](s: &mut String, ch: char)
    ensures
        final(s)@ == old(s)@.push(ch),
;

/// `String::clear` leaves the string empty.
pub assume_specification[ String::clear ](s: &mut String)
    ensures
        final(s)@ == Seq::<char>::empty(),
;

/// `char::is_alphanumeric` is a fixed classification of characters; it is
/// known to the proofs only by name.
pub assume_specification[ char::is_alphanumeric ](c: char) -> (b: bool)
    ensures
        b == alphanumeric(c),
;

/// `str::ends_with` with a string pattern: true exactly when the text ends with
/// the characters of `suffix`.
#[verifier::external_body]
pub(crate) fn ends_with(text: &str, suffix: &str) -> (b: bool)
    ensures
        b == is_suffix(suffix@, text@),
{
    text.ends_with(suffix)
}

/// Whether two string slices hold the same characters.
pub fn same_text(a: &str, b: &str) -> (same: bool)
    ensures
        same == (a@ == b@),
{
    a.to_owned() == b.to_owned()
}

/// The characters of a string slice, one by one.
pub fn chars_of(text: &str) -> (chars: Vec<char>)
    ensures
        chars@ == text@,
{
    let mut chars: Vec<char> = Vec::new();
    for ch in rest: text.chars()
        invariant
            rest.seq() == text@,
            chars@ == text@.take(rest.index()),
    {
        chars.push(ch);
        assert(chars@ =~= text@.take(rest.index() + 1));
    }
    assert(text@.take(text@.len() as int) =~= text@);
    chars
}

/// The characters of `chars` from `from` up to `to`, as a string.
pub fn string_of(chars: &Vec<char>, from: usize, to: usize) -> (text: String)
    requires
        from <= to <= chars@.len(),
    ensures
        text@ == chars@.subrange(from as int, to as int),
{
    let mut text = String::new();
    let mut i: usize = from;
    while i < to
        invariant
            from <= i <= to <= chars@.len(),
            text@ == chars@.subrange(from as int, i as int),
        decreases to - i,
    {
        text.push(chars[i]);
        assert(text@ =~= chars@.subrange(from as int, i + 1));
        i += 1;
    }
    text
}

/// The decimal digit that stands for `d`.
pub open spec fn digit(d: nat) -> char {
    if d == 0 {
        '0'
    } else if d == 1 {
        '1'
    } else if d == 2 {
        '2'
    } else if d == 3 {
        '3'
    } else if d == 4 {
        '4'
    } else if d == 5 {
        '5'
    } else if d == 6 {
        '6'
    } else if d == 7 {
        '7'
    } else if d == 8 {
        '8'
    } else {
        '9'
    }
}

/// A natural number in decimal notation, without leading zeros.
pub open spec fn decimal(n: nat) -> Seq<char>
    decreases n,
{
    if n < 10 {
        seq![digit(n)]
    } else {
        decimal(n / 10).push(digit(n % 10))
    }
}

/// An integer in decimal notation: a minus sign before the digits of a
/// negative number, no sign otherwise.
pub open spec fn signed_decimal(n: int) -> Seq<char> {
    if n < 0 {
        seq!['-'] + decimal((-n) as nat)
    } else {
        decimal(n as nat)
    }
}

/// The decimal digit that stands for `d`.
fn digit_char(d: u64) -> (c: char)
    requires
        d < 10,
    ensures
        c == digit(d as nat),
{
    if d == 0 {
        '0'
    } else if d == 1 {
        '1'
    } else if d == 2 {
        '2'
    } else if d == 3 {
        '3'
    } else if d == 4 {
        '4'
    } else if d == 5 {
        '5'
    } else if d == 6 {
        '6'
    } else if d == 7 {
        '7'
    } else if d == 8 {
        '8'
    } else {
        '9'
    }
}

/// Appends `n` in decimal notation to `out`.
pub fn push_decimal(out: String, n: u64) -> (longer: String)
    ensures
        longer@ == out@ + decimal(n as nat),
    decreases n,
{
    let mut longer = if n < 10 {
        out
    } else {
        push_decimal(out, n / 10)
    };
    longer.push(digit_char(n % 10));
    assert(longer@ =~= out@ + decimal(n as nat));
    longer
}

/// Appends `n` in decimal notation to `out`, with a minus sign where it is
/// negative.
pub fn push_signed_decimal(out: String, n: i32) -> (longer: String)
    ensures
        longer@ == out@ + signed_decimal(n as int),
{
    if n < 0 {
        let mut signed = out;
        signed.push('-');
        let size: u64 = (-(n as i64)) as u64;
        let longer = push_decimal(signed, size);
        assert(longer@ =~= out@ + signed_decimal(n as int));
        longer
    } else {
        push_decimal(out, n as u64)
    }
}

} // verus!
