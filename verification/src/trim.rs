//! White space, and a text without the white space around it.

use crate::chars::chars_of;
use vstd::prelude::*;
use vstd::string::*;

verus! {

/// Whether `c` is white space: a character with the Unicode property
/// `White_Space`. Line feed and carriage return are among them.
pub open spec fn is_space(c: char) -> bool {
    let u = c as u32;
    ||| 0x09 <= u <= 0x0D
    ||| u == 0x20
    ||| u == 0x85
    ||| u == 0xA0
    ||| u == 0x1680
    ||| 0x2000 <= u <= 0x200A
    ||| u == 0x2028
    ||| u == 0x2029
    ||| u == 0x202F
    ||| u == 0x205F
    ||| u == 0x3000
}

/// `s` without the white space that leads it.
pub open spec fn trim_start(s: Seq<char>) -> Seq<char>
    decreases s.len(),
{
    if s.len() > 0 && is_space(s.first()) {
        trim_start(s.drop_first())
    } else {
        s
    }
}

/// `s` without the white space that ends it.
pub open spec fn trim_end(s: Seq<char>) -> Seq<char>
    decreases s.len(),
{
    if s.len() > 0 && is_space(s.last()) {
        trim_end(s.drop_last())
    } else {
        s
    }
}

/// `s` without the white space around it.
pub open spec fn trimmed(s: Seq<char>) -> Seq<char> {
    trim_end(trim_start(s))
}

/// Whether every character of `s` is white space.
pub open spec fn all_space(s: Seq<char>) -> bool {
    forall|i: int| 0 <= i < s.len() ==> is_space(#[trigger] s[i])
}

/// Whether `s` neither begins nor ends with white space.
pub open spec fn is_trim(s: Seq<char>) -> bool {
    s.len() > 0 ==> !is_space(s.first()) && !is_space(s.last())
}

/// White space before a text does not change what is left of it once it is
/// trimmed at the start.
pub proof fn lemma_trim_start_skips(lead: Seq<char>, s: Seq<char>)
    requires
        all_space(lead),
    ensures
        trim_start(lead + s) == trim_start(s),
    decreases lead.len(),
{
    if lead.len() == 0 {
        assert(lead + s =~= s);
    } else {
        assert((lead + s).first() == lead[0]);
        assert((lead + s).drop_first() =~= lead.drop_first() + s);
        lemma_trim_start_skips(lead.drop_first(), s);
    }
}

/// White space after a text does not change what is left of it once it is
/// trimmed at the end.
pub proof fn lemma_trim_end_skips(s: Seq<char>, tail: Seq<char>)
    requires
        all_space(tail),
    ensures
        trim_end(s + tail) == trim_end(s),
    decreases tail.len(),
{
    if tail.len() == 0 {
        assert(s + tail =~= s);
    } else {
        assert((s + tail).last() == tail[tail.len() - 1]);
        assert((s + tail).drop_last() =~= s + tail.drop_last());
        lemma_trim_end_skips(s, tail.drop_last());
    }
}

/// Trimming takes away the white space around a text and nothing else: a text
/// that neither begins nor ends with white space comes back as it is,
/// whatever white space is put around it.
pub proof fn lemma_trim_around(lead: Seq<char>, core: Seq<char>, tail: Seq<char>)
    requires
        all_space(lead),
        all_space(tail),
        is_trim(core),
    ensures
        trimmed(lead + core + tail) == core,
{
    assert(lead + core + tail =~= lead + (core + tail));
    lemma_trim_start_skips(lead, core + tail);
    if core.len() == 0 {
        assert(core + tail =~= tail + core);
        lemma_trim_start_skips(tail, core);
    } else {
        assert((core + tail).first() == core.first());
        lemma_trim_end_skips(core, tail);
    }
}

/// What trimming at the start leaves is the end of the text, it does not begin
/// with white space, and what it took away is white space.
pub proof fn lemma_trim_start_shape(s: Seq<char>)
    ensures
        trim_start(s).len() <= s.len(),
        trim_start(s) == s.skip(s.len() - trim_start(s).len()),
        all_space(s.take(s.len() - trim_start(s).len())),
        trim_start(s).len() > 0 ==> !is_space(trim_start(s).first()),
    decreases s.len(),
{
    if s.len() > 0 && is_space(s.first()) {
        let rest = s.drop_first();
        lemma_trim_start_shape(rest);
        let cut = rest.len() - trim_start(rest).len();
        assert(rest.skip(cut) =~= s.skip(cut + 1));
        assert forall|i: int| 0 <= i < cut + 1 implies is_space(#[trigger] s.take(cut + 1)[i]) by {
            if i > 0 {
                assert(s.take(cut + 1)[i] == rest.take(cut)[i - 1]);
            }
        }
    } else {
        assert(s.skip(0) =~= s);
    }
}

/// What trimming at the end leaves is the beginning of the text, it does not
/// end with white space, and what it took away is white space.
pub proof fn lemma_trim_end_shape(s: Seq<char>)
    ensures
        trim_end(s).len() <= s.len(),
        trim_end(s) == s.take(trim_end(s).len() as int),
        all_space(s.skip(trim_end(s).len() as int)),
        trim_end(s).len() > 0 ==> !is_space(trim_end(s).last()),
    decreases s.len(),
{
    if s.len() > 0 && is_space(s.last()) {
        let rest = s.drop_last();
        lemma_trim_end_shape(rest);
        let keep = trim_end(rest).len() as int;
        assert(rest.take(keep) =~= s.take(keep));
        assert forall|i: int| 0 <= i < s.len() - keep implies is_space(
            #[trigger] s.skip(keep)[i],
        ) by {
            if i < rest.len() - keep {
                assert(s.skip(keep)[i] == rest.skip(keep)[i]);
            }
        }
    } else {
        assert(s.take(s.len() as int) =~= s);
    }
}

/// A trimmed text is one stretch of the text, with nothing but white space
/// before and after it, and it neither begins nor ends with white space.
pub proof fn lemma_trimmed_shape(s: Seq<char>)
    ensures
        trim_start(s).len() <= s.len(),
        trimmed(s).len() <= trim_start(s).len(),
        trimmed(s) == s.subrange(
            s.len() - trim_start(s).len(),
            s.len() - trim_start(s).len() + trimmed(s).len(),
        ),
        all_space(s.take(s.len() - trim_start(s).len())),
        all_space(s.skip(s.len() - trim_start(s).len() + trimmed(s).len())),
        is_trim(trimmed(s)),
{
    let mid = trim_start(s);
    let cut = s.len() - mid.len();
    lemma_trim_start_shape(s);
    lemma_trim_end_shape(mid);
    let keep = trimmed(s).len() as int;
    assert(mid.take(keep) =~= s.subrange(cut, cut + keep));
    assert(mid.skip(keep) =~= s.skip(cut + keep));
    if keep > 0 {
        assert(trimmed(s).first() == mid.first());
    }
}

/// Trimming a trimmed text changes nothing.
pub proof fn lemma_trimmed_idempotent(s: Seq<char>)
    ensures
        trimmed(trimmed(s)) == trimmed(s),
{
    lemma_trimmed_shape(s);
    let none = Seq::<char>::empty();
    assert(none + trimmed(s) + none =~= trimmed(s));
    lemma_trim_around(none, trimmed(s), none);
}

/// Whether `c` is white space.
pub fn is_whitespace(c: char) -> (r: bool)
    ensures
        r == is_space(c),
{
    let u: u32 = c as u32;
    (0x09 <= u && u <= 0x0D) || u == 0x20 || u == 0x85 || u == 0xA0 || u == 0x1680 || (0x2000 <= u
        && u <= 0x200A) || u == 0x2028 || u == 0x2029 || u == 0x202F || u == 0x205F || u == 0x3000
}

/// The part of `s` between the white space that leads it and the white space
/// that ends it.
pub fn trim(s: &str) -> (r: &str)
    ensures
        r@ == trimmed(s@),
{
    let text = chars_of(s);
    let len = text.len();
    let mut from: usize = 0;
    assert(text@.skip(0) =~= text@);
    while from < len && is_whitespace(text[from])
        invariant
            from <= len == text@.len(),
            trim_start(text@) == trim_start(text@.skip(from as int)),
        decreases len - from,
    {
        assert(text@.skip(from as int).drop_first() =~= text@.skip(from + 1));
        from = from + 1;
    }
    assert(text@.skip(from as int) =~= text@.subrange(from as int, len as int));
    let mut to: usize = len;
    while to > from && is_whitespace(text[to - 1])
        invariant
            from <= to <= len == text@.len(),
            trim_start(text@) == text@.subrange(from as int, len as int),
            trimmed(text@) == trim_end(text@.subrange(from as int, to as int)),
        decreases to,
    {
        assert(text@.subrange(from as int, to as int).drop_last() =~= text@.subrange(
            from as int,
            to - 1,
        ));
        to = to - 1;
    }
    s.substring_char(from, to)
}

} // verus!
