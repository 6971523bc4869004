//! What the readings of a text mean.
use vstd::prelude::*;
use vstd::utf8::*;
use crate::text;

verus! {

/// A text that occurs is found, at its first occurrence or before.
pub proof fn a_text_that_occurs_is_found(s: Seq<char>, pattern: Seq<char>, from: int, k: int)
    requires
        0 <= from <= k,
        text::occurs_at(s, pattern, k),
    ensures
        text::find_from(s, pattern, from) matches Some(i) && from <= i <= k && s.subrange(
            i,
            i + pattern.len(),
        ) == pattern,
    decreases k - from,
{
    if !text::occurs_at(s, pattern, from) {
        a_text_that_occurs_is_found(s, pattern, from + 1, k);
    }
}

/// A code point that shows nothing: one of the two blocks of control codes.
pub open spec fn shows_nothing(c: char) -> bool {
    c as u32 <= 31 || 127 <= c as u32 <= 159
}

/// A code point that is white space.
pub open spec fn is_white(c: char) -> bool {
    let n = c as u32;
    ||| 9 <= n <= 13
    ||| n == 32
    ||| n == 0x85
    ||| n == 0xa0
    ||| n == 0x1680
    ||| 0x2000 <= n <= 0x200a
    ||| n == 0x2028
    ||| n == 0x2029
    ||| n == 0x202f
    ||| n == 0x205f
    ||| n == 0x3000
}

/// The text holds no control code.
pub open spec fn is_clean(s: Seq<char>) -> bool {
    forall|i: int| 0 <= i < s.len() ==> !shows_nothing(#[trigger] s[i])
}

/// The text holds white space at most.
pub open spec fn is_blank(s: Seq<char>) -> bool {
    forall|i: int| 0 <= i < s.len() ==> is_white(#[trigger] s[i])
}

/// A text has a control character exactly where it is not clean.
pub proof fn controls_are_what_is_not_clean(s: Seq<char>)
    ensures
        text::has_control(s) <==> !is_clean(s),
{
    if !is_clean(s) {
        let i = choose|i: int| 0 <= i < s.len() && shows_nothing(#[trigger] s[i]);
        assert(text::is_control_char(s[i]));
    }
    if text::has_control(s) {
        let i = choose|i: int| 0 <= i < s.len() && text::is_control_char(#[trigger] s[i]);
        assert(shows_nothing(s[i]));
    }
}

proof fn lemma_trim_start(s: Seq<char>) -> (a: int)
    ensures
        0 <= a <= s.len(),
        text::trim_start(s) == s.subrange(a, s.len() as int),
        is_blank(s.take(a)),
        a < s.len() ==> !is_white(s[a]),
    decreases s.len(),
{
    if s.len() > 0 && text::is_space_char(s.first()) {
        let rest = s.drop_first();
        let a = lemma_trim_start(rest);
        assert(rest.subrange(a, rest.len() as int) =~= s.subrange(a + 1, s.len() as int));
        assert forall|i: int| 0 <= i < s.take(a + 1).len() implies is_white(
            #[trigger] s.take(a + 1)[i],
        ) by {
            if i > 0 {
                assert(rest.take(a)[i - 1] == s.take(a + 1)[i]);
            }
        }
        a + 1
    } else {
        assert(s.subrange(0, s.len() as int) =~= s);
        0
    }
}

proof fn lemma_trim_end(s: Seq<char>) -> (b: int)
    ensures
        0 <= b <= s.len(),
        text::trim_end(s) == s.take(b),
        is_blank(s.skip(b)),
        b > 0 ==> !is_white(s[b - 1]),
    decreases s.len(),
{
    if s.len() > 0 && text::is_space_char(s.last()) {
        let rest = s.drop_last();
        let b = lemma_trim_end(rest);
        assert(rest.take(b) =~= s.take(b));
        assert forall|i: int| 0 <= i < s.skip(b).len() implies is_white(#[trigger] s.skip(b)[i]) by {
            if i < rest.skip(b).len() {
                assert(rest.skip(b)[i] == s.skip(b)[i]);
            }
        }
        b
    } else {
        assert(s.take(s.len() as int) =~= s);
        s.len() as int
    }
}

/// The part of `s` from `a` to `b` has neither end white, and all around it is.
pub open spec fn is_core(s: Seq<char>, a: int, b: int) -> bool {
    &&& 0 <= a <= b <= s.len()
    &&& forall|i: int| 0 <= i < a || b <= i < s.len() ==> is_white(#[trigger] s[i])
    &&& a < b ==> !is_white(s[a]) && !is_white(s[b - 1])
}

/// Trimming a text cuts off the white space at both ends, and nothing else.
pub proof fn trimming_cuts_white_space_at_both_ends(s: Seq<char>)
    ensures
        exists|a: int, b: int| #[trigger] is_core(s, a, b) && text::trimmed(s) == s.subrange(a, b),
{
    let a = lemma_trim_start(s);
    let rest = text::trim_start(s);
    let b = lemma_trim_end(rest);
    assert(rest.take(b) =~= s.subrange(a, a + b));
    assert forall|i: int| 0 <= i < a || a + b <= i < s.len() implies is_white(
        #[trigger] s[i],
    ) by {
        if i < a {
            assert(s.take(a)[i] == s[i]);
        } else {
            assert(rest.skip(b)[i - a - b] == s[i]);
        }
    }
    if b > 0 {
        assert(rest[b - 1] == s[a + b - 1]);
    }
    assert(is_core(s, a, a + b));
}

/// What is left of a text after trimming is nothing exactly where the text is
/// blank.
pub proof fn trimming_leaves_nothing_of_blank_texts(s: Seq<char>)
    ensures
        text::trimmed(s).len() == 0 <==> is_blank(s),
{
    trimming_cuts_white_space_at_both_ends(s);
    let (a, b) = choose|a: int, b: int| #[trigger]
        is_core(s, a, b) && text::trimmed(s) == s.subrange(a, b);
    if a < b {
        assert(!is_white(s[a]));
    }
}

/// A text counts one byte for each ASCII character, and two, three or four for each
/// of the others, as its code point grows.
pub proof fn bytes_are_counted_by_code_point(s: Seq<char>, c: char)
    ensures
        text::utf8_len(Seq::empty()) == 0,
        text::utf8_len(s.push(c)) == text::utf8_len(s) + if (c as u32) < 0x80 {
            1int
        } else if (c as u32) < 0x800 {
            2
        } else if (c as u32) < 0x10000 {
            3
        } else {
            4
        },
{
    assert(s.push(c) =~= s + seq![c]);
    text::lemma_encode_joined(s, seq![c]);
    reveal_with_fuel(encode_utf8, 2);
    assert(seq![c].drop_first() =~= Seq::empty());
    assert(encode_utf8(seq![c]) =~= encode_scalar(c as u32));
}

/// The pieces, with a separator between each two.
pub open spec fn put_together(pieces: Seq<Seq<char>>, separator: char) -> Seq<char>
    decreases pieces.len(),
{
    if pieces.len() == 0 {
        Seq::empty()
    } else if pieces.len() == 1 {
        pieces[0]
    } else {
        pieces[0] + seq![separator] + put_together(pieces.drop_first(), separator)
    }
}

/// The pieces that a text is split into hold no separator and, put together, are
/// the text; there is always one.
pub proof fn pieces_make_up_the_text(s: Seq<char>, separator: char)
    ensures
        text::split_text(s, separator).len() >= 1,
        put_together(text::split_text(s, separator), separator) == s,
        forall|i: int|
            0 <= i < text::split_text(s, separator).len() ==> !(#[trigger] text::split_text(
                s,
                separator,
            )[i]).contains(separator),
    decreases s.len(),
{
    let i = text::first_index(s, separator);
    text::lemma_first_index_bounds(s, separator);
    let pieces = text::split_text(s, separator);
    if i < s.len() {
        let rest = s.skip(i + 1);
        pieces_make_up_the_text(rest, separator);
        assert(pieces.drop_first() =~= text::split_text(rest, separator));
        assert(pieces[0] == s.take(i));
        assert(s =~= s.take(i) + seq![separator] + rest);
        assert forall|k: int| 0 <= k < pieces.len() implies !(#[trigger] pieces[k]).contains(
            separator,
        ) by {
            if k > 0 {
                assert(pieces[k] == text::split_text(rest, separator)[k - 1]);
            }
        }
    } else {
        assert(pieces =~= seq![s]);
    }
}

/// The last occurrence of a character is the one with none behind it; there is none
/// exactly where the text does not hold the character.
pub proof fn the_last_occurrence_has_none_behind_it(s: Seq<char>, c: char, k: int)
    ensures
        -1 <= text::last_index(s, c) < s.len(),
        text::last_index(s, c) >= 0 ==> s[text::last_index(s, c)] == c,
        text::last_index(s, c) < k < s.len() ==> s[k] != c,
    decreases s.len(),
{
    if s.len() > 0 && s.last() != c {
        the_last_occurrence_has_none_behind_it(s.drop_last(), c, k);
    }
}

/// The lower-case form of an ASCII text has the small letters in place of the
/// capitals, and the rest as it was.
pub proof fn lower_case_changes_capitals_alone(s: Seq<char>, i: int)
    requires
        forall|k: int| 0 <= k < s.len() ==> (#[trigger] s[k]) as u32 <= 127,
        0 <= i < s.len(),
    ensures
        text::lowercase(s).len() == s.len(),
        65 <= s[i] as u32 <= 90 ==> text::lowercase(s)[i] as u32 == s[i] as u32 + 32,
        !(65 <= s[i] as u32 <= 90) ==> text::lowercase(s)[i] == s[i],
{
}

proof fn lemma_code_order(x: char, y: char)
    ensures
        (x < y) <==> (x as u32) < (y as u32),
{
}

/// Texts are in the order of their first difference; a text stands before what it
/// begins.
pub proof fn texts_are_ordered_by_their_first_difference(a: Seq<char>, b: Seq<char>, k: int)
    requires
        0 <= k <= a.len(),
        k <= b.len(),
        forall|i: int| 0 <= i < k ==> a[i] == b[i],
        k < a.len() && k < b.len() ==> a[k] != b[k],
    ensures
        k == a.len() ==> text::text_le(a, b),
        k < a.len() && k == b.len() ==> !text::text_le(a, b),
        k < a.len() && k < b.len() ==> (text::text_le(a, b) <==> (a[k] as u32) < (b[k] as u32)),
    decreases k,
{
    if k < a.len() && k < b.len() {
        lemma_code_order(a[k], b[k]);
    }
    if k > 0 {
        let x = a.drop_first();
        let y = b.drop_first();
        assert forall|i: int| 0 <= i < k - 1 implies x[i] == y[i] by {
            assert(a[i + 1] == b[i + 1]);
        }
        texts_are_ordered_by_their_first_difference(x, y, k - 1);
        assert(a[0] == b[0]);
        assert(k < a.len() ==> x[k - 1] == a[k]);
        assert(k < b.len() ==> y[k - 1] == b[k]);
    }
}

} // verus!
