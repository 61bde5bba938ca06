//! Matching of patterns in log text.

use crate::text;
use crate::unicode;
use vstd::prelude::*;
use vstd::string::*;
use vstd::utf8::*;

verus! {

/// Each character of `s` replaced by its lower-case mapping.
pub open spec fn lowered(s: Seq<char>) -> Seq<char>
    decreases s.len(),
{
    if s.len() == 0 {
        Seq::empty()
    } else {
        lowered(s.drop_last()) + unicode::char_lowercase(s.last())
    }
}

/// Each run of white space in `s` replaced by a single space.
pub open spec fn collapsed(s: Seq<char>) -> Seq<char>
    decreases s.len(),
{
    if s.len() == 0 {
        Seq::empty()
    } else if !text::white_space(s.last()) {
        collapsed(s.drop_last()).push(s.last())
    } else if s.len() >= 2 && text::white_space(s[s.len() - 2]) {
        collapsed(s.drop_last())
    } else {
        collapsed(s.drop_last()).push(' ')
    }
}

/// The form in which log text and patterns are compared.
pub open spec fn normalized(s: Seq<char>) -> Seq<char> {
    text::trimmed(collapsed(lowered(s)))
}

/// Whether `pattern` stands in `text`, letter case and amounts of white space aside. An empty
/// pattern stands nowhere.
pub open spec fn matches_normalized(text: Seq<char>, pattern: Seq<char>) -> bool {
    normalized(pattern).len() > 0 && text::occurs(normalized(pattern), normalized(text))
}

/// Whether `pattern` stands in `text`, letter case aside.
pub open spec fn matches_caseless(text: Seq<char>, pattern: Seq<char>) -> bool {
    text::occurs(unicode::lowercase(pattern), unicode::lowercase(text))
}

/// Replaces each character of `s` by its lower-case mapping.
fn lower_chars(s: &str) -> (r: Vec<char>)
    ensures
        r@ == lowered(s@),
{
    let mut out: Vec<char> = Vec::new();
    let chars = text::chars_of(s);
    for i in 0..chars.len()
        invariant
            chars@ == s@,
            out@ == lowered(s@.take(i as int)),
    {
        let mut lower = unicode::char_to_lowercase(chars[i]);
        out.append(&mut lower);
        assert(s@.take(i + 1).drop_last() == s@.take(i as int));
    }
    assert(s@.take(s@.len() as int) == s@);
    out
}

/// Replaces each run of white space by a single space.
pub fn collapse(chars: &Vec<char>) -> (r: Vec<char>)
    ensures
        r@ == collapsed(chars@),
{
    let mut out: Vec<char> = Vec::new();
    let mut space = false;
    for i in 0..chars.len()
        invariant
            out@ == collapsed(chars@.take(i as int)),
            space == (i > 0 && text::white_space(chars@[i - 1])),
    {
        let ghost next = chars@.take(i + 1);
        assert(next.drop_last() == chars@.take(i as int));
        if text::is_whitespace(chars[i]) {
            if !space {
                out.push(' ');
                space = true;
            }
        } else {
            out.push(chars[i]);
            space = false;
        }
    }
    assert(chars@.take(chars@.len() as int) == chars@);
    out
}

/// `s` in lower case, with each run of white space made a single space and none at the ends.
pub fn normalize_text(s: &str) -> (r: String)
    ensures
        r@ == normalized(s@),
{
    let joined = text::text_of(&collapse(&lower_chars(s)));
    text::trim(joined.as_str()).to_owned()
}

/// Tells whether `pattern` stands in `text`, letter case and amounts of white space aside.
pub fn contains_normalized(text: &str, pattern: &str) -> (r: bool)
    ensures
        r == matches_normalized(text@, pattern@),
{
    let t = normalize_text(text);
    let p = normalize_text(pattern);
    !p.as_str().is_empty() && text::contains(t.as_str(), p.as_str())
}

/// Tells whether `pattern` stands in `text`, letter case aside.
pub fn contains_case_insensitive(text: &str, pattern: &str) -> (r: bool)
    ensures
        r == matches_caseless(text@, pattern@),
{
    text::contains(text.to_lowercase().as_str(), pattern.to_lowercase().as_str())
}

/// A text of ASCII characters has its capital letters put in lower case, whether that is done
/// character by character or at once.
pub proof fn law_lowering_ascii(s: Seq<char>)
    requires
        is_ascii_chars(s),
    ensures
        lowered(s) == unicode::ascii_lowercase(s),
        lowered(s) == unicode::lowercase(s),
    decreases s.len(),
{
    if s.len() > 0 {
        assert forall|i: int| 0 <= i < s.drop_last().len() implies '\0'
            <= #[trigger] s.drop_last()[i] <= '\u{7f}' by {
            assert(s.drop_last()[i] == s[i]);
        }
        law_lowering_ascii(s.drop_last());
        assert(s[s.len() - 1] == s.last());
        assert(unicode::ascii_lowercase(s) == unicode::ascii_lowercase(s.drop_last())
            + unicode::char_lowercase(s.last()));
    } else {
        assert(unicode::ascii_lowercase(s) == lowered(s));
    }
}

/// Whether every white space in `s` is a space with no other next to it.
pub open spec fn single_spaced(s: Seq<char>) -> bool {
    &&& forall|i: int| 0 <= i < s.len() && text::white_space(#[trigger] s[i]) ==> s[i] == ' '
    &&& forall|i: int, j: int|
        0 <= i < s.len() && j == i + 1 && j < s.len() ==> !(text::white_space(#[trigger] s[i])
            && text::white_space(#[trigger] s[j]))
}

/// Normalized text has no white space at its ends, and what white space it has are spaces that
/// stand alone.
pub proof fn law_normalized_shape(s: Seq<char>)
    ensures
        single_spaced(normalized(s)),
        normalized(s).len() > 0 ==> !text::white_space(normalized(s)[0]) && !text::white_space(
            normalized(s).last(),
        ),
{
    let c = collapsed(lowered(s));
    lemma_collapsed_single_spaced(lowered(s));
    text::law_trimmed_ends(c);
    lemma_trimmed_is_part(c);
    let (from, to) = choose|from: int, to: int|
        0 <= from <= to <= c.len() && text::trimmed(c) == c.subrange(from, to);
    assert forall|i: int| 0 <= i < text::trimmed(c).len() implies text::trimmed(c)[i] == c[from + i] by {}
}

/// Normalizing spaces a second time changes nothing.
pub proof fn law_collapsing_is_idempotent(s: Seq<char>)
    ensures
        collapsed(collapsed(s)) == collapsed(s),
{
    lemma_collapsed_single_spaced(s);
    law_single_spaces_are_left(collapsed(s));
}

/// Text whose white space is single spaces is left as it is.
pub proof fn law_single_spaces_are_left(s: Seq<char>)
    requires
        single_spaced(s),
    ensures
        collapsed(s) == s,
    decreases s.len(),
{
    if s.len() > 0 {
        assert(single_spaced(s.drop_last()));
        law_single_spaces_are_left(s.drop_last());
        assert(s == s.drop_last().push(s.last()));
        if s.len() >= 2 {
            assert(!(text::white_space(s[s.len() - 2]) && text::white_space(s[s.len() - 1])));
        }
    }
}

proof fn lemma_collapsed_single_spaced(s: Seq<char>)
    ensures
        single_spaced(collapsed(s)),
        s.len() > 0 ==> collapsed(s).len() > 0 && text::white_space(collapsed(s).last()) == text::white_space(
            s.last(),
        ),
        s.len() == 0 ==> collapsed(s).len() == 0,
    decreases s.len(),
{
    if s.len() > 0 {
        lemma_collapsed_single_spaced(s.drop_last());
    }
}

proof fn lemma_trimmed_is_part(s: Seq<char>)
    ensures
        exists|from: int, to: int|
            0 <= from <= to <= s.len() && text::trimmed(s) == s.subrange(from, to),
    decreases s.len(),
{
    if s.len() > 0 && text::white_space(s[0]) {
        lemma_trimmed_is_part(s.drop_first());
        let rest = s.drop_first();
        let (from, to) = choose|from: int, to: int|
            0 <= from <= to <= rest.len() && text::trimmed(rest) == rest.subrange(from, to);
        assert(rest.subrange(from, to) == s.subrange(from + 1, to + 1));
    } else {
        text::lemma_trimmed_end_last(s);
        assert(s.take(text::trimmed_end(s).len() as int) == s.subrange(0, text::trimmed_end(s).len() as int));
    }
}

/// Letters that differ in case alone make no difference to a pattern of ASCII characters.
pub proof fn law_ascii_case_does_not_matter(a: Seq<char>, b: Seq<char>)
    requires
        is_ascii_chars(a),
        is_ascii_chars(b),
        unicode::ascii_lowercase(a) == unicode::ascii_lowercase(b),
    ensures
        normalized(a) == normalized(b),
        forall|t: Seq<char>| matches_normalized(t, a) == matches_normalized(t, b),
        forall|t: Seq<char>| matches_caseless(t, a) == matches_caseless(t, b),
        forall|p: Seq<char>| matches_normalized(a, p) == matches_normalized(b, p),
        forall|p: Seq<char>| matches_caseless(a, p) == matches_caseless(b, p),
{
    law_lowering_ascii(a);
    law_lowering_ascii(b);
}

/// A text that is not blank when normalized is found in itself.
pub proof fn law_text_matches_itself(s: Seq<char>)
    ensures
        matches_normalized(s, s) == (normalized(s).len() > 0),
        matches_caseless(s, s),
{
    let n = normalized(s);
    assert(n.subrange(0, n.len() as int) == n);
    assert(text::stands_at(n, 0, n));
    let l = unicode::lowercase(s);
    assert(l.subrange(0, l.len() as int) == l);
    assert(text::stands_at(l, 0, l));
}

/// Whether each character of `s` is its own lower case.
pub open spec fn all_lower(s: Seq<char>) -> bool {
    forall|i: int| 0 <= i < s.len() ==> unicode::char_lowercase(#[trigger] s[i]) == seq![s[i]]
}

proof fn lemma_all_lower_unchanged(s: Seq<char>)
    requires
        all_lower(s),
    ensures
        lowered(s) == s,
    decreases s.len(),
{
    if s.len() > 0 {
        assert forall|i: int| 0 <= i < s.drop_last().len() implies unicode::char_lowercase(
            #[trigger] s.drop_last()[i],
        ) == seq![s.drop_last()[i]] by {
            assert(s.drop_last()[i] == s[i]);
        }
        lemma_all_lower_unchanged(s.drop_last());
        assert(unicode::char_lowercase(s[s.len() - 1]) == seq![s.last()]);
        assert(s == s.drop_last() + seq![s.last()]);
    }
}

proof fn lemma_collapsed_all_lower(s: Seq<char>)
    requires
        all_lower(s),
    ensures
        all_lower(collapsed(s)),
    decreases s.len(),
{
    if s.len() > 0 {
        assert(unicode::char_lowercase(s[s.len() - 1]) == seq![s.last()]);
        assert forall|i: int| 0 <= i < s.drop_last().len() implies unicode::char_lowercase(
            #[trigger] s.drop_last()[i],
        ) == seq![s.drop_last()[i]] by {
            assert(s.drop_last()[i] == s[i]);
        }
        lemma_collapsed_all_lower(s.drop_last());
    }
}

/// Normalizing a text a second time changes nothing, where the lower-case mappings of its
/// characters are in lower case themselves.
pub proof fn law_normalizing_is_idempotent(s: Seq<char>)
    requires
        all_lower(lowered(s)),
    ensures
        normalized(normalized(s)) == normalized(s),
{
    let c = collapsed(lowered(s));
    let n = normalized(s);
    lemma_collapsed_all_lower(lowered(s));
    lemma_trimmed_is_part(c);
    let (from, to) = choose|from: int, to: int|
        0 <= from <= to <= c.len() && text::trimmed(c) == c.subrange(from, to);
    assert forall|i: int| 0 <= i < n.len() implies unicode::char_lowercase(#[trigger] n[i])
        == seq![n[i]] by {
        assert(n[i] == c[from + i]);
    }
    lemma_all_lower_unchanged(n);
    law_normalized_shape(s);
    law_single_spaces_are_left(n);
    text::law_trimmed_ends(c);
}

/// Normalizing a text of ASCII characters a second time changes nothing.
pub proof fn law_normalizing_ascii_is_idempotent(s: Seq<char>)
    requires
        is_ascii_chars(s),
    ensures
        normalized(normalized(s)) == normalized(s),
{
    law_lowering_ascii(s);
    let l = unicode::ascii_lowercase(s);
    assert forall|i: int| 0 <= i < l.len() implies unicode::char_lowercase(#[trigger] l[i])
        == seq![l[i]] by {
        assert(s[i] <= '\u{7f}');
        assert(l[i] == unicode::ascii_lower(s[i]));
    }
    law_normalizing_is_idempotent(s);
}

/// Lower-case mappings are taken character by character.
pub proof fn law_lowering_is_by_character(a: Seq<char>, b: Seq<char>, c: char)
    ensures
        lowered(a + b) == lowered(a) + lowered(b),
        lowered(seq![c]) == unicode::char_lowercase(c),
    decreases b.len(),
{
    assert(seq![c].drop_last() == Seq::<char>::empty());
    assert(lowered(seq![c].drop_last()) == Seq::<char>::empty());
    assert(Seq::<char>::empty() + unicode::char_lowercase(c) == unicode::char_lowercase(c));
    if b.len() == 0 {
        assert(a + b == a);
        assert(lowered(a) + lowered(b) == lowered(a));
    } else {
        assert((a + b).drop_last() == a + b.drop_last());
        law_lowering_is_by_character(a, b.drop_last(), c);
        assert(lowered(a) + lowered(b.drop_last()) + unicode::char_lowercase(b.last()) == lowered(a)
            + (lowered(b.drop_last()) + unicode::char_lowercase(b.last())));
    }
}

/// A run of white space counts as one space, wherever it stands and whatever it is made of.
pub proof fn law_white_space_counts_as_one_space(a: Seq<char>, w: Seq<char>, b: Seq<char>)
    requires
        w.len() > 0,
        forall|i: int| 0 <= i < w.len() ==> text::white_space(#[trigger] w[i]),
    ensures
        collapsed(a + w + b) == collapsed(a + seq![' '] + b),
    decreases b.len(), w.len(),
{
    if b.len() > 0 {
        let rest = b.drop_last();
        assert((a + w + b).drop_last() == a + w + rest);
        assert((a + seq![' '] + b).drop_last() == a + seq![' '] + rest);
        law_white_space_counts_as_one_space(a, w, rest);
        if rest.len() > 0 {
            assert((a + w + b)[(a + w + b).len() - 2] == rest.last());
            assert((a + seq![' '] + b)[(a + seq![' '] + b).len() - 2] == rest.last());
        } else {
            assert((a + w + b)[(a + w + b).len() - 2] == w[w.len() - 1]);
            assert((a + seq![' '] + b)[(a + seq![' '] + b).len() - 2] == ' ');
        }
    } else {
        assert(a + w + b == a + w);
        assert(a + seq![' '] + b == a + seq![' ']);
        assert((a + seq![' ']).drop_last() == a);
        assert(text::white_space(w[w.len() - 1]));
        if w.len() == 1 {
            assert((a + w).drop_last() == a);
            if a.len() > 0 {
                assert((a + w)[(a + w).len() - 2] == a.last());
                assert((a + seq![' '])[(a + seq![' ']).len() - 2] == a.last());
            }
        } else {
            let rest = w.drop_last();
            assert forall|i: int| 0 <= i < rest.len() implies text::white_space(
                #[trigger] rest[i],
            ) by {
                assert(rest[i] == w[i]);
            }
            assert((a + w).drop_last() == a + rest);
            assert(a + rest + b == a + rest);
            assert((a + w)[(a + w).len() - 2] == rest[rest.len() - 1]);
            law_white_space_counts_as_one_space(a, rest, b);
        }
    }
}

/// A text in lower case whose white space is single spaces, none at its ends, is in normal form
/// already.
pub proof fn law_normal_text_is_unchanged(s: Seq<char>)
    requires
        all_lower(s),
        single_spaced(s),
        s.len() > 0 ==> !text::white_space(s[0]) && !text::white_space(s.last()),
    ensures
        normalized(s) == s,
{
    lemma_all_lower_unchanged(s);
    law_single_spaces_are_left(s);
    let none = Seq::<char>::empty();
    text::law_trimming_leaves_the_core(none, s, none);
    assert(none + s + none == s);
}

/// Texts that agree once in lower case, and with runs of white space made single spaces, have the
/// same normal form.
pub proof fn law_normal_form_sees_no_more(a: Seq<char>, b: Seq<char>)
    requires
        collapsed(lowered(a)) == collapsed(lowered(b)),
    ensures
        normalized(a) == normalized(b),
        normalized(a) == text::trimmed(collapsed(lowered(b))),
{
}

proof fn lemma_collapsed_leading_space(s: Seq<char>)
    ensures
        collapsed(seq![' '] + s) == (if s.len() > 0 && text::white_space(s[0]) {
            collapsed(s)
        } else {
            seq![' '] + collapsed(s)
        }),
    decreases s.len(),
{
    let long = seq![' '] + s;
    if s.len() == 0 {
        assert(long.drop_last() == s);
        assert(seq![' '] + collapsed(s) == collapsed(s).push(' '));
    } else {
        let rest = s.drop_last();
        assert(long.drop_last() == seq![' '] + rest);
        lemma_collapsed_leading_space(rest);
        assert(long[long.len() - 2] == (seq![' '] + rest).last());
        if rest.len() > 0 {
            assert(long[long.len() - 2] == s[s.len() - 2]);
            assert(seq![' '] + collapsed(rest).push(s.last()) == (seq![' '] + collapsed(
                rest,
            )).push(s.last()));
            assert(seq![' '] + collapsed(rest).push(' ') == (seq![' '] + collapsed(rest)).push(' '));
        } else {
            assert(collapsed(rest) == Seq::<char>::empty());
            assert(seq![' '] + collapsed(s) == (seq![' '] + collapsed(rest)).push(s.last())
                || text::white_space(s.last()));
            assert(collapsed(s) == seq![' '] || !text::white_space(s.last()));
        }
    }
}

/// It makes no difference to the normal form how much white space stands between two parts of a
/// text, as far as it is ASCII, and spaces round a text make none at all.
pub proof fn law_amounts_of_white_space_do_not_matter(a: Seq<char>, w: Seq<char>, b: Seq<char>)
    requires
        w.len() > 0,
        is_ascii_chars(w),
        forall|i: int| 0 <= i < w.len() ==> text::white_space(#[trigger] w[i]),
    ensures
        normalized(a + w + b) == normalized(a + seq![' '] + b),
        normalized(seq![' '] + b) == normalized(b),
        normalized(a + seq![' ']) == normalized(a),
{
    law_lowering_is_by_character(seq![' '], b, ' ');
    lemma_collapsed_leading_space(lowered(b));
    let c = collapsed(lowered(b));
    assert((seq![' '] + c).drop_first() == c);
    law_lowering_is_by_character(a, seq![' '], ' ');
    let l = lowered(a);
    assert((l + seq![' ']).drop_last() == l);
    if l.len() > 0 {
        assert((l + seq![' '])[(l + seq![' ']).len() - 2] == l.last());
    }
    text::lemma_trimmed_push_white_space(collapsed(l), ' ');
    law_lowering_ascii(w);
    assert forall|i: int| 0 <= i < w.len() implies #[trigger] lowered(w)[i] == w[i] by {
        assert(text::white_space(w[i]));
    }
    assert(lowered(w) == w);
    law_lowering_is_by_character(a, w, ' ');
    law_lowering_is_by_character(a + w, b, ' ');
    law_lowering_is_by_character(a, seq![' '], ' ');
    law_lowering_is_by_character(a + seq![' '], b, ' ');
    assert(unicode::char_lowercase(' ') == seq![' ']);
    law_white_space_counts_as_one_space(lowered(a), w, lowered(b));
}

/// A pattern matches exactly where its normal form is something and stands in the normal form of
/// the text.
pub proof fn law_normalized_matches(text: &str, pattern: &str, r: bool)
    requires
        call_ensures(contains_normalized, (text, pattern), r),
    ensures
        r == (normalized(pattern@).len() > 0 && exists|a: Seq<char>, b: Seq<char>|
            normalized(text@) == #[trigger] (a + normalized(pattern@) + b)),
        r == matches_normalized(text@, pattern@),
{
    text::law_occurrence_is_a_part(normalized(pattern@), normalized(text@));
}

/// A pattern matches letter case aside exactly where it stands in the text once both are in lower
/// case.
pub proof fn law_caseless_matches(text: &str, pattern: &str, r: bool)
    requires
        call_ensures(contains_case_insensitive, (text, pattern), r),
    ensures
        r == exists|a: Seq<char>, b: Seq<char>|
            unicode::lowercase(text@) == #[trigger] (a + unicode::lowercase(pattern@) + b),
        r == matches_caseless(text@, pattern@),
{
    text::law_occurrence_is_a_part(unicode::lowercase(pattern@), unicode::lowercase(text@));
}

} // verus!
