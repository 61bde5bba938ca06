//! The lines of a text that arrives piece by piece.

use crate::text;
use vstd::prelude::*;
use vstd::utf8::*;

verus! {

/// Whether a text ends with the end of a line.
pub open spec fn ends_line(s: Seq<char>) -> bool {
    s.len() > 0 && s.last() == '\n'
}

/// What stands behind the last line end of a text.
pub open spec fn unfinished(s: Seq<char>) -> Seq<char>
    decreases s.len(),
{
    if s.len() == 0 || s.last() == '\n' {
        Seq::empty()
    } else {
        unfinished(s.drop_last()).push(s.last())
    }
}

/// The lines of a text that have an end, in order, each without the white space round it. Blank
/// lines are left out.
pub open spec fn finished_lines(s: Seq<char>) -> Seq<Seq<char>>
    decreases s.len(),
{
    if s.len() == 0 {
        Seq::empty()
    } else {
        let before = finished_lines(s.drop_last());
        let line = unfinished(s.drop_last());
        if s.last() == '\n' && !text::blank(line) {
            before.push(text::trimmed(line))
        } else {
            before
        }
    }
}

/// Whether a line ends nowhere in a piece of text but at its end.
pub open spec fn within_line(piece: Seq<char>) -> bool {
    forall|i: int| 0 <= i < piece.len() - 1 ==> #[trigger] piece[i] != '\n'
}

/// Whether a piece of text is what a file holds from `position` on.
pub open spec fn stands_in_file(piece: Seq<char>, file: Seq<u8>, position: nat) -> bool {
    let end = position + encode_utf8(piece).len();
    end <= file.len() && file.subrange(position as int, end as int) == encode_utf8(piece)
}

/// A piece of text without a line end finishes no line.
pub proof fn lemma_no_line_end(s: Seq<char>, piece: Seq<char>)
    requires
        forall|i: int| 0 <= i < piece.len() ==> #[trigger] piece[i] != '\n',
    ensures
        unfinished(s + piece) == unfinished(s) + piece,
        finished_lines(s + piece) == finished_lines(s),
    decreases piece.len(),
{
    if piece.len() == 0 {
        assert(s + piece == s);
    } else {
        let rest = piece.drop_last();
        assert((s + piece).drop_last() == s + rest);
        assert(piece[piece.len() - 1] != '\n');
        lemma_no_line_end(s, rest);
        assert(unfinished(s) + piece == (unfinished(s) + rest).push(piece.last()));
    }
}

/// What a further piece of text does to the lines of what came before it: it continues the
/// unfinished line, and finishes it where it ends with a line end.
pub proof fn lemma_further_piece(s: Seq<char>, piece: Seq<char>)
    requires
        within_line(piece),
    ensures
        ends_line(unfinished(s) + piece) == ends_line(piece),
        !ends_line(piece) ==> unfinished(s + piece) == unfinished(s) + piece && finished_lines(
            s + piece,
        ) == finished_lines(s),
        ends_line(piece) ==> unfinished(s + piece) == Seq::<char>::empty() && finished_lines(
            s + piece,
        ) == (if text::blank(unfinished(s) + piece) {
            finished_lines(s)
        } else {
            finished_lines(s).push(text::trimmed(unfinished(s) + piece))
        }),
{
    if ends_line(piece) {
        let rest = piece.drop_last();
        assert forall|i: int| 0 <= i < rest.len() implies #[trigger] rest[i] != '\n' by {
            assert(piece[i] != '\n');
        }
        lemma_no_line_end(s, rest);
        assert((s + piece).drop_last() == s + rest);
        assert(unfinished(s) + piece == (unfinished(s) + rest).push('\n'));
        text::lemma_trimmed_push_white_space(unfinished(s) + rest, '\n');
    } else {
        assert forall|i: int| 0 <= i < piece.len() implies #[trigger] piece[i] != '\n' by {
            if i == piece.len() - 1 {
                assert(piece[i] == piece.last());
            }
        }
        lemma_no_line_end(s, piece);
        if piece.len() == 0 {
            assert(unfinished(s) + piece == unfinished(s));
        }
    }
}

/// Two texts one after the other are encoded one after the other.
proof fn lemma_encode_add(a: Seq<char>, b: Seq<char>)
    ensures
        encode_utf8(a + b) == encode_utf8(a) + encode_utf8(b),
    decreases a.len(),
{
    if a.len() == 0 {
        assert(a + b == b);
        assert(encode_utf8(a) + encode_utf8(b) == encode_utf8(b));
    } else {
        assert((a + b).drop_first() == a.drop_first() + b);
        lemma_encode_add(a.drop_first(), b);
        assert(encode_utf8(a + b) == encode_utf8(a) + encode_utf8(b));
    }
}

/// Where a file holds a text from `start` to `position`, and a further piece from there on, it
/// holds that text with the piece behind it.
pub proof fn lemma_read_on(file: Seq<u8>, start: nat, position: nat, piece: Seq<char>)
    requires
        start <= position <= file.len(),
        valid_utf8(file.subrange(start as int, position as int)),
        stands_in_file(piece, file, position),
    ensures
        ({
            let end = position + encode_utf8(piece).len();
            &&& end <= file.len()
            &&& valid_utf8(file.subrange(start as int, end as int))
            &&& decode_utf8(file.subrange(start as int, end as int)) == decode_utf8(
                file.subrange(start as int, position as int),
            ) + piece
        }),
{
    let end = position + encode_utf8(piece).len();
    let before = file.subrange(start as int, position as int);
    let now = file.subrange(start as int, end as int);
    let so_far = decode_utf8(before);
    assert(now == before + file.subrange(position as int, end as int));
    decode_utf8_encode_utf8(before);
    lemma_encode_add(so_far, piece);
    encode_utf8_valid_utf8(so_far + piece);
    encode_utf8_decode_utf8(so_far + piece);
}

/// A text is cut into lines at its line ends: a line end finishes the line that stands behind the
/// one before it, which counts without the white space round it where it is not blank; what has no
/// line end is not finished.
pub proof fn law_line_ends_finish_lines(s: Seq<char>, line: Seq<char>)
    requires
        s.len() == 0 || s.last() == '\n',
        !line.contains('\n'),
    ensures
        unfinished(s + line) == line,
        finished_lines(s + line) == finished_lines(s),
        unfinished(s + line + seq!['\n']) == Seq::<char>::empty(),
        text::trimmed(line).len() > 0 ==> finished_lines(s + line + seq!['\n']) == finished_lines(
            s,
        ).push(text::trimmed(line)),
        text::trimmed(line).len() == 0 ==> finished_lines(s + line + seq!['\n']) == finished_lines(
            s,
        ),
        s.len() == 0 ==> finished_lines(s) == Seq::<Seq<char>>::empty(),
{
    lemma_no_line_end(s, line);
    assert(Seq::<char>::empty() + line == line);
    assert((s + line + seq!['\n']).drop_last() == s + line);
}

} // verus!
