//! What holds of texts as a whole.

use vstd::prelude::*;

use crate::outside::{lowercased, quoted};
use crate::text::{
    after_last, after_prefix, all_ascii, all_plain, ascii, cut_at, decimal, filled, first_at,
    in_quotes, joined, lemma_cut_at, lemma_drop_back_at, lemma_pieces_nonempty,
    lemma_skip_while_at, lines_of, lowered, marks_of, marks_white, pieces, plain, trimmed,
    trimmed_start, white, without_prefixes, without_return, without_suffixes, words,
};

verus! {

// --- whitespace ------------------------------------------------------------

/// Being whitespace from one end to the other.
pub open spec fn blank(s: Seq<char>) -> bool {
    forall|i: int| 0 <= i < s.len() ==> white(#[trigger] s[i])
}

/// Starting and ending with something else than whitespace.
pub open spec fn flush(s: Seq<char>) -> bool {
    s.len() > 0 && !white(s[0]) && !white(s.last())
}

/// Of the ASCII characters, the space and the five control characters from the tab to the
/// carriage return are whitespace, and nothing that leaves a mark on paper is.
pub proof fn law_no_printed_character_is_whitespace(c: char)
    requires
        (c as u32) < 128,
    ensures
        white(c) <==> c == ' ' || 9 <= c as u32 <= 13,
        '!' <= c <= '~' ==> !white(c),
{
}

/// Trimming takes off whitespace and nothing else: what is left is a stretch of the text with
/// only whitespace before and after it, and neither starts nor ends with any.
pub proof fn law_trimming_takes_off_just_whitespace(s: Seq<char>) -> (r: (int, int))
    ensures
        0 <= r.0 <= r.1 <= s.len(),
        trimmed(s) == s.subrange(r.0, r.1),
        blank(s.take(r.0)),
        blank(s.skip(r.1)),
        trimmed(s).len() == 0 || flush(trimmed(s)),
{
    let p = |c: char| white(c);
    let a = lemma_front(s, p);
    let rest = s.skip(a);
    lemma_skip_while_at(s, p, a);
    let b = lemma_back(rest, p);
    lemma_drop_back_at(rest, p, b);
    assert(trimmed_start(s) == rest);
    assert(trimmed(s) == rest.take(b));
    assert(rest.take(b) =~= s.subrange(a, a + b));
    assert forall|i: int| 0 <= i < s.take(a).len() implies white(#[trigger] s.take(a)[i]) by {
        assert(p(s[i]));
    }
    assert forall|i: int| 0 <= i < s.skip(a + b).len() implies white(
        #[trigger] s.skip(a + b)[i],
    ) by {
        assert(p(rest[b + i]));
    }
    if b > 0 {
        assert(!p(rest[b - 1]));
        assert(!p(s[a]));
        assert(rest.take(b)[0] == s[a]);
        assert(rest.take(b).last() == rest[b - 1]);
    }
    (a, a + b)
}

proof fn lemma_front(s: Seq<char>, p: spec_fn(char) -> bool) -> (k: int)
    ensures
        0 <= k <= s.len(),
        forall|j: int| 0 <= j < k ==> p(#[trigger] s[j]),
        k < s.len() ==> !p(s[k]),
    decreases s.len(),
{
    if s.len() > 0 && p(s[0]) {
        let rest = s.drop_first();
        let k = lemma_front(rest, p);
        assert forall|j: int| 0 <= j < k + 1 implies p(#[trigger] s[j]) by {
            if j > 0 {
                assert(rest[j - 1] == s[j]);
            }
        }
        if k < rest.len() {
            assert(rest[k] == s[k + 1]);
        }
        k + 1
    } else {
        0
    }
}

proof fn lemma_back(s: Seq<char>, p: spec_fn(char) -> bool) -> (k: int)
    ensures
        0 <= k <= s.len(),
        forall|j: int| k <= j < s.len() ==> p(#[trigger] s[j]),
        k > 0 ==> !p(s[k - 1]),
    decreases s.len(),
{
    if s.len() > 0 && p(s.last()) {
        let rest = s.drop_last();
        let k = lemma_back(rest, p);
        assert forall|j: int| k <= j < s.len() implies p(#[trigger] s[j]) by {
            if j < rest.len() {
                assert(rest[j] == s[j]);
            }
        }
        if k > 0 {
            assert(rest[k - 1] == s[k - 1]);
        }
        k
    } else {
        s.len() as int
    }
}

/// What stands between whitespace comes out whole: whatever is around it, trimming gives it
/// back.
pub proof fn law_whitespace_around_a_text_does_not_matter(
    before: Seq<char>,
    s: Seq<char>,
    after: Seq<char>,
)
    requires
        blank(before),
        blank(after),
        flush(s),
    ensures
        trimmed(before + s + after) == s,
        trimmed(s) == s,
{
    lemma_trimmed_between(before, s, after);
    let none = Seq::<char>::empty();
    lemma_trimmed_between(none, s, none);
    assert(none + s + none =~= s);
}

proof fn lemma_trimmed_between(before: Seq<char>, s: Seq<char>, after: Seq<char>)
    requires
        blank(before),
        blank(after),
        flush(s),
    ensures
        trimmed(before + s + after) == s,
{
    let p = |c: char| white(c);
    let whole = before + s + after;
    let a = before.len() as int;
    assert forall|j: int| 0 <= j < a implies p(#[trigger] whole[j]) by {
        assert(white(before[j]));
    }
    assert(whole[a] == s[0]);
    lemma_skip_while_at(whole, p, a);
    let rest = whole.skip(a);
    assert(rest =~= s + after);
    let b = s.len() as int;
    assert forall|j: int| b <= j < rest.len() implies p(#[trigger] rest[j]) by {
        assert(white(after[j - b]));
    }
    assert(rest[b - 1] == s.last());
    lemma_drop_back_at(rest, p, b);
    assert(rest.take(b) =~= s);
}

/// A text of whitespace has nothing left.
pub proof fn law_a_blank_text_is_empty(s: Seq<char>)
    ensures
        trimmed(s).len() == 0 <==> blank(s),
{
    let (a, b) = law_trimming_takes_off_just_whitespace(s);
    if trimmed(s).len() == 0 {
        assert forall|i: int| 0 <= i < s.len() implies white(#[trigger] s[i]) by {
            if i < a {
                assert(white(s.take(a)[i]));
            } else {
                assert(white(s.skip(b)[i - b]));
            }
        }
    } else {
        assert(trimmed(s)[0] == s[a]);
    }
}

// --- pieces ----------------------------------------------------------------

/// A cut parts a text in two: the pieces of the whole are those before the cut and those
/// after it.
pub proof fn law_a_cut_parts_a_text(
    before: Seq<char>,
    cut: char,
    after: Seq<char>,
    marks: Seq<bool>,
)
    requires
        marks.len() == before.len() + 1 + after.len(),
        marks[before.len() as int],
    ensures
        pieces(before.push(cut) + after, marks) == pieces(
            before,
            marks.take(before.len() as int),
        ) + pieces(after, marks.skip(before.len() as int + 1)),
    decreases after.len(),
{
    let n = before.len() as int;
    let whole = before.push(cut) + after;
    let left = marks.take(n);
    let right = marks.skip(n + 1);
    lemma_pieces_nonempty(before, left);
    if after.len() == 0 {
        assert(whole =~= before.push(cut));
        assert(whole.drop_last() =~= before);
        lemma_pieces_see_no_further(before, marks, left);
        assert(pieces(after, right) =~= seq![Seq::<char>::empty()]);
        assert(pieces(before, left).push(Seq::<char>::empty()) =~= pieces(before, left)
            + seq![Seq::<char>::empty()]);
    } else {
        let rest = after.drop_last();
        assert(whole.drop_last() =~= before.push(cut) + rest);
        let fewer = marks.drop_last();
        law_a_cut_parts_a_text(before, cut, rest, fewer);
        assert(fewer.take(n) =~= left);
        lemma_pieces_see_no_further(whole.drop_last(), marks, fewer);
        lemma_pieces_see_no_further(rest, fewer.skip(n + 1), right);
        let head = pieces(before, left);
        let tail = pieces(rest, right);
        lemma_pieces_nonempty(rest, right);
        assert(marks[whole.len() - 1] == right[after.len() - 1]);
        assert(whole.last() == after.last());
        assert((head + tail).push(Seq::<char>::empty()) =~= head + tail.push(
            Seq::<char>::empty(),
        ));
        let grown = tail.last().push(after.last());
        assert((head + tail).last() == tail.last());
        assert((head + tail).drop_last().push(grown) =~= head + tail.drop_last().push(grown));
    }
}

/// Marks beyond the end of a text do not matter to its pieces.
pub proof fn lemma_pieces_see_no_further(s: Seq<char>, marks: Seq<bool>, other: Seq<bool>)
    requires
        marks.len() >= s.len(),
        other.len() >= s.len(),
        forall|i: int| 0 <= i < s.len() ==> marks[i] == #[trigger] other[i],
    ensures
        pieces(s, marks) == pieces(s, other),
    decreases s.len(),
{
    if s.len() > 0 {
        lemma_pieces_see_no_further(s.drop_last(), marks, other);
        assert(marks[s.len() - 1] == other[s.len() - 1]);
    }
}

/// A text with no cut in it is one piece.
pub proof fn law_an_uncut_text_is_one_piece(s: Seq<char>, marks: Seq<bool>)
    requires
        forall|i: int| 0 <= i < s.len() ==> !#[trigger] marks[i],
    ensures
        pieces(s, marks) == seq![s],
    decreases s.len(),
{
    if s.len() == 0 {
        assert(s =~= Seq::<char>::empty());
        assert(pieces(s, marks) =~= seq![s]);
    } else {
        law_an_uncut_text_is_one_piece(s.drop_last(), marks);
        assert(!marks[s.len() - 1]);
        assert(s.drop_last().push(s.last()) =~= s);
        assert(pieces(s, marks) =~= seq![s]);
    }
}

/// Joining undoes cutting: the pieces between the places of a character, put together again
/// with that character between them, are the text.
pub proof fn law_joining_undoes_cutting(s: Seq<char>, c: char)
    ensures
        joined(pieces(s, marks_of(s, c)), seq![c]) == s,
{
    lemma_joined_pieces(s, marks_of(s, c), c);
}

proof fn lemma_joined_pieces(s: Seq<char>, marks: Seq<bool>, c: char)
    requires
        marks.len() >= s.len(),
        forall|i: int| 0 <= i < s.len() ==> #[trigger] marks[i] == (s[i] == c),
    ensures
        joined(pieces(s, marks), seq![c]) == s,
    decreases s.len(),
{
    if s.len() == 0 {
        assert(pieces(s, marks).len() == 1);
        assert(s =~= Seq::<char>::empty());
    } else {
        let front = s.drop_last();
        assert forall|i: int| 0 <= i < front.len() implies #[trigger] marks[i] == (front[i]
            == c) by {
            assert(front[i] == s[i]);
        }
        lemma_joined_pieces(front, marks, c);
        let before = pieces(front, marks);
        lemma_pieces_nonempty(front, marks);
        assert(marks[s.len() - 1] == (s.last() == c));
        if s.last() == c {
            let all = before.push(Seq::<char>::empty());
            assert(all.drop_last() =~= before);
            assert(joined(all, seq![c]) =~= front + seq![c] + Seq::<char>::empty());
            assert(front + seq![c] + Seq::<char>::empty() =~= s);
        } else {
            let all = before.drop_last().push(before.last().push(s.last()));
            assert(all.drop_last() =~= before.drop_last());
            if all.len() == 1 {
                assert(joined(all, seq![c]) =~= before.last().push(s.last()));
                assert(joined(before, seq![c]) =~= before.last());
            }
            assert(joined(all, seq![c]) =~= joined(before, seq![c]).push(s.last()));
            assert(front.push(s.last()) =~= s);
        }
    }
}

// --- words and lines -------------------------------------------------------

/// Whitespace parts words: those of the whole are those before it and those after it. A text
/// without any is one word, and an empty one is none.
pub proof fn law_whitespace_parts_words(before: Seq<char>, c: char, after: Seq<char>)
    requires
        white(c),
    ensures
        words(before.push(c) + after) == words(before) + words(after),
        before.len() > 0 && (forall|i: int| 0 <= i < before.len() ==> !white(#[trigger] before[i]))
            ==> words(before) == seq![before],
        words(Seq::empty()).len() == 0,
{
    let whole = before.push(c) + after;
    let marks = marks_white(whole);
    let n = before.len() as int;
    let p = |w: Seq<char>| filled(w);
    assert(marks[n]);
    law_a_cut_parts_a_text(before, c, after, marks);
    assert(marks.take(n) =~= marks_white(before));
    assert(marks.skip(n + 1) =~= marks_white(after));
    Seq::filter_distributes_over_add(
        pieces(before, marks_white(before)),
        pieces(after, marks_white(after)),
        p,
    );
    reveal(Seq::filter);
    let none = Seq::<char>::empty();
    assert(pieces(none, marks_white(none)).drop_last() =~= Seq::<Seq<char>>::empty());
    assert(Seq::<Seq<char>>::empty().filter(p) =~= Seq::<Seq<char>>::empty());
    if before.len() > 0 && (forall|i: int| 0 <= i < before.len() ==> !white(#[trigger] before[i])) {
        law_an_uncut_text_is_one_piece(before, marks_white(before));
        assert(seq![before].drop_last() =~= Seq::<Seq<char>>::empty());
        assert(seq![before].filter(p) =~= seq![before]);
    }
}

/// A line feed ends a line, together with the carriage return before it; what follows the last
/// one is a line where it is anything.
pub proof fn law_a_line_feed_ends_a_line(line: Seq<char>, rest: Seq<char>)
    requires
        !line.contains('\n'),
    ensures
        line.len() == 0 || line.last() != '\r' ==> lines_of(line.push('\n') + rest) == seq![line]
            + lines_of(rest),
        lines_of(line.push('\r').push('\n') + rest) == seq![line] + lines_of(rest),
        line.len() > 0 ==> lines_of(line) == seq![line],
        lines_of(Seq::empty()).len() == 0,
{
    lemma_first_line(line, rest);
    let returned = line.push('\r');
    assert(!returned.contains('\n')) by {
        if returned.contains('\n') {
            let i = choose|i: int| 0 <= i < returned.len() && returned[i] == '\n';
            assert(line[i] == '\n');
        }
    }
    lemma_first_line(returned, rest);
    assert(returned.drop_last() =~= line);
    let none = Seq::<char>::empty();
    assert(pieces(none, marks_of(none, '\n')).drop_last() =~= Seq::<Seq<char>>::empty());
    assert(lines_of(none) =~= Seq::<Seq<char>>::empty());
    assert forall|i: int| 0 <= i < line.len() implies !#[trigger] marks_of(line, '\n')[i] by {
        assert(line.contains(line[i]));
    }
    law_an_uncut_text_is_one_piece(line, marks_of(line, '\n'));
    if line.len() > 0 {
        assert(lines_of(line) =~= seq![line]);
    }
}

proof fn lemma_first_line(line: Seq<char>, rest: Seq<char>)
    requires
        !line.contains('\n'),
    ensures
        lines_of(line.push('\n') + rest) == seq![without_return(line)] + lines_of(rest),
{
    let whole = line.push('\n') + rest;
    let marks = marks_of(whole, '\n');
    let n = line.len() as int;
    assert(marks[n]);
    law_a_cut_parts_a_text(line, '\n', rest, marks);
    assert(marks.take(n) =~= marks_of(line, '\n'));
    assert(marks.skip(n + 1) =~= marks_of(rest, '\n'));
    assert forall|i: int| 0 <= i < line.len() implies !#[trigger] marks_of(line, '\n')[i] by {
        assert(line.contains(line[i]));
    }
    law_an_uncut_text_is_one_piece(line, marks_of(line, '\n'));
    let after = pieces(rest, marks_of(rest, '\n'));
    let all = pieces(whole, marks);
    lemma_pieces_nonempty(rest, marks_of(rest, '\n'));
    assert(all =~= seq![line] + after);
    assert(all.drop_last() =~= seq![line] + after.drop_last());
    assert(all.last() == after.last());
    let f = |line: Seq<char>| without_return(line);
    assert(all.drop_last().map_values(f) =~= seq![without_return(line)]
        + after.drop_last().map_values(f));
    assert(lines_of(whole) =~= seq![without_return(line)] + lines_of(rest));
}

// --- ends ------------------------------------------------------------------

/// A text is cut at the first of a character, and read on from behind the last.
pub proof fn law_a_text_is_cut_at_a_character(before: Seq<char>, c: char, after: Seq<char>)
    ensures
        !before.contains(c) ==> cut_at(before.push(c) + after, c) == Some((before, after)),
        !before.contains(c) ==> cut_at(before, c) is None,
        !after.contains(c) ==> after_last(before.push(c) + after, c) == after,
        !after.contains(c) ==> after_last(after, c) == after,
    decreases after.len(),
{
    let s = before.push(c) + after;
    let n = before.len() as int;
    if !before.contains(c) {
        assert forall|j: int| 0 <= j < n implies s[j] != c by {
            assert(before.contains(before[j]));
        }
        assert(first_at(s, c, n));
        lemma_cut_at(s, c, n);
        assert(s.take(n) =~= before);
        assert(s.skip(n + 1) =~= after);
    }
    if !after.contains(c) {
        if after.len() == 0 {
            assert(s.last() == c);
            assert(after =~= Seq::<char>::empty());
        } else {
            let front = after.drop_last();
            assert(after.contains(after.last()));
            assert(!front.contains(c)) by {
                if front.contains(c) {
                    let j = choose|j: int| 0 <= j < front.len() && front[j] == c;
                    assert(after[j] == c);
                }
            }
            law_a_text_is_cut_at_a_character(before, c, front);
            assert(s.last() == after.last());
            assert(s.drop_last() =~= before.push(c) + front);
            assert(front.push(after.last()) =~= after);
        }
    }
}

/// What stands at an end of a text is taken off as often as it stands there, and no further.
pub proof fn law_ends_are_taken_off(s: Seq<char>, part: Seq<char>)
    requires
        part.len() > 0,
    ensures
        without_suffixes(s + part, part) == without_suffixes(s, part),
        without_prefixes(part + s, part) == without_prefixes(s, part),
        !part.is_suffix_of(s) ==> without_suffixes(s, part) == s,
        !part.is_prefix_of(s) ==> without_prefixes(s, part) == s,
        part.is_prefix_of(part + s),
        after_prefix(part + s, part) == Some(s),
        !part.is_prefix_of(s) ==> after_prefix(s, part) is None,
{
    let n = part.len() as int;
    let back = s + part;
    assert(back.subrange(back.len() - n, back.len() as int) =~= part);
    assert(part.is_suffix_of(back));
    assert(back.take(back.len() - n) =~= s);
    let front = part + s;
    assert(front.subrange(0, n) =~= part);
    assert(part.is_prefix_of(front));
    assert(front.skip(n) =~= s);
}

/// A number is written digit by digit, and a negative one behind a sign.
pub proof fn law_a_number_is_written_digit_by_digit(n: nat, d: nat)
    requires
        d < 10,
    ensures
        n > 0 ==> decimal((10 * n + d) as int) == decimal(n as int).push(('0' as nat + d) as char),
        decimal(d as int) == seq![('0' as nat + d) as char],
        n > 0 ==> decimal(-(n as int)) == "-"@ + decimal(n as int),
{
    assert((10 * n + d) / 10 == n);
    assert((10 * n + d) % 10 == d);
}

/// A text of ASCII letters in lower case is told letter by letter; a text without quotes,
/// backslashes and control characters stands in quotes as it is. Any other text is left to those
/// who know its letters.
pub proof fn law_plain_text_is_told_as_it_is(s: Seq<char>, i: int)
    ensures
        (forall|j: int| 0 <= j < s.len() ==> (#[trigger] s[j] as u32) < 128) && 0 <= i < s.len()
            ==> lowered(s).len() == s.len() && lowered(s)[i] == if 'A' <= s[i] <= 'Z' {
            (s[i] as u32 + 32) as char
        } else {
            s[i]
        },
        (forall|j: int|
            0 <= j < s.len() ==> ' ' <= #[trigger] s[j] <= '~' && s[j] != '"' && s[j] != '\''
                && s[j] != '\\') ==> in_quotes(s) == "\""@ + s + "\""@,
        0 <= i < s.len() && s[i] as u32 >= 128 ==> lowered(s) == lowercased(s),
        0 <= i < s.len() && (s[i] < ' ' || s[i] > '~' || s[i] == '"' || s[i] == '\'' || s[i] == '\\')
            ==> in_quotes(s) == quoted(s),
{
    if 0 <= i < s.len() {
        assert(all_ascii(s) ==> ascii(s[i]));
        assert(all_plain(s) ==> plain(s[i]));
    }
}

} // verus!
