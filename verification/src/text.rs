//! Text as a sequence of characters.
//!
//! Everything the store decides about text (trimming, splitting, matching,
//! ordering) is stated on the sequence of characters a string holds. The
//! executable functions work on the characters once and build their result
//! from them.

use vstd::prelude::*;

use crate::outside::{alphanumeric, is_alphanumeric, lowercase, lowercased, quote, quoted};

verus! {

/// `String::push` appends one character at the end of the text.
pub assume_specification[ String::push ](text: &mut String, c: char)
    ensures
        final(text)@ == old(text)@.push(c),
;

// --- characters ------------------------------------------------------------

/// The characters Unicode lists under the `White_Space` property.
pub open spec fn white(c: char) -> bool {
    let n = c as u32;
    ||| 0x09 <= n <= 0x0d
    ||| n == 0x20
    ||| n == 0x85
    ||| n == 0xa0
    ||| n == 0x1680
    ||| 0x2000 <= n <= 0x200a
    ||| n == 0x2028
    ||| n == 0x2029
    ||| n == 0x202f
    ||| n == 0x205f
    ||| n == 0x3000
}

/// Whether `c` is whitespace.
pub fn is_white(c: char) -> (r: bool)
    ensures
        r == white(c),
{
    let n: u32 = c as u32;
    (0x09 <= n && n <= 0x0d) || n == 0x20 || n == 0x85 || n == 0xa0 || n == 0x1680 || (0x2000 <= n
        && n <= 0x200a) || n == 0x2028 || n == 0x2029 || n == 0x202f || n == 0x205f || n == 0x3000
}

/// The ASCII letters and digits.
pub open spec fn ascii_alphanumeric(c: char) -> bool {
    ||| 'a' <= c <= 'z'
    ||| 'A' <= c <= 'Z'
    ||| '0' <= c <= '9'
}

/// An ASCII character.
pub open spec fn ascii(c: char) -> bool {
    (c as u32) < 128
}

/// Of ASCII characters alone.
pub open spec fn all_ascii(s: Seq<char>) -> bool {
    forall|i: int| 0 <= i < s.len() ==> ascii(#[trigger] s[i])
}

/// A letter or a digit.
pub open spec fn letter_or_digit(c: char) -> bool {
    if ascii(c) {
        ascii_alphanumeric(c)
    } else {
        alphanumeric(c)
    }
}

/// Whether `c` is a letter or a digit.
pub fn is_letter_or_digit(c: char) -> (r: bool)
    ensures
        r == letter_or_digit(c),
{
    is_alphanumeric(c)
}

/// An ASCII letter in lower case, and any other character as it is.
pub open spec fn ascii_lower(c: char) -> char {
    if 'A' <= c <= 'Z' {
        (c as u32 + 32) as char
    } else {
        c
    }
}

/// An ASCII letter in upper case, and any other character as it is.
pub open spec fn ascii_upper(c: char) -> char {
    if 'a' <= c <= 'z' {
        (c as u32 - 32) as char
    } else {
        c
    }
}

/// A text with its ASCII letters in lower case.
pub open spec fn ascii_lowered(s: Seq<char>) -> Seq<char> {
    Seq::new(s.len(), |i: int| ascii_lower(s[i]))
}

/// A text with its ASCII letters in upper case.
pub open spec fn ascii_uppered(s: Seq<char>) -> Seq<char> {
    Seq::new(s.len(), |i: int| ascii_upper(s[i]))
}

/// A text in lower case.
pub open spec fn lowered(s: Seq<char>) -> Seq<char> {
    if all_ascii(s) {
        ascii_lowered(s)
    } else {
        lowercased(s)
    }
}

/// `text` in lower case.
pub fn lower(text: &str) -> (r: String)
    ensures
        r@ == lowered(text@),
{
    lowercase(text)
}

/// A printable ASCII character that is neither a quote nor a backslash.
pub open spec fn plain(c: char) -> bool {
    ' ' <= c <= '~' && c != '"' && c != '\'' && c != '\\'
}

/// Of plain characters alone.
pub open spec fn all_plain(s: Seq<char>) -> bool {
    forall|i: int| 0 <= i < s.len() ==> plain(#[trigger] s[i])
}

/// A text in double quotes, with what has to be escaped in it escaped.
pub open spec fn in_quotes(s: Seq<char>) -> Seq<char> {
    if all_plain(s) {
        "\""@ + s + "\""@
    } else {
        quoted(s)
    }
}

/// `text` in double quotes.
pub fn enquote(text: &str) -> (r: String)
    ensures
        r@ == in_quotes(text@),
{
    quote(text)
}

/// The characters of `text`, in order.
pub fn characters(text: &str) -> (r: Vec<char>)
    ensures
        r@ == text@,
{
    let mut r: Vec<char> = Vec::new();
    for c in it: text.chars()
        invariant
            r@ == it.seq().take(it.index() as int),
            it.seq() == text@,
    {
        r.push(c);
    }
    r
}

/// The characters from `from` up to `to`, as a string.
pub fn text_between(chars: &Vec<char>, from: usize, to: usize) -> (r: String)
    requires
        from <= to <= chars@.len(),
    ensures
        r@ == chars@.subrange(from as int, to as int),
{
    let mut r = String::new();
    let mut i: usize = from;
    while i < to
        invariant
            from <= i <= to <= chars@.len(),
            r@ == chars@.subrange(from as int, i as int),
        decreases to - i,
    {
        r.push(chars[i]);
        i += 1;
    }
    r
}

/// Whether two texts hold the same characters.
pub fn same(a: &str, b: &str) -> (r: bool)
    ensures
        r == (a@ == b@),
{
    let left = characters(a);
    let right = characters(b);
    if left.len() != right.len() {
        return false;
    }
    let mut i: usize = 0;
    while i < left.len()
        invariant
            i <= left@.len(),
            left@ == a@,
            right@ == b@,
            left@.len() == right@.len(),
            left@.take(i as int) =~= right@.take(i as int),
        decreases left@.len() - i,
    {
        if left[i] != right[i] {
            return false;
        }
        assert(left@.take(i + 1) =~= left@.take(i as int).push(left@[i as int]));
        assert(right@.take(i + 1) =~= right@.take(i as int).push(right@[i as int]));
        i += 1;
    }
    assert(left@.take(i as int) =~= left@);
    assert(right@.take(i as int) =~= right@);
    true
}

/// What two optional texts have in common: both absent, or equal.
pub fn same_option(a: &Option<String>, b: &Option<String>) -> (r: bool)
    ensures
        r == (a.deep_view() == b.deep_view()),
{
    match (a, b) {
        (Some(x), Some(y)) => same(x.as_str(), y.as_str()),
        (None, None) => true,
        _ => false,
    }
}

/// Whether two lists hold the same texts in the same order.
pub fn same_list(a: &Vec<String>, b: &Vec<String>) -> (r: bool)
    ensures
        r == (a.deep_view() == b.deep_view()),
{
    if a.len() != b.len() {
        assert(a.deep_view().len() != b.deep_view().len());
        return false;
    }
    let mut i: usize = 0;
    while i < a.len()
        invariant
            i <= a@.len(),
            a@.len() == b@.len(),
            forall|j: int| 0 <= j < i ==> a.deep_view()[j] == b.deep_view()[j],
        decreases a@.len() - i,
    {
        if !same(a[i].as_str(), b[i].as_str()) {
            assert(a.deep_view()[i as int] != b.deep_view()[i as int]);
            return false;
        }
        i += 1;
    }
    assert(a.deep_view() =~= b.deep_view());
    true
}

/// A copy of a text.
pub fn copy_text(text: &String) -> (r: String)
    ensures
        r@ == text@,
{
    text.clone()
}

/// A copy of an optional text.
pub fn copy_option(text: &Option<String>) -> (r: Option<String>)
    ensures
        r.deep_view() == text.deep_view(),
{
    match text {
        Some(inner) => Some(inner.clone()),
        None => None,
    }
}

/// A copy of a list of texts.
pub fn copy_list(list: &Vec<String>) -> (r: Vec<String>)
    ensures
        r.deep_view() == list.deep_view(),
{
    let mut r: Vec<String> = Vec::new();
    let mut i: usize = 0;
    while i < list.len()
        invariant
            i <= list@.len(),
            r@.len() == i,
            forall|j: int| 0 <= j < i ==> r.deep_view()[j] == list.deep_view()[j],
        decreases list@.len() - i,
    {
        r.push(list[i].clone());
        i += 1;
    }
    assert(r.deep_view() =~= list.deep_view());
    r
}

/// Whether `list` holds `text`.
pub fn list_contains(list: &Vec<String>, text: &str) -> (r: bool)
    ensures
        r == list.deep_view().contains(text@),
{
    let mut i: usize = 0;
    while i < list.len()
        invariant
            i <= list@.len(),
            forall|j: int| 0 <= j < i ==> list.deep_view()[j] != text@,
        decreases list@.len() - i,
    {
        if same(list[i].as_str(), text) {
            assert(list.deep_view()[i as int] == text@);
            return true;
        }
        i += 1;
    }
    assert(list.deep_view().len() == list@.len());
    false
}

// --- trimming --------------------------------------------------------------

/// `s` without the characters at its front that satisfy `p`.
pub open spec fn skip_while(s: Seq<char>, p: spec_fn(char) -> bool) -> Seq<char>
    decreases s.len(),
{
    if s.len() > 0 && p(s[0]) {
        skip_while(s.drop_first(), p)
    } else {
        s
    }
}

/// `s` without the characters at its back that satisfy `p`.
pub open spec fn drop_back_while(s: Seq<char>, p: spec_fn(char) -> bool) -> Seq<char>
    decreases s.len(),
{
    if s.len() > 0 && p(s.last()) {
        drop_back_while(s.drop_last(), p)
    } else {
        s
    }
}

/// `s` without whitespace at its front.
pub open spec fn trimmed_start(s: Seq<char>) -> Seq<char> {
    skip_while(s, |c: char| white(c))
}

/// `s` without whitespace at its back.
pub open spec fn trimmed_end(s: Seq<char>) -> Seq<char> {
    drop_back_while(s, |c: char| white(c))
}

/// `s` without whitespace at either end.
pub open spec fn trimmed(s: Seq<char>) -> Seq<char> {
    trimmed_end(trimmed_start(s))
}

/// Being the character `wanted`.
pub open spec fn being(wanted: char) -> spec_fn(char) -> bool {
    |c: char| c == wanted
}

/// `s` without the run of `unwanted` at its front.
pub open spec fn without_front(s: Seq<char>, unwanted: char) -> Seq<char> {
    skip_while(s, being(unwanted))
}

/// `s` without the run of `unwanted` at its back.
pub open spec fn without_back(s: Seq<char>, unwanted: char) -> Seq<char> {
    drop_back_while(s, being(unwanted))
}

/// Skipping stops at the first character that does not satisfy `p`.
pub proof fn lemma_skip_while_at(s: Seq<char>, p: spec_fn(char) -> bool, k: int)
    requires
        0 <= k <= s.len(),
        forall|j: int| 0 <= j < k ==> p(#[trigger] s[j]),
        k < s.len() ==> !p(s[k]),
    ensures
        skip_while(s, p) == s.skip(k),
    decreases s.len(),
{
    if k == 0 {
        assert(s.skip(0) =~= s);
    } else {
        let rest = s.drop_first();
        assert forall|j: int| 0 <= j < k - 1 implies p(#[trigger] rest[j]) by {
            assert(rest[j] == s[j + 1]);
        }
        lemma_skip_while_at(rest, p, k - 1);
        assert(rest.skip(k - 1) =~= s.skip(k));
    }
}

/// Dropping from the back stops at the last character that does not satisfy `p`.
pub proof fn lemma_drop_back_at(s: Seq<char>, p: spec_fn(char) -> bool, k: int)
    requires
        0 <= k <= s.len(),
        forall|j: int| k <= j < s.len() ==> p(#[trigger] s[j]),
        k > 0 ==> !p(s[k - 1]),
    ensures
        drop_back_while(s, p) == s.take(k),
    decreases s.len(),
{
    if k == s.len() {
        assert(s.take(k) =~= s);
    } else {
        let rest = s.drop_last();
        assert forall|j: int| k <= j < rest.len() implies p(#[trigger] rest[j]) by {
            assert(rest[j] == s[j]);
        }
        lemma_drop_back_at(rest, p, k);
        assert(rest.take(k) =~= s.take(k));
    }
}

/// Dropping from the back leaves the front of a text.
pub proof fn lemma_drop_back_is_front(s: Seq<char>, p: spec_fn(char) -> bool)
    ensures
        drop_back_while(s, p).len() <= s.len(),
        drop_back_while(s, p) == s.take(drop_back_while(s, p).len() as int),
        forall|i: int|
            0 <= i < s.len() && !p(#[trigger] s[i]) ==> i < drop_back_while(s, p).len(),
    decreases s.len(),
{
    if s.len() > 0 && p(s.last()) {
        let rest = s.drop_last();
        lemma_drop_back_is_front(rest, p);
        let kept = drop_back_while(rest, p).len() as int;
        assert(rest.take(kept) =~= s.take(kept));
        assert forall|i: int| 0 <= i < s.len() && !p(#[trigger] s[i]) implies i < kept by {
            assert(rest[i] == s[i]);
        }
    } else {
        assert(s.take(s.len() as int) =~= s);
    }
}

/// The first index at or after `from`, and before `to`, that is not whitespace.
fn white_front(chars: &Vec<char>, from: usize, to: usize) -> (r: usize)
    requires
        from <= to <= chars@.len(),
    ensures
        from <= r <= to,
        forall|j: int| from <= j < r ==> white(#[trigger] chars@[j]),
        r < to ==> !white(chars@[r as int]),
{
    let mut i: usize = from;
    while i < to && is_white(chars[i])
        invariant
            from <= i <= to <= chars@.len(),
            forall|j: int| from <= j < i ==> white(#[trigger] chars@[j]),
        decreases to - i,
    {
        i += 1;
    }
    i
}

/// One past the last index before `to`, and not before `from`, that is not
/// whitespace.
fn white_back(chars: &Vec<char>, from: usize, to: usize) -> (r: usize)
    requires
        from <= to <= chars@.len(),
    ensures
        from <= r <= to,
        forall|j: int| r <= j < to ==> white(#[trigger] chars@[j]),
        r > from ==> !white(chars@[r - 1]),
{
    let mut i: usize = to;
    while i > from && is_white(chars[i - 1])
        invariant
            from <= i <= to <= chars@.len(),
            forall|j: int| i <= j < to ==> white(#[trigger] chars@[j]),
        decreases i - from,
    {
        i -= 1;
    }
    i
}

/// `text` without whitespace at either end.
pub fn trim(text: &str) -> (r: String)
    ensures
        r@ == trimmed(text@),
{
    let chars = characters(text);
    let from: usize = white_front(&chars, 0, chars.len());
    let to: usize = white_back(&chars, from, chars.len());
    proof {
        let p = |c: char| white(c);
        lemma_skip_while_at(chars@, p, from as int);
        let rest = chars@.skip(from as int);
        assert forall|j: int| to - from <= j < rest.len() implies p(#[trigger] rest[j]) by {
            assert(rest[j] == chars@[j + from]);
        }
        if to > from {
            assert(rest[to - from - 1] == chars@[to - 1]);
        }
        lemma_drop_back_at(rest, p, to - from);
        assert(rest.take(to - from) =~= chars@.subrange(from as int, to as int));
    }
    text_between(&chars, from, to)
}

/// `text` without whitespace at its front.
pub fn trim_start(text: &str) -> (r: String)
    ensures
        r@ == trimmed_start(text@),
{
    let chars = characters(text);
    let from: usize = white_front(&chars, 0, chars.len());
    proof {
        lemma_skip_while_at(chars@, |c: char| white(c), from as int);
        assert(chars@.skip(from as int) =~= chars@.subrange(from as int, chars@.len() as int));
    }
    text_between(&chars, from, chars.len())
}

/// `text` without whitespace at its back.
pub fn trim_end(text: &str) -> (r: String)
    ensures
        r@ == trimmed_end(text@),
{
    let chars = characters(text);
    let to: usize = white_back(&chars, 0, chars.len());
    proof {
        lemma_drop_back_at(chars@, |c: char| white(c), to as int);
        assert(chars@.take(to as int) =~= chars@.subrange(0, to as int));
    }
    text_between(&chars, 0, to)
}

/// `text` without the run of `unwanted` at its front.
pub fn trim_front_char(text: &str, unwanted: char) -> (r: String)
    ensures
        r@ == without_front(text@, unwanted),
{
    let chars = characters(text);
    let mut i: usize = 0;
    while i < chars.len() && chars[i] == unwanted
        invariant
            i <= chars@.len(),
            forall|j: int| 0 <= j < i ==> #[trigger] chars@[j] == unwanted,
        decreases chars@.len() - i,
    {
        i += 1;
    }
    proof {
        lemma_skip_while_at(chars@, being(unwanted), i as int);
        assert(chars@.skip(i as int) =~= chars@.subrange(i as int, chars@.len() as int));
    }
    text_between(&chars, i, chars.len())
}

/// `text` without the run of `unwanted` at its back.
pub fn trim_back_char(text: &str, unwanted: char) -> (r: String)
    ensures
        r@ == without_back(text@, unwanted),
{
    let chars = characters(text);
    let mut i: usize = chars.len();
    while i > 0 && chars[i - 1] == unwanted
        invariant
            i <= chars@.len(),
            forall|j: int| i <= j < chars@.len() ==> #[trigger] chars@[j] == unwanted,
        decreases i,
    {
        i -= 1;
    }
    proof {
        lemma_drop_back_at(chars@, being(unwanted), i as int);
        assert(chars@.take(i as int) =~= chars@.subrange(0, i as int));
    }
    text_between(&chars, 0, i)
}

// --- splitting and joining -------------------------------------------------

/// The pieces of `s` between the marked positions. A marked character belongs
/// to no piece; a text without one is its own only piece.
pub open spec fn pieces(s: Seq<char>, marks: Seq<bool>) -> Seq<Seq<char>>
    decreases s.len(),
{
    if s.len() == 0 {
        seq![Seq::<char>::empty()]
    } else {
        let before = pieces(s.drop_last(), marks);
        if marks[s.len() - 1] {
            before.push(Seq::<char>::empty())
        } else {
            before.drop_last().push(before.last().push(s.last()))
        }
    }
}

/// Marks every occurrence of `c`.
pub open spec fn marks_of(s: Seq<char>, c: char) -> Seq<bool> {
    Seq::new(s.len(), |i: int| s[i] == c)
}

/// Marks every whitespace character.
pub open spec fn marks_white(s: Seq<char>) -> Seq<bool> {
    Seq::new(s.len(), |i: int| white(s[i]))
}

/// There is always at least one piece.
pub proof fn lemma_pieces_nonempty(s: Seq<char>, marks: Seq<bool>)
    ensures
        pieces(s, marks).len() > 0,
    decreases s.len(),
{
    if s.len() > 0 {
        lemma_pieces_nonempty(s.drop_last(), marks);
    }
}

/// Splits at the marked positions.
pub fn split_marked(chars: &Vec<char>, marks: &Vec<bool>) -> (r: Vec<String>)
    requires
        marks@.len() == chars@.len(),
    ensures
        r.deep_view() == pieces(chars@, marks@),
        r@.len() > 0,
{
    let mut done: Vec<String> = Vec::new();
    let mut current = String::new();
    let mut i: usize = 0;
    while i < chars.len()
        invariant
            i <= chars@.len(),
            marks@.len() == chars@.len(),
            done.deep_view().push(current@) =~= pieces(chars@.take(i as int), marks@),
        decreases chars@.len() - i,
    {
        let ghost before = done.deep_view();
        let ghost piece = current@;
        assert(chars@.take(i + 1).drop_last() =~= chars@.take(i as int));
        if marks[i] {
            done.push(current);
            current = String::new();
            assert(done.deep_view() =~= before.push(piece));
        } else {
            current.push(chars[i]);
            assert(before.push(piece).drop_last() =~= before);
        }
        i += 1;
    }
    let ghost before = done.deep_view();
    let ghost piece = current@;
    done.push(current);
    assert(done.deep_view() =~= before.push(piece));
    assert(chars@.take(i as int) =~= chars@);
    done
}

/// Splits `text` at every `separator`.
pub fn split_at_char(text: &str, separator: char) -> (r: Vec<String>)
    ensures
        r.deep_view() == pieces(text@, marks_of(text@, separator)),
        r@.len() > 0,
{
    let chars = characters(text);
    let mut marks: Vec<bool> = Vec::new();
    let mut i: usize = 0;
    while i < chars.len()
        invariant
            i <= chars@.len(),
            marks@.len() == i,
            forall|j: int| 0 <= j < i ==> marks@[j] == (chars@[j] == separator),
        decreases chars@.len() - i,
    {
        marks.push(chars[i] == separator);
        i += 1;
    }
    assert(marks@ =~= marks_of(text@, separator));
    split_marked(&chars, &marks)
}

/// Splits `text` at every whitespace character.
pub fn split_at_white(text: &str) -> (r: Vec<String>)
    ensures
        r.deep_view() == pieces(text@, marks_white(text@)),
        r@.len() > 0,
{
    let chars = characters(text);
    let mut marks: Vec<bool> = Vec::new();
    let mut i: usize = 0;
    while i < chars.len()
        invariant
            i <= chars@.len(),
            marks@.len() == i,
            forall|j: int| 0 <= j < i ==> marks@[j] == white(chars@[j]),
        decreases chars@.len() - i,
    {
        marks.push(is_white(chars[i]));
        i += 1;
    }
    assert(marks@ =~= marks_white(text@));
    split_marked(&chars, &marks)
}

/// A text that is not empty.
pub open spec fn filled(s: Seq<char>) -> bool {
    s.len() > 0
}

/// The texts of `list` that are not empty, in order.
pub fn keep_filled(list: Vec<String>) -> (r: Vec<String>)
    ensures
        r.deep_view() == list.deep_view().filter(|s: Seq<char>| filled(s)),
{
    let ghost p = |s: Seq<char>| filled(s);
    let mut r: Vec<String> = Vec::new();
    let mut i: usize = 0;
    assert(list.deep_view().take(0).filter(p) =~= Seq::<Seq<char>>::empty()) by {
        reveal(Seq::filter);
    }
    while i < list.len()
        invariant
            i <= list@.len(),
            p == (|s: Seq<char>| filled(s)),
            r.deep_view() =~= list.deep_view().take(i as int).filter(p),
        decreases list@.len() - i,
    {
        let ghost before = r.deep_view();
        proof {
            let t = list.deep_view().take(i as int);
            assert(list.deep_view().take(i + 1) =~= t.push(list.deep_view()[i as int]));
            t.lemma_filter_push(list.deep_view()[i as int], p);
        }
        if !list[i].as_str().is_empty() {
            r.push(list[i].clone());
            assert(r.deep_view() =~= before.push(list.deep_view()[i as int]));
        }
        i += 1;
    }
    assert(list.deep_view().take(i as int) =~= list.deep_view());
    r
}

/// The words of `s`: its pieces between whitespace, without the empty ones.
pub open spec fn words(s: Seq<char>) -> Seq<Seq<char>> {
    pieces(s, marks_white(s)).filter(|w: Seq<char>| filled(w))
}

/// `parts` one after the other, with `separator` between each two.
pub open spec fn joined(parts: Seq<Seq<char>>, separator: Seq<char>) -> Seq<char>
    decreases parts.len(),
{
    if parts.len() == 0 {
        Seq::empty()
    } else if parts.len() == 1 {
        parts[0]
    } else {
        joined(parts.drop_last(), separator) + separator + parts.last()
    }
}

/// Joins `parts` with `separator`.
pub fn join(parts: &Vec<String>, separator: &str) -> (r: String)
    ensures
        r@ == joined(parts.deep_view(), separator@),
{
    let mut r = String::new();
    let mut i: usize = 0;
    while i < parts.len()
        invariant
            i <= parts@.len(),
            r@ =~= joined(parts.deep_view().take(i as int), separator@),
        decreases parts@.len() - i,
    {
        proof {
            let t = parts.deep_view().take(i + 1);
            assert(t.drop_last() =~= parts.deep_view().take(i as int));
            assert(t.last() == parts.deep_view()[i as int]);
        }
        if i > 0 {
            r.append(separator);
        }
        r.append(parts[i].as_str());
        i += 1;
    }
    assert(parts.deep_view().take(i as int) =~= parts.deep_view());
    r
}

/// `s` without one carriage return at its end.
pub open spec fn without_return(s: Seq<char>) -> Seq<char> {
    if s.len() > 0 && s.last() == '\r' {
        s.drop_last()
    } else {
        s
    }
}

/// The lines of `s`. A line ends with a line feed, or with a carriage return
/// and a line feed; the ending of the last line is optional.
pub open spec fn lines_of(s: Seq<char>) -> Seq<Seq<char>> {
    let parts = pieces(s, marks_of(s, '\n'));
    let ended = parts.drop_last().map_values(|line: Seq<char>| without_return(line));
    if parts.last().len() > 0 {
        ended.push(parts.last())
    } else {
        ended
    }
}

/// The lines of `text`.
pub fn lines(text: &str) -> (r: Vec<String>)
    ensures
        r.deep_view() == lines_of(text@),
{
    let parts = split_at_char(text, '\n');
    let ghost all = parts.deep_view();
    let ghost ended = all.drop_last().map_values(|line: Seq<char>| without_return(line));
    let mut r: Vec<String> = Vec::new();
    let last: usize = parts.len() - 1;
    let mut i: usize = 0;
    while i < last
        invariant
            i <= last,
            last == parts@.len() - 1,
            all == parts.deep_view(),
            ended == all.drop_last().map_values(|line: Seq<char>| without_return(line)),
            r.deep_view() =~= ended.take(i as int),
        decreases last - i,
    {
        let ghost before = r.deep_view();
        let chars = characters(parts[i].as_str());
        if chars.len() > 0 && chars[chars.len() - 1] == '\r' {
            let line = text_between(&chars, 0, chars.len() - 1);
            assert(line@ =~= without_return(all[i as int]));
            r.push(line);
        } else {
            r.push(parts[i].clone());
        }
        assert(r.deep_view() =~= before.push(without_return(all[i as int])));
        i += 1;
    }
    assert(ended.take(i as int) =~= ended);
    if !parts[last].as_str().is_empty() {
        let ghost before = r.deep_view();
        r.push(parts[last].clone());
        assert(r.deep_view() =~= before.push(all.last()));
    }
    r
}

// --- searching -------------------------------------------------------------

/// Where `c` first occurs in `s`.
pub open spec fn first_at(s: Seq<char>, c: char, i: int) -> bool {
    0 <= i < s.len() && s[i] == c && forall|j: int| 0 <= j < i ==> s[j] != c
}

/// What stands before the first `c` and after it, when there is one.
pub open spec fn cut_at(s: Seq<char>, c: char) -> Option<(Seq<char>, Seq<char>)> {
    if s.contains(c) {
        let i = choose|i: int| first_at(s, c, i);
        Some((s.take(i), s.skip(i + 1)))
    } else {
        None
    }
}

/// The first place of a character fixes the two halves around it.
pub proof fn lemma_cut_at(s: Seq<char>, c: char, i: int)
    requires
        first_at(s, c, i),
    ensures
        cut_at(s, c) == Some((s.take(i), s.skip(i + 1))),
{
    let k = choose|k: int| first_at(s, c, k);
    assert(first_at(s, c, k));
    assert(k == i) by {
        if k < i {
            assert(s[k] != c);
        } else if i < k {
            assert(s[i] != c);
        }
    }
    assert(s.contains(c));
}

/// Splits `text` at the first `separator`.
pub fn split_once(text: &str, separator: char) -> (r: Option<(String, String)>)
    ensures
        r.deep_view() == cut_at(text@, separator),
{
    let chars = characters(text);
    let mut i: usize = 0;
    while i < chars.len()
        invariant
            i <= chars@.len(),
            chars@ == text@,
            forall|j: int| 0 <= j < i ==> chars@[j] != separator,
        decreases chars@.len() - i,
    {
        if chars[i] == separator {
            proof {
                assert(first_at(text@, separator, i as int));
                lemma_cut_at(text@, separator, i as int);
            }
            let head = text_between(&chars, 0, i);
            let tail = text_between(&chars, i + 1, chars.len());
            assert(head@ =~= text@.take(i as int));
            assert(tail@ =~= text@.skip(i + 1));
            return Some((head, tail));
        }
        i += 1;
    }
    assert(!text@.contains(separator));
    None
}

/// What stands after the last `c`; all of `s` when there is none.
pub open spec fn after_last(s: Seq<char>, c: char) -> Seq<char>
    decreases s.len(),
{
    if s.len() == 0 {
        s
    } else if s.last() == c {
        Seq::empty()
    } else {
        after_last(s.drop_last(), c).push(s.last())
    }
}

/// The part of `text` after the last `separator`.
pub fn tail_after(text: &str, separator: char) -> (r: String)
    ensures
        r@ == after_last(text@, separator),
{
    let chars = characters(text);
    let mut r = String::new();
    let mut i: usize = 0;
    while i < chars.len()
        invariant
            i <= chars@.len(),
            r@ =~= after_last(chars@.take(i as int), separator),
        decreases chars@.len() - i,
    {
        assert(chars@.take(i + 1).drop_last() =~= chars@.take(i as int));
        if chars[i] == separator {
            r = String::new();
        } else {
            r.push(chars[i]);
        }
        i += 1;
    }
    assert(chars@.take(i as int) =~= chars@);
    r
}

/// Whether `part` stands in `s` from position `at` on.
pub open spec fn stands_at(s: Seq<char>, part: Seq<char>, at: int) -> bool {
    0 <= at && at + part.len() <= s.len() && s.subrange(at, at + part.len()) == part
}

/// Whether `part` occurs somewhere in `s`.
pub open spec fn occurs_in(part: Seq<char>, s: Seq<char>) -> bool {
    exists|at: int| stands_at(s, part, at)
}

fn matches_at(chars: &Vec<char>, part: &Vec<char>, at: usize) -> (r: bool)
    requires
        at + part@.len() <= chars@.len(),
    ensures
        r == stands_at(chars@, part@, at as int),
{
    let size: usize = chars.len();
    let mut i: usize = 0;
    while i < part.len()
        invariant
            i <= part@.len(),
            size == chars@.len(),
            at + part@.len() <= size,
            forall|j: int| 0 <= j < i ==> chars@[at + j] == part@[j],
        decreases part@.len() - i,
    {
        if chars[at + i] != part[i] {
            assert(chars@.subrange(at as int, at + part@.len())[i as int] != part@[i as int]);
            return false;
        }
        i += 1;
    }
    assert(chars@.subrange(at as int, at + part@.len()) =~= part@);
    true
}

/// Whether `part` occurs in `text`.
pub fn contains(text: &str, part: &str) -> (r: bool)
    ensures
        r == occurs_in(part@, text@),
{
    let chars = characters(text);
    let wanted = characters(part);
    if wanted.len() > chars.len() {
        return false;
    }
    let last: usize = chars.len() - wanted.len();
    let mut at: usize = 0;
    while at <= last
        invariant
            chars@ == text@,
            wanted@ == part@,
            last == chars@.len() - wanted@.len(),
            at <= last + 1,
            forall|k: int| 0 <= k < at ==> !stands_at(text@, part@, k),
        decreases last + 1 - at,
    {
        if matches_at(&chars, &wanted, at) {
            return true;
        }
        if at == last {
            assert forall|k: int| !stands_at(text@, part@, k) by {}
            return false;
        }
        at += 1;
    }
    false
}

/// Whether `text` begins with `prefix`.
pub fn starts_with(text: &str, prefix: &str) -> (r: bool)
    ensures
        r == prefix@.is_prefix_of(text@),
{
    let chars = characters(text);
    let wanted = characters(prefix);
    if wanted.len() > chars.len() {
        return false;
    }
    assert(0 + wanted@.len() <= chars@.len());
    let r = matches_at(&chars, &wanted, 0);
    assert(chars@.subrange(0, wanted@.len() as int) =~= chars@.take(wanted@.len() as int));
    r
}

/// Whether `text` ends with `suffix`.
pub fn ends_with(text: &str, suffix: &str) -> (r: bool)
    ensures
        r == suffix@.is_suffix_of(text@),
{
    let chars = characters(text);
    let wanted = characters(suffix);
    if wanted.len() > chars.len() {
        return false;
    }
    let at: usize = chars.len() - wanted.len();
    let r = matches_at(&chars, &wanted, at);
    assert(chars@.subrange(at as int, at + wanted@.len()) =~= chars@.subrange(
        (chars@.len() - wanted@.len()) as int,
        chars@.len() as int,
    ));
    r
}

/// What follows `prefix` at the front of `s`, when it stands there.
pub open spec fn after_prefix(s: Seq<char>, prefix: Seq<char>) -> Option<Seq<char>> {
    if prefix.is_prefix_of(s) {
        Some(s.skip(prefix.len() as int))
    } else {
        None
    }
}

/// The rest of `text` after `prefix`, when `text` begins with it.
pub fn strip_prefix(text: &str, prefix: &str) -> (r: Option<String>)
    ensures
        r.deep_view() == after_prefix(text@, prefix@),
{
    if !starts_with(text, prefix) {
        return None;
    }
    let chars = characters(text);
    let at: usize = characters(prefix).len();
    let r = text_between(&chars, at, chars.len());
    assert(r@ =~= text@.skip(prefix@.len() as int));
    Some(r)
}

/// `s` without the runs of `suffix` at its back.
pub open spec fn without_suffixes(s: Seq<char>, suffix: Seq<char>) -> Seq<char>
    decreases s.len(),
{
    if suffix.len() > 0 && suffix.is_suffix_of(s) {
        without_suffixes(s.take(s.len() - suffix.len()), suffix)
    } else {
        s
    }
}

/// `text` without any repetition of `suffix` at its back.
pub fn strip_suffixes(text: &str, suffix: &str) -> (r: String)
    ensures
        r@ == without_suffixes(text@, suffix@),
{
    let chars = characters(text);
    let size: usize = characters(suffix).len();
    let mut rest = text_between(&chars, 0, chars.len());
    assert(rest@ =~= text@);
    while size > 0 && ends_with(rest.as_str(), suffix)
        invariant
            size == suffix@.len(),
            without_suffixes(rest@, suffix@) == without_suffixes(text@, suffix@),
        decreases rest@.len(),
    {
        let left = characters(rest.as_str());
        let ghost before = rest@;
        rest = text_between(&left, 0, left.len() - size);
        assert(rest@ =~= before.take(before.len() - suffix@.len()));
    }
    rest
}

/// `s` without the runs of `prefix` at its front.
pub open spec fn without_prefixes(s: Seq<char>, prefix: Seq<char>) -> Seq<char>
    decreases s.len(),
{
    if prefix.len() > 0 && prefix.is_prefix_of(s) {
        without_prefixes(s.skip(prefix.len() as int), prefix)
    } else {
        s
    }
}

/// `text` without any repetition of `prefix` at its front.
pub fn strip_prefixes(text: &str, prefix: &str) -> (r: String)
    ensures
        r@ == without_prefixes(text@, prefix@),
{
    let chars = characters(text);
    let size: usize = characters(prefix).len();
    let mut rest = text_between(&chars, 0, chars.len());
    assert(rest@ =~= text@);
    while size > 0 && starts_with(rest.as_str(), prefix)
        invariant
            size == prefix@.len(),
            without_prefixes(rest@, prefix@) == without_prefixes(text@, prefix@),
        decreases rest@.len(),
    {
        let left = characters(rest.as_str());
        let ghost before = rest@;
        rest = text_between(&left, size, left.len());
        assert(rest@ =~= before.skip(prefix@.len() as int));
    }
    rest
}

/// Two texts, one after the other.
pub fn concat2(a: &str, b: &str) -> (r: String)
    ensures
        r@ == a@ + b@,
{
    let mut r = String::new();
    r.append(a);
    r.append(b);
    assert(r@ =~= a@ + b@);
    r
}

/// Three texts, one after the other.
pub fn concat3(a: &str, b: &str, c: &str) -> (r: String)
    ensures
        r@ == a@ + b@ + c@,
{
    let mut r = String::new();
    r.append(a);
    r.append(b);
    r.append(c);
    assert(r@ =~= a@ + b@ + c@);
    r
}

// --- numbers ---------------------------------------------------------------

/// The digit that stands for a number below ten.
pub open spec fn digit(d: nat) -> char {
    ('0' as nat + d) as char
}

/// A natural number in decimal, with no digit more than it needs.
pub open spec fn digits(n: nat) -> Seq<char>
    decreases n,
{
    if n < 10 {
        seq![digit(n)]
    } else {
        digits(n / 10).push(digit(n % 10))
    }
}

/// An integer in decimal.
pub open spec fn decimal(value: int) -> Seq<char> {
    if value < 0 {
        "-"@ + digits((-value) as nat)
    } else {
        digits(value as nat)
    }
}

/// A natural number in decimal.
fn write_digits(n: u64) -> (r: String)
    ensures
        r@ == digits(n as nat),
    decreases n,
{
    let last: u8 = (n % 10) as u8;
    let mut text = if n < 10 {
        String::new()
    } else {
        write_digits(n / 10)
    };
    text.push((48 + last) as char);
    text
}

/// An integer in decimal.
pub fn write_decimal(value: i64) -> (r: String)
    ensures
        r@ == decimal(value as int),
{
    if value < 0 {
        let size: u64 = (-(value + 1)) as u64 + 1;
        concat2("-", write_digits(size).as_str())
    } else {
        write_digits(value as u64)
    }
}

} // verus!
