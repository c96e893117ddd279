//! Character-level text primitives.
//!
//! Console output is handled as a sequence of Unicode scalar values. Every
//! executable function here is specified against a spec function over
//! `Seq<char>`, so the parsers built on top can state exactly which part of
//! the text ends up in which field.

use vstd::prelude::*;
use vstd::utf8::{decode_utf8, valid_utf8};

verus! {

/// `String::push` of the standard library. Trusted: the call appends the
/// character to the end of the string and changes nothing else.
pub assume_specification[ String::push ](s: &mut String, c: char)
    ensures
        final(s)@ == old(s)@.push(c),
;

/// Calls `std::str::from_utf8` on the bytes and copies what it returns into a
/// string. Trusted: the call succeeds exactly on well-formed UTF-8, and the
/// string then holds the characters that the bytes encode.
#[verifier::external_body]
fn utf8_text(bytes: &Vec<u8>) -> (r: Option<String>)
    ensures
        r is Some <==> valid_utf8(bytes@),
        r matches Some(s) ==> s@ == decode_utf8(bytes@),
{
    match std::str::from_utf8(bytes.as_slice()) {
        Ok(text) => Some(text.to_owned()),
        Err(_) => None,
    }
}

/// The text that `bytes` encode in UTF-8, if they encode one.
pub open spec fn decoded(bytes: Seq<u8>) -> Option<Seq<char>> {
    if valid_utf8(bytes) {
        Some(decode_utf8(bytes))
    } else {
        None
    }
}

/// Decodes UTF-8.
pub fn decode(bytes: &Vec<u8>) -> (r: Option<String>)
    ensures
        text_view(r) == decoded(bytes@),
{
    utf8_text(bytes)
}

/// The characters of an optional string.
pub open spec fn text_view(field: Option<String>) -> Option<Seq<char>> {
    match field {
        Some(s) => Some(s@),
        None => None,
    }
}

/// Whether `c` carries the Unicode `White_Space` property.
pub open spec fn is_space(c: char) -> bool {
    let u = c as u32;
    ||| 0x09 <= u <= 0x0d
    ||| u == 0x20
    ||| u == 0x85
    ||| u == 0xa0
    ||| u == 0x1680
    ||| 0x2000 <= u <= 0x200a
    ||| u == 0x2028
    ||| u == 0x2029
    ||| u == 0x202f
    ||| u == 0x205f
    ||| u == 0x3000
}

/// The character sequences of a list of character vectors.
pub open spec fn views(list: Seq<Vec<char>>) -> Seq<Seq<char>> {
    Seq::new(list.len(), |i: int| list[i]@)
}

/// The character sequences of a list of strings.
pub open spec fn texts(list: Seq<String>) -> Seq<Seq<char>> {
    Seq::new(list.len(), |i: int| list[i]@)
}

/// `phrase` occurs in `text` starting at index `at`.
pub open spec fn occurs_at(text: Seq<char>, phrase: Seq<char>, at: int) -> bool {
    &&& 0 <= at
    &&& at + phrase.len() <= text.len()
    &&& text.subrange(at, at + phrase.len()) == phrase
}

/// `phrase` occurs somewhere in `text`.
pub open spec fn contains(text: Seq<char>, phrase: Seq<char>) -> bool {
    exists|at: int| occurs_at(text, phrase, at)
}

/// `text` begins with `prefix`.
pub open spec fn starts_with(text: Seq<char>, prefix: Seq<char>) -> bool {
    occurs_at(text, prefix, 0)
}

/// `line` without one trailing carriage return, if it has one.
pub open spec fn without_cr(line: Seq<char>) -> Seq<char> {
    if line.len() > 0 && line.last() == '\r' {
        line.drop_last()
    } else {
        line
    }
}

/// The lines of `text` that remain to be produced when the current line began
/// at `start` and the characters before `pos` have been read.
pub open spec fn lines_scan(text: Seq<char>, start: int, pos: int) -> Seq<Seq<char>>
    decreases text.len() - pos,
{
    if pos >= text.len() {
        if start < text.len() {
            seq![text.subrange(start, text.len() as int)]
        } else {
            Seq::empty()
        }
    } else if text[pos] == '\n' {
        seq![without_cr(text.subrange(start, pos))] + lines_scan(text, pos + 1, pos + 1)
    } else {
        lines_scan(text, start, pos + 1)
    }
}

/// The lines of `text`: the pieces between line feeds, each without the line
/// feed and without a carriage return directly before it. A last piece that
/// no line feed ends is a line only if it is not empty, and keeps a trailing
/// carriage return.
pub open spec fn lines(text: Seq<char>) -> Seq<Seq<char>> {
    lines_scan(text, 0, 0)
}

/// The words of `text` that remain to be produced when the current run of
/// characters began at `start` and the characters before `pos` have been read.
pub open spec fn words_scan(text: Seq<char>, start: int, pos: int) -> Seq<Seq<char>>
    decreases text.len() - pos,
{
    if pos >= text.len() {
        if start < text.len() {
            seq![text.subrange(start, text.len() as int)]
        } else {
            Seq::empty()
        }
    } else if is_space(text[pos]) {
        if start < pos {
            seq![text.subrange(start, pos)] + words_scan(text, pos + 1, pos + 1)
        } else {
            words_scan(text, pos + 1, pos + 1)
        }
    } else {
        words_scan(text, start, pos + 1)
    }
}

/// The words of `text`: its maximal runs of characters that are not white
/// space, in order.
pub open spec fn words(text: Seq<char>) -> Seq<Seq<char>> {
    words_scan(text, 0, 0)
}

/// The pieces of `text` between occurrences of `sep` that remain to be
/// produced when the current piece began at `start` and the characters before
/// `pos` have been read.
pub open spec fn pieces_scan(text: Seq<char>, sep: char, start: int, pos: int) -> Seq<Seq<char>>
    decreases text.len() - pos,
{
    if pos >= text.len() {
        seq![text.subrange(start, text.len() as int)]
    } else if text[pos] == sep {
        seq![text.subrange(start, pos)] + pieces_scan(text, sep, pos + 1, pos + 1)
    } else {
        pieces_scan(text, sep, start, pos + 1)
    }
}

/// The pieces of `text` between occurrences of `sep`, empty pieces included:
/// a text with `n` separators has `n + 1` pieces.
pub open spec fn pieces(text: Seq<char>, sep: char) -> Seq<Seq<char>> {
    pieces_scan(text, sep, 0, 0)
}

/// The index of the first character at or after `pos` that is not white
/// space, or the length of `text` if there is none.
pub open spec fn skip_spaces(text: Seq<char>, pos: int) -> int
    decreases text.len() - pos,
{
    if pos >= text.len() {
        text.len() as int
    } else if is_space(text[pos]) {
        skip_spaces(text, pos + 1)
    } else {
        pos
    }
}

/// `text` without its leading white space.
pub open spec fn trimmed_start(text: Seq<char>) -> Seq<char> {
    text.subrange(skip_spaces(text, 0), text.len() as int)
}

/// The texts of `parts`, one after the other, with `sep` between each two.
pub open spec fn joined(parts: Seq<Seq<char>>, sep: char) -> Seq<char>
    decreases parts.len(),
{
    if parts.len() == 0 {
        Seq::empty()
    } else if parts.len() == 1 {
        parts[0]
    } else {
        parts[0] + seq![sep] + joined(parts.drop_first(), sep)
    }
}

/// `text` holds the character `c` nowhere.
pub open spec fn free_of(text: Seq<char>, c: char) -> bool {
    forall|i: int| 0 <= i < text.len() ==> text[i] != c
}

/// What remains to be produced of the pieces is never empty, holds the
/// separator nowhere, and joins to what remains of the text.
pub proof fn lemma_pieces_scan_join(text: Seq<char>, sep: char, start: int, pos: int)
    requires
        0 <= start <= pos <= text.len(),
        forall|i: int| start <= i < pos ==> text[i] != sep,
    ensures
        pieces_scan(text, sep, start, pos).len() >= 1,
        forall|k: int|
            0 <= k < pieces_scan(text, sep, start, pos).len() ==> free_of(
                #[trigger] pieces_scan(text, sep, start, pos)[k],
                sep,
            ),
        joined(pieces_scan(text, sep, start, pos), sep) == text.subrange(
            start,
            text.len() as int,
        ),
    decreases text.len() - pos,
{
    let found = pieces_scan(text, sep, start, pos);
    if pos >= text.len() {
    } else if text[pos] == sep {
        let first = text.subrange(start, pos);
        let rest = pieces_scan(text, sep, pos + 1, pos + 1);
        lemma_pieces_scan_join(text, sep, pos + 1, pos + 1);
        assert(found =~= seq![first] + rest);
        assert(found.drop_first() =~= rest);
        assert(first + seq![sep] + text.subrange(pos + 1, text.len() as int) =~= text.subrange(
            start,
            text.len() as int,
        ));
        assert forall|k: int| 0 <= k < found.len() implies free_of(#[trigger] found[k], sep) by {
            if k > 0 {
                assert(found[k] == rest[k - 1]);
            }
        }
    } else {
        lemma_pieces_scan_join(text, sep, start, pos + 1);
    }
}

/// The pieces of a text are what the text is made of: none holds the
/// separator, and joined by the separator they give the text again.
pub proof fn lemma_pieces_join(text: Seq<char>, sep: char)
    ensures
        pieces(text, sep).len() >= 1,
        forall|k: int|
            0 <= k < pieces(text, sep).len() ==> free_of(#[trigger] pieces(text, sep)[k], sep),
        joined(pieces(text, sep), sep) == text,
{
    lemma_pieces_scan_join(text, sep, 0, 0);
    assert(text.subrange(0, text.len() as int) =~= text);
}

/// `text` is not empty and holds no white space.
pub open spec fn is_word(text: Seq<char>) -> bool {
    &&& text.len() > 0
    &&& forall|i: int| 0 <= i < text.len() ==> !is_space(text[i])
}

/// What remains to be produced of the words are words.
pub proof fn lemma_words_scan_are_words(text: Seq<char>, start: int, pos: int)
    requires
        0 <= start <= pos <= text.len(),
        forall|i: int| start <= i < pos ==> !is_space(text[i]),
    ensures
        forall|k: int|
            0 <= k < words_scan(text, start, pos).len() ==> is_word(
                #[trigger] words_scan(text, start, pos)[k],
            ),
    decreases text.len() - pos,
{
    let found = words_scan(text, start, pos);
    if pos >= text.len() {
        if start < text.len() {
            let word = text.subrange(start, text.len() as int);
            assert forall|i: int| 0 <= i < word.len() implies !is_space(word[i]) by {
                assert(word[i] == text[start + i]);
            }
            assert(is_word(found[0]));
        }
    } else if is_space(text[pos]) {
        let rest = words_scan(text, pos + 1, pos + 1);
        lemma_words_scan_are_words(text, pos + 1, pos + 1);
        if start < pos {
            let word = text.subrange(start, pos);
            assert forall|i: int| 0 <= i < word.len() implies !is_space(word[i]) by {
                assert(word[i] == text[start + i]);
            }
            assert(found =~= seq![word] + rest);
            assert forall|k: int| 0 <= k < found.len() implies is_word(#[trigger] found[k]) by {
                if k > 0 {
                    assert(found[k] == rest[k - 1]);
                } else {
                    assert(found[0] == word);
                }
            }
        } else {
            assert(found == rest);
        }
    } else {
        lemma_words_scan_are_words(text, start, pos + 1);
        assert(found == words_scan(text, start, pos + 1));
    }
}

/// Every word of a text is a run of at least one character without white
/// space.
pub proof fn lemma_words_are_words(text: Seq<char>)
    ensures
        forall|k: int| 0 <= k < words(text).len() ==> is_word(#[trigger] words(text)[k]),
{
    lemma_words_scan_are_words(text, 0, 0);
}

/// What remains to be produced of the lines holds no line feed.
pub proof fn lemma_lines_scan_are_lines(text: Seq<char>, start: int, pos: int)
    requires
        0 <= start <= pos <= text.len(),
        forall|i: int| start <= i < pos ==> text[i] != '\n',
    ensures
        forall|k: int|
            0 <= k < lines_scan(text, start, pos).len() ==> free_of(
                #[trigger] lines_scan(text, start, pos)[k],
                '\n',
            ),
    decreases text.len() - pos,
{
    let found = lines_scan(text, start, pos);
    if pos >= text.len() {
        if start < text.len() {
            let line = text.subrange(start, text.len() as int);
            assert forall|i: int| 0 <= i < line.len() implies line[i] != '\n' by {
                assert(line[i] == text[start + i]);
            }
            assert(free_of(found[0], '\n'));
        }
    } else if text[pos] == '\n' {
        let rest = lines_scan(text, pos + 1, pos + 1);
        lemma_lines_scan_are_lines(text, pos + 1, pos + 1);
        let raw = text.subrange(start, pos);
        let line = without_cr(raw);
        assert forall|i: int| 0 <= i < line.len() implies line[i] != '\n' by {
            assert(line[i] == raw[i]);
            assert(raw[i] == text[start + i]);
        }
        assert(found =~= seq![line] + rest);
        assert forall|k: int| 0 <= k < found.len() implies free_of(#[trigger] found[k], '\n') by {
            if k > 0 {
                assert(found[k] == rest[k - 1]);
            } else {
                assert(found[0] == line);
            }
        }
    } else {
        lemma_lines_scan_are_lines(text, start, pos + 1);
        assert(found == lines_scan(text, start, pos + 1));
    }
}

/// No line of a text holds a line feed.
pub proof fn lemma_lines_are_lines(text: Seq<char>)
    ensures
        forall|k: int| 0 <= k < lines(text).len() ==> free_of(#[trigger] lines(text)[k], '\n'),
{
    lemma_lines_scan_are_lines(text, 0, 0);
}

/// Characters other than the separator are passed over in the search for
/// the end of a piece.
pub proof fn lemma_pieces_scan_skips(text: Seq<char>, sep: char, start: int, pos: int, to: int)
    requires
        0 <= pos <= to <= text.len(),
        forall|i: int| pos <= i < to ==> text[i] != sep,
    ensures
        pieces_scan(text, sep, start, pos) == pieces_scan(text, sep, start, to),
    decreases to - pos,
{
    if pos < to {
        lemma_pieces_scan_skips(text, sep, start, pos + 1, to);
    }
}

/// Two texts without the separator, joined by it, are the two pieces of
/// what they make.
pub proof fn lemma_pieces_of_two(left: Seq<char>, sep: char, right: Seq<char>)
    requires
        forall|i: int| 0 <= i < left.len() ==> left[i] != sep,
        forall|i: int| 0 <= i < right.len() ==> right[i] != sep,
    ensures
        pieces(left + seq![sep] + right, sep) == seq![left, right],
{
    let text = left + seq![sep] + right;
    let cut = left.len() as int;
    let end = text.len() as int;
    assert forall|i: int| 0 <= i < cut implies text[i] != sep by {
        assert(text[i] == left[i]);
    }
    assert forall|i: int| cut + 1 <= i < end implies text[i] != sep by {
        assert(text[i] == right[i - cut - 1]);
    }
    lemma_pieces_scan_skips(text, sep, 0, 0, cut);
    lemma_pieces_scan_skips(text, sep, cut + 1, cut + 1, end);
    assert(text[cut] == sep);
    assert(text.subrange(0, cut) =~= left);
    assert(text.subrange(cut + 1, end) =~= right);
    assert(pieces_scan(text, sep, cut + 1, end) =~= seq![right]);
    assert(seq![left] + seq![right] =~= seq![left, right]);
}

/// Tests a character for the Unicode `White_Space` property.
pub fn is_whitespace(c: char) -> (b: bool)
    ensures
        b == is_space(c),
{
    let u: u32 = c as u32;
    (0x09 <= u && u <= 0x0d) || u == 0x20 || u == 0x85 || u == 0xa0 || u == 0x1680 || (0x2000 <= u
        && u <= 0x200a) || u == 0x2028 || u == 0x2029 || u == 0x202f || u == 0x205f || u == 0x3000
}

/// The characters of a string slice.
pub fn to_chars(s: &str) -> (chars: Vec<char>)
    ensures
        chars@ == s@,
{
    let mut chars: Vec<char> = Vec::new();
    for c in it: s.chars()
        invariant
            chars@ == it.seq().take(it.index()),
            it.seq() == s@,
    {
        chars.push(c);
    }
    chars
}

/// The string made of the given characters.
pub fn from_chars(chars: &Vec<char>) -> (s: String)
    ensures
        s@ == chars@,
{
    let mut s = String::new();
    let mut i: usize = 0;
    while i < chars.len()
        invariant
            i <= chars.len(),
            s@ == chars@.take(i as int),
        decreases chars.len() - i,
    {
        s.push(chars[i]);
        i = i + 1;
    }
    s
}

/// A copy of the characters of `text` from index `from` up to `to`.
pub fn copy_range(text: &Vec<char>, from: usize, to: usize) -> (part: Vec<char>)
    requires
        from <= to <= text.len(),
    ensures
        part@ == text@.subrange(from as int, to as int),
{
    let mut part: Vec<char> = Vec::new();
    let mut i: usize = from;
    while i < to
        invariant
            from <= i <= to <= text.len(),
            part@ == text@.subrange(from as int, i as int),
        decreases to - i,
    {
        part.push(text[i]);
        i = i + 1;
    }
    part
}

/// Tests whether `phrase` occurs in `text` at index `at`.
pub fn matches_at(text: &Vec<char>, phrase: &Vec<char>, at: usize) -> (b: bool)
    ensures
        b == occurs_at(text@, phrase@, at as int),
{
    if phrase.len() > text.len() || at > text.len() - phrase.len() {
        return false;
    }
    let mut k: usize = 0;
    while k < phrase.len()
        invariant
            k <= phrase.len(),
            at + phrase.len() <= text.len(),
            forall|j: int| 0 <= j < k ==> text@[at + j] == phrase@[j],
        decreases phrase.len() - k,
    {
        if text[at + k] != phrase[k] {
            proof {
                let window = text@.subrange(at as int, at + phrase.len());
                assert(window[k as int] == text@[at + k]);
            }
            return false;
        }
        k = k + 1;
    }
    assert(text@.subrange(at as int, at + phrase.len()) =~= phrase@);
    true
}

/// Tests whether two texts hold the same characters.
pub fn same_text(a: &Vec<char>, b: &Vec<char>) -> (same: bool)
    ensures
        same == (a@ == b@),
{
    if a.len() != b.len() {
        return false;
    }
    let same = matches_at(a, b, 0);
    assert(a@.subrange(0, a@.len() as int) =~= a@);
    same
}

/// Tests whether `text` begins with `prefix`.
pub fn has_prefix(text: &Vec<char>, prefix: &Vec<char>) -> (b: bool)
    ensures
        b == starts_with(text@, prefix@),
{
    matches_at(text, prefix, 0)
}

/// Tests whether `phrase` occurs anywhere in `text`.
pub fn has_phrase(text: &Vec<char>, phrase: &Vec<char>) -> (b: bool)
    ensures
        b == contains(text@, phrase@),
{
    if phrase.len() > text.len() {
        return false;
    }
    let last: usize = text.len() - phrase.len();
    let mut at: usize = 0;
    loop
        invariant
            at <= last,
            last == text.len() - phrase.len(),
            forall|j: int| 0 <= j < at ==> !occurs_at(text@, phrase@, j),
        decreases last - at,
    {
        if matches_at(text, phrase, at) {
            return true;
        }
        if at == last {
            return false;
        }
        at = at + 1;
    }
}

/// Splits `text` into its lines.
pub fn split_lines(text: &Vec<char>) -> (out: Vec<Vec<char>>)
    ensures
        views(out@) == lines(text@),
{
    let mut out: Vec<Vec<char>> = Vec::new();
    let mut start: usize = 0;
    let mut pos: usize = 0;
    assert(views(out@) + lines_scan(text@, 0, 0) =~= lines(text@));
    while pos < text.len()
        invariant
            start <= pos <= text.len(),
            views(out@) + lines_scan(text@, start as int, pos as int) == lines(text@),
        decreases text.len() - pos,
    {
        if text[pos] == '\n' {
            let mut end: usize = pos;
            if start < pos && text[pos - 1] == '\r' {
                end = pos - 1;
            }
            let line = copy_range(text, start, end);
            let ghost before = out@;
            let ghost rest = lines_scan(text@, pos + 1, pos + 1);
            out.push(line);
            proof {
                let raw = text@.subrange(start as int, pos as int);
                assert(line@ =~= without_cr(raw));
                assert(views(out@) =~= views(before).push(line@));
                assert(views(out@) + rest =~= views(before) + (seq![line@] + rest));
            }
            start = pos + 1;
        }
        pos = pos + 1;
    }
    if start < text.len() {
        let line = copy_range(text, start, text.len());
        let ghost before = out@;
        out.push(line);
        assert(views(out@) =~= views(before) + seq![line@]);
    } else {
        assert(views(out@) + Seq::<Seq<char>>::empty() =~= views(out@));
    }
    out
}

/// Splits `text` into its words.
pub fn split_words(text: &Vec<char>) -> (out: Vec<Vec<char>>)
    ensures
        views(out@) == words(text@),
{
    let mut out: Vec<Vec<char>> = Vec::new();
    let mut start: usize = 0;
    let mut pos: usize = 0;
    assert(views(out@) + words_scan(text@, 0, 0) =~= words(text@));
    while pos < text.len()
        invariant
            start <= pos <= text.len(),
            views(out@) + words_scan(text@, start as int, pos as int) == words(text@),
        decreases text.len() - pos,
    {
        if is_whitespace(text[pos]) {
            if start < pos {
                let word = copy_range(text, start, pos);
                let ghost before = out@;
                let ghost rest = words_scan(text@, pos + 1, pos + 1);
                out.push(word);
                proof {
                    assert(views(out@) =~= views(before).push(word@));
                    assert(views(out@) + rest =~= views(before) + (seq![word@] + rest));
                }
            }
            start = pos + 1;
        }
        pos = pos + 1;
    }
    if start < text.len() {
        let word = copy_range(text, start, text.len());
        let ghost before = out@;
        out.push(word);
        assert(views(out@) =~= views(before) + seq![word@]);
    } else {
        assert(views(out@) + Seq::<Seq<char>>::empty() =~= views(out@));
    }
    out
}

/// Splits `text` at every occurrence of `sep`. There is always a first
/// piece.
pub fn split_on(text: &Vec<char>, sep: char) -> (out: Vec<Vec<char>>)
    ensures
        views(out@) == pieces(text@, sep),
        out.len() >= 1,
{
    let mut out: Vec<Vec<char>> = Vec::new();
    let mut start: usize = 0;
    let mut pos: usize = 0;
    assert(views(out@) + pieces_scan(text@, sep, 0, 0) =~= pieces(text@, sep));
    while pos < text.len()
        invariant
            start <= pos <= text.len(),
            views(out@) + pieces_scan(text@, sep, start as int, pos as int) == pieces(text@, sep),
        decreases text.len() - pos,
    {
        if text[pos] == sep {
            let piece = copy_range(text, start, pos);
            let ghost before = out@;
            let ghost rest = pieces_scan(text@, sep, pos + 1, pos + 1);
            out.push(piece);
            proof {
                assert(views(out@) =~= views(before).push(piece@));
                assert(views(out@) + rest =~= views(before) + (seq![piece@] + rest));
            }
            start = pos + 1;
        }
        pos = pos + 1;
    }
    let piece = copy_range(text, start, text.len());
    let ghost before = out@;
    out.push(piece);
    assert(views(out@) =~= views(before) + seq![piece@]);
    out
}

/// Drops the leading white space of `text`.
pub fn trim_start(text: &Vec<char>) -> (out: Vec<char>)
    ensures
        out@ == trimmed_start(text@),
{
    let mut pos: usize = 0;
    while pos < text.len() && is_whitespace(text[pos])
        invariant
            pos <= text.len(),
            skip_spaces(text@, pos as int) == skip_spaces(text@, 0),
        decreases text.len() - pos,
    {
        pos = pos + 1;
    }
    copy_range(text, pos, text.len())
}

} // verus!
