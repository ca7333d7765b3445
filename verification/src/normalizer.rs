//! Cleaning up what speech-to-text programs write: timestamps, markers for what is not speech, and
//! white space.

use crate::text::{
    ascii, chars_of, is_word, joined, lemma_already_trimmed, lemma_joined_ends, lemma_trimmed_ends,
    lemma_word_len, lemma_words_split, lemma_words_trimmed, lemma_words_trimmed_start, trim, trimmed,
    trimmed_start, views, white, word_len, words,
};
use vstd::prelude::*;

verus! {

/// A timestamp like `[00:00:00.000 --> 00:00:03.280]`, with the white space behind it.
pub const TIMESTAMP_PATTERN: &'static str =
    r"\[\d{2}:\d{2}:\d{2}[:.]\d{3}\s*-->\s*\d{2}:\d{2}:\d{2}[:.]\d{3}\]\s*";

/// A marker for what is not speech, in square or in round brackets.
pub const MARKER_PATTERN: &'static str =
    r"(?ix)
            (?:
                \[
                    \s*
                    (?:blank_audio|silence|silent|no \s+ speech|inaudible|music|noise|background \s+ noise)
                    \s*
                \]
                |
                \(
                    \s*
                    (?:blank_audio|silence|silent|no \s+ speech|inaudible|music|noise|background \s+ noise)
                    \s*
                \)
            )";

/// A run of white space.
pub const SPACE_PATTERN: &'static str = r"\s+";

/// The result of `regex::Regex::replace_all`: a text in which every match of a pattern is replaced.
pub uninterp spec fn replaced(
    pattern: Seq<char>,
    text: Seq<char>,
    replacement: Seq<char>,
) -> Seq<char>;

/// The character does not occur in the text.
pub open spec fn lacks(s: Seq<char>, c: char) -> bool {
    forall|i: int| 0 <= i < s.len() ==> #[trigger] s[i] != c
}

/// A text in which each maximal run of white space is a single space.
pub open spec fn collapsed(s: Seq<char>) -> Seq<char>
    decreases s.len(),
{
    if s.len() == 0 {
        s
    } else if white(s[0]) {
        proof {
            lemma_trimmed_start_shorter(s.drop_first());
        }
        seq![' '] + collapsed(trimmed_start(s.drop_first()))
    } else {
        seq![s[0]] + collapsed(s.drop_first())
    }
}

pub proof fn lemma_trimmed_start_shorter(s: Seq<char>)
    ensures
        trimmed_start(s).len() <= s.len(),
    decreases s.len(),
{
    if s.len() > 0 && white(s[0]) {
        lemma_trimmed_start_shorter(s.drop_first());
    }
}

/// The words that a marker holds, in lower case.
pub open spec fn marks_non_speech(ws: Seq<Seq<char>>) -> bool {
    ||| ws == seq!["blank_audio"@]
    ||| ws == seq!["silence"@]
    ||| ws == seq!["silent"@]
    ||| ws == seq!["no"@, "speech"@]
    ||| ws == seq!["inaudible"@]
    ||| ws == seq!["music"@]
    ||| ws == seq!["noise"@]
    ||| ws == seq!["background"@, "noise"@]
}

/// A character without its case, as far as the words of markers go: a capital letter is its small
/// one, and so are the long s and the kelvin sign.
pub open spec fn fold(c: char) -> char {
    if 'A' <= c && c <= 'Z' {
        (c as u32 + 32) as char
    } else if c == '\u{17f}' {
        's'
    } else if c == '\u{212a}' {
        'k'
    } else {
        c
    }
}

/// A text without its case.
pub open spec fn folded(s: Seq<char>) -> Seq<char> {
    Seq::new(s.len(), |i: int| fold(s[i]))
}

/// A marker for what is not speech: the words for it, in any case, in square or round brackets.
pub open spec fn is_marker(s: Seq<char>) -> bool {
    &&& s.len() >= 2
    &&& (s[0] == '[' && s.last() == ']') || (s[0] == '(' && s.last() == ')')
    &&& marks_non_speech(words(folded(s.subrange(1, s.len() - 1))))
}

/// A marker is at the start of the text.
pub open spec fn opens_marker(s: Seq<char>) -> bool {
    exists|n: int| 0 < n <= s.len() && is_marker(#[trigger] s.take(n))
}

/// The length of the marker at the start of the text.
pub open spec fn marker_len(s: Seq<char>) -> int {
    choose|n: int| 0 < n <= s.len() && is_marker(#[trigger] s.take(n))
}

/// A text with each marker replaced.
pub open spec fn markers_replaced(s: Seq<char>, by: Seq<char>) -> Seq<char>
    decreases s.len(),
{
    if s.len() == 0 {
        s
    } else if opens_marker(s) {
        by + markers_replaced(s.skip(marker_len(s)), by)
    } else {
        seq![s[0]] + markers_replaced(s.drop_first(), by)
    }
}

/// A decimal digit.
pub open spec fn is_digit(c: char) -> bool {
    '0' <= c && c <= '9'
}

/// A digit; `any` also takes a character beyond ASCII for one, which may be a digit or not.
pub open spec fn digit_like(c: char, any: bool) -> bool {
    is_digit(c) || (any && c as u32 >= 128)
}

/// A time like `00:00:03.280` or `00:00:03:280`.
pub open spec fn time_like(t: Seq<char>, any: bool) -> bool {
    &&& t.len() == 12
    &&& digit_like(t[0], any) && digit_like(t[1], any) && t[2] == ':'
    &&& digit_like(t[3], any) && digit_like(t[4], any) && t[5] == ':'
    &&& digit_like(t[6], any) && digit_like(t[7], any) && (t[8] == '.' || t[8] == ':')
    &&& digit_like(t[9], any) && digit_like(t[10], any) && digit_like(t[11], any)
}

/// A time like `00:00:03.280` or `00:00:03:280`.
pub open spec fn is_time(t: Seq<char>) -> bool {
    time_like(t, false)
}

/// White space and nothing else.
pub open spec fn blank(s: Seq<char>) -> bool {
    forall|i: int| 0 <= i < s.len() ==> white(#[trigger] s[i])
}

/// Two times in square brackets, and an arrow between them with something before and after it.
pub open spec fn stamp_of(
    from: Seq<char>,
    before: Seq<char>,
    after: Seq<char>,
    to: Seq<char>,
) -> Seq<char> {
    seq!['['] + from + before + seq!['-', '-', '>'] + after + to + seq![']']
}

/// A timestamp: two times in square brackets, and an arrow between them with white space around it.
pub open spec fn is_stamp(s: Seq<char>, any: bool) -> bool {
    exists|from: Seq<char>, before: Seq<char>, after: Seq<char>, to: Seq<char>|
        s == #[trigger] stamp_of(from, before, after, to) && time_like(from, any) && time_like(
            to,
            any,
        ) && blank(before) && blank(after)
}

/// A timestamp with an arrow between single spaces.
pub open spec fn timestamp(from: Seq<char>, to: Seq<char>) -> Seq<char> {
    seq!['['] + from + seq![' ', '-', '-', '>', ' '] + to + seq![']']
}

/// No part of the text is a timestamp, nor would be one if its characters beyond ASCII were digits.
pub open spec fn holds_no_timestamp(s: Seq<char>) -> bool {
    forall|i: int, j: int| 0 <= i <= j <= s.len() ==> !is_stamp(#[trigger] s.subrange(i, j), true)
}

/// The digits of its timestamps are ASCII: no character beyond ASCII stands where a timestamp has a
/// digit.
pub open spec fn stamped_in_ascii(s: Seq<char>) -> bool {
    forall|i: int, j: int|
        0 <= i <= j <= s.len() && is_stamp(#[trigger] s.subrange(i, j), true) ==> is_stamp(
            s.subrange(i, j),
            false,
        )
}

/// A timestamp is at the start of the text.
pub open spec fn opens_stamp(s: Seq<char>) -> bool {
    exists|n: int| 0 < n <= s.len() && is_stamp(#[trigger] s.take(n), false)
}

/// The length of the timestamp at the start of the text.
pub open spec fn stamp_len(s: Seq<char>) -> int {
    choose|n: int| 0 < n <= s.len() && is_stamp(#[trigger] s.take(n), false)
}

/// A text with each timestamp replaced, and with it the white space behind it.
pub open spec fn stamps_replaced(s: Seq<char>, by: Seq<char>) -> Seq<char>
    decreases s.len(),
{
    if s.len() == 0 {
        s
    } else if opens_stamp(s) {
        proof {
            lemma_trimmed_start_shorter(s.skip(stamp_len(s)));
        }
        by + stamps_replaced(trimmed_start(s.skip(stamp_len(s))), by)
    } else {
        seq![s[0]] + stamps_replaced(s.drop_first(), by)
    }
}

/// A text that no timestamp starts in: each square bracket is followed by an ASCII character that is
/// not a digit.
pub open spec fn opens_no_timestamp(s: Seq<char>) -> bool {
    forall|i: int|
        0 <= i < s.len() && #[trigger] s[i] == '[' ==> i + 1 < s.len() && (s[i + 1] as u32) < 128
            && !is_digit(s[i + 1])
}

/// Texts with markers between each two neighbours.
pub open spec fn interleaved(pieces: Seq<Seq<char>>, markers: Seq<Seq<char>>) -> Seq<char>
    decreases markers.len(),
{
    if markers.len() == 0 {
        pieces[0]
    } else {
        interleaved(pieces.drop_last(), markers.drop_last()) + markers.last() + pieces.last()
    }
}

/// Texts without brackets, and markers to stand between them.
pub open spec fn pieces_and_markers(pieces: Seq<Seq<char>>, markers: Seq<Seq<char>>) -> bool {
    &&& pieces.len() == markers.len() + 1
    &&& forall|i: int|
        0 <= i < pieces.len() ==> lacks(#[trigger] pieces[i], '[') && lacks(pieces[i], '(')
    &&& forall|i: int| 0 <= i < markers.len() ==> is_marker(#[trigger] markers[i])
}

/// `regex::Regex::replace_all` with one of the patterns of this module, all of which
/// `regex::Regex::new` compiles. The result depends on the pattern, the text and the replacement
/// alone: matches are replaced from the left to the right, and what lies between them stays. Of it
/// are stated: runs of white space become single spaces where a space replaces them; each marker is
/// replaced, its words read without regard to case; each timestamp is replaced, with the white space
/// behind it, unless a character beyond ASCII stands where a timestamp has a digit. The pattern
/// takes the digits of every script, and which characters these are is left unsaid. In any text the
/// first timestamp is replaced if its digits are ASCII and no other can start in front of it, and
/// what follows is treated as a text of its own. A replacement has no dollar sign, which would refer
/// to a group.
#[verifier::external_body]
fn replace_all(pattern: &str, text: &str, replacement: &str) -> (r: String)
    requires
        pattern@ == TIMESTAMP_PATTERN@ || pattern@ == MARKER_PATTERN@ || pattern@
            == SPACE_PATTERN@,
        lacks(replacement@, '$'),
    ensures
        r@ == replaced(pattern@, text@, replacement@),
        pattern@ == SPACE_PATTERN@ && replacement@ == " "@ ==> r@ == collapsed(text@),
        pattern@ == MARKER_PATTERN@ ==> r@ == markers_replaced(text@, replacement@),
        pattern@ == TIMESTAMP_PATTERN@ && stamped_in_ascii(text@) ==> r@ == stamps_replaced(
            text@,
            replacement@,
        ),
        forall|a: Seq<char>, from: Seq<char>, to: Seq<char>, b: Seq<char>|
            #![trigger a + timestamp(from, to) + b]
            pattern@ == TIMESTAMP_PATTERN@ && text@ == a + timestamp(from, to) + b
                && opens_no_timestamp(a) && is_time(from) && is_time(to) ==> {
                &&& r@ == a + replacement@ + replaced(pattern@, trimmed_start(b), replacement@)
                &&& opens_no_timestamp(b) ==> r@ == a + replacement@ + trimmed_start(b)
            },
{
    regex::Regex::new(pattern).expect("a pattern of this module is valid").replace_all(
        text,
        replacement,
    ).into_owned()
}

proof fn lemma_joined_front(first: Seq<char>, rest: Seq<Seq<char>>, sep: Seq<char>)
    requires
        rest.len() > 0,
    ensures
        joined(seq![first] + rest, sep) == first + sep + joined(rest, sep),
    decreases rest.len(),
{
    let all = seq![first] + rest;
    assert(all.last() == rest.last());
    assert(all.drop_last() == seq![first] + rest.drop_last());
    if rest.len() == 1 {
        assert(all.drop_last() =~= seq![first]);
        assert(joined(all.drop_last(), sep) == first);
        assert(joined(rest, sep) == rest[0]);
    } else {
        lemma_joined_front(first, rest.drop_last(), sep);
        let mid = joined(rest.drop_last(), sep);
        assert(first + sep + (mid + sep + rest.last()) =~= (first + sep + mid) + sep
            + rest.last());
    }
}

proof fn lemma_collapsed_word(s: Seq<char>)
    requires
        s.len() > 0,
        !white(s[0]),
    ensures
        ({
            let n = word_len(s) as int;
            collapsed(s) == s.take(n) + collapsed(s.skip(n))
        }),
    decreases s.len(),
{
    lemma_word_len(s);
    let n = word_len(s) as int;
    let t = s.drop_first();
    if t.len() > 0 && !white(t[0]) {
        lemma_word_len(t);
        lemma_collapsed_word(t);
        assert(s.take(n) =~= seq![s[0]] + t.take(n - 1));
        assert(s.skip(n) =~= t.skip(n - 1));
        assert(seq![s[0]] + (t.take(n - 1) + collapsed(s.skip(n))) =~= s.take(n) + collapsed(
            s.skip(n),
        ));
    } else {
        assert(word_len(t) == 0);
        assert(s.take(n) =~= seq![s[0]]);
        assert(s.skip(n) =~= t);
    }
}

proof fn lemma_trimmed_start_is_suffix(s: Seq<char>)
    ensures
        trimmed_start(s).len() <= s.len(),
        trimmed_start(s) == s.skip(s.len() - trimmed_start(s).len()),
    decreases s.len(),
{
    if s.len() > 0 && white(s[0]) {
        lemma_trimmed_start_is_suffix(s.drop_first());
        let t = s.drop_first();
        assert(t.skip(t.len() - trimmed_start(t).len()) =~= s.skip(
            s.len() - trimmed_start(s).len(),
        ));
    } else {
        assert(s.skip(0) =~= s);
    }
}

proof fn lemma_trimmed_start_keeps_last(s: Seq<char>)
    requires
        s.len() > 0,
        !white(s.last()),
    ensures
        trimmed_start(s).len() > 0,
        !white(trimmed_start(s)[0]),
        trimmed_start(s).last() == s.last(),
    decreases s.len(),
{
    if white(s[0]) {
        assert(s.drop_first().last() == s.last());
        lemma_trimmed_start_keeps_last(s.drop_first());
    }
}

/// A text that begins and ends with words, collapsed, is its words with single spaces between.
proof fn lemma_collapsed_is_words(s: Seq<char>)
    requires
        s.len() > 0,
        !white(s[0]),
        !white(s.last()),
    ensures
        collapsed(s) == joined(words(s), seq![' ']),
    decreases s.len(),
{
    lemma_word_len(s);
    lemma_collapsed_word(s);
    let n = word_len(s) as int;
    let w = s.take(n);
    let rest = s.skip(n);
    if rest.len() == 0 {
        assert(words(rest) =~= Seq::<Seq<char>>::empty());
        assert(words(s) =~= seq![w]);
        assert(w + collapsed(rest) =~= w);
    } else {
        assert(rest.last() == s.last());
        assert(white(rest[0]));
        let t = rest.drop_first();
        assert(t.len() > 0 && t.last() == s.last());
        lemma_trimmed_start_keeps_last(t);
        lemma_trimmed_start_is_suffix(t);
        let next = trimmed_start(t);
        lemma_collapsed_is_words(next);
        lemma_words_trimmed_start(t);
        assert(words(rest) == words(t));
        assert(words(next).len() > 0) by {
            lemma_word_len(next);
        }
        lemma_joined_front(w, words(next), seq![' ']);
        assert(w + (seq![' '] + collapsed(next)) =~= w + seq![' '] + collapsed(next));
    }
}

/// A text as its words with single spaces between them.
pub open spec fn tidied(s: Seq<char>) -> Seq<char> {
    joined(words(s), seq![' '])
}

/// A text as its words with single spaces between them: no white space at its ends, and no run of
/// it inside.
pub fn tidy(text: &str) -> (r: String)
    ensures
        r@ == tidied(text@),
{
    let inner = trim(text);
    proof {
        reveal_strlit(" ");
    }
    let single = replace_all(SPACE_PATTERN, inner, " ");
    proof {
        lemma_words_trimmed(text@);
        lemma_trimmed_ends(text@);
        let s = trimmed(text@);
        if s.len() > 0 {
            lemma_collapsed_is_words(s);
            crate::text::lemma_words_are_words(s);
            lemma_word_len(s);
            lemma_joined_ends(words(s));
            lemma_already_trimmed(single@);
        } else {
            assert(words(s) =~= Seq::<Seq<char>>::empty());
        }
    }
    trim(single.as_str()).to_owned()
}

/// A text without the markers for what is not speech, tidied.
pub open spec fn without_markers(text: Seq<char>) -> Seq<char> {
    tidied(markers_replaced(text, seq![' ']))
}

/// What a marker holds has no bracket.
proof fn lemma_marker_inside(inner: Seq<char>)
    requires
        marks_non_speech(words(folded(inner))),
    ensures
        lacks(inner, '['),
        lacks(inner, ']'),
        lacks(inner, '('),
        lacks(inner, ')'),
{
    let s = folded(inner);
    reveal_strlit("blank_audio");
    reveal_strlit("silence");
    reveal_strlit("silent");
    reveal_strlit("no");
    reveal_strlit("speech");
    reveal_strlit("inaudible");
    reveal_strlit("music");
    reveal_strlit("noise");
    reveal_strlit("background");
    assert("blank_audio"@ =~= seq!['b', 'l', 'a', 'n', 'k', '_', 'a', 'u', 'd', 'i', 'o']);
    assert("silence"@ =~= seq!['s', 'i', 'l', 'e', 'n', 'c', 'e']);
    assert("silent"@ =~= seq!['s', 'i', 'l', 'e', 'n', 't']);
    assert("no"@ =~= seq!['n', 'o']);
    assert("speech"@ =~= seq!['s', 'p', 'e', 'e', 'c', 'h']);
    assert("inaudible"@ =~= seq!['i', 'n', 'a', 'u', 'd', 'i', 'b', 'l', 'e']);
    assert("music"@ =~= seq!['m', 'u', 's', 'i', 'c']);
    assert("noise"@ =~= seq!['n', 'o', 'i', 's', 'e']);
    assert("background"@ =~= seq!['b', 'a', 'c', 'k', 'g', 'r', 'o', 'u', 'n', 'd']);
    assert forall|c: char| c == '[' || c == ']' || c == '(' || c == ')' implies lacks(inner, c) by {
        assert(lacks("blank_audio"@, c) && lacks("silence"@, c) && lacks("silent"@, c));
        assert(lacks("no"@, c) && lacks("speech"@, c) && lacks("inaudible"@, c));
        assert(lacks("music"@, c) && lacks("noise"@, c) && lacks("background"@, c));
        lemma_words_lack(s, c);
        assert forall|i: int| 0 <= i < inner.len() implies #[trigger] inner[i] != c by {
            assert(s[i] == fold(inner[i]));
            assert(s[i] != c);
        }
    }
}

/// What no word holds, and is not white space, the text does not hold.
proof fn lemma_words_lack(s: Seq<char>, c: char)
    requires
        !white(c),
        forall|k: int| 0 <= k < words(s).len() ==> lacks(#[trigger] words(s)[k], c),
    ensures
        lacks(s, c),
    decreases s.len(),
{
    if s.len() > 0 {
        if white(s[0]) {
            let t = s.drop_first();
            assert(words(s) == words(t));
            lemma_words_lack(t, c);
            assert forall|i: int| 0 <= i < s.len() implies #[trigger] s[i] != c by {
                if i > 0 {
                    assert(s[i] == t[i - 1]);
                }
            }
        } else {
            lemma_word_len(s);
            let n = word_len(s) as int;
            let w = s.take(n);
            let t = s.skip(n);
            assert(words(s)[0] == w);
            assert forall|k: int| 0 <= k < words(t).len() implies lacks(#[trigger] words(t)[k], c) by {
                assert(words(s)[k + 1] == words(t)[k]);
            }
            lemma_words_lack(t, c);
            assert forall|i: int| 0 <= i < s.len() implies #[trigger] s[i] != c by {
                if i < n {
                    assert(s[i] == w[i]);
                } else {
                    assert(s[i] == t[i - n]);
                }
            }
        }
    }
}

/// A text starts with at most one marker.
proof fn lemma_marker_len(s: Seq<char>, n: int)
    requires
        0 < n <= s.len(),
        is_marker(s.take(n)),
    ensures
        opens_marker(s),
        marker_len(s) == n,
{
    let k = marker_len(s);
    assert(0 < k <= s.len() && is_marker(s.take(k)));
    let a = s.take(n);
    let b = s.take(k);
    assert(a[0] == s[0] && b[0] == s[0]);
    lemma_marker_inside(a.subrange(1, n - 1));
    lemma_marker_inside(b.subrange(1, k - 1));
    if n < k {
        assert(b.subrange(1, k - 1)[n - 2] == a.last());
    }
    if k < n {
        assert(a.subrange(1, n - 1)[k - 2] == b.last());
    }
}

/// Only a bracket opens a marker.
proof fn lemma_marker_bracket(s: Seq<char>)
    requires
        opens_marker(s),
    ensures
        s[0] == '[' || s[0] == '(',
        2 <= marker_len(s) <= s.len(),
        is_marker(s.take(marker_len(s))),
{
    assert(s.take(marker_len(s))[0] == s[0]);
}

/// The first marker of a text is replaced, and what follows is treated as a text of its own.
proof fn lemma_first_marker(a: Seq<char>, m: Seq<char>, b: Seq<char>, by: Seq<char>)
    requires
        lacks(a, '['),
        lacks(a, '('),
        is_marker(m),
    ensures
        markers_replaced(a + m + b, by) == a + by + markers_replaced(b, by),
    decreases a.len(),
{
    let s = a + m + b;
    if a.len() == 0 {
        assert(s.take(m.len() as int) =~= m);
        lemma_marker_len(s, m.len() as int);
        assert(s.skip(m.len() as int) =~= b);
        assert(a + by + markers_replaced(b, by) =~= by + markers_replaced(b, by));
    } else {
        let t = a.drop_first();
        assert(s[0] == a[0]);
        if opens_marker(s) {
            lemma_marker_bracket(s);
        }
        assert forall|i: int| 0 <= i < t.len() implies #[trigger] t[i] != '[' && t[i] != '(' by {
            assert(t[i] == a[i + 1]);
        }
        lemma_first_marker(t, m, b, by);
        assert(s.drop_first() =~= t + m + b);
        assert(seq![a[0]] + (t + by + markers_replaced(b, by)) =~= a + by + markers_replaced(
            b,
            by,
        ));
    }
}

/// A text without brackets stays as it is.
proof fn lemma_no_marker(s: Seq<char>, by: Seq<char>)
    requires
        lacks(s, '['),
        lacks(s, '('),
    ensures
        markers_replaced(s, by) == s,
    decreases s.len(),
{
    if s.len() > 0 {
        let t = s.drop_first();
        if opens_marker(s) {
            lemma_marker_bracket(s);
        }
        assert forall|i: int| 0 <= i < t.len() implies #[trigger] t[i] != '[' && t[i] != '(' by {
            assert(t[i] == s[i + 1]);
        }
        lemma_no_marker(t, by);
        assert(seq![s[0]] + t =~= s);
    }
}

/// No part of the text is a marker.
pub open spec fn holds_no_marker(s: Seq<char>) -> bool {
    forall|i: int, j: int| 0 <= i <= j <= s.len() ==> !is_marker(#[trigger] s.subrange(i, j))
}

/// A text without markers stays as it is.
proof fn lemma_markers_missing(s: Seq<char>, by: Seq<char>)
    requires
        holds_no_marker(s),
    ensures
        markers_replaced(s, by) == s,
    decreases s.len(),
{
    if s.len() > 0 {
        let t = s.drop_first();
        if opens_marker(s) {
            let n = marker_len(s);
            assert(s.take(n) =~= s.subrange(0, n));
        }
        assert forall|i: int, j: int| 0 <= i <= j <= t.len() implies !is_marker(
            #[trigger] t.subrange(i, j),
        ) by {
            assert(t.subrange(i, j) =~= s.subrange(i + 1, j + 1));
        }
        lemma_markers_missing(t, by);
        assert(seq![s[0]] + t =~= s);
    }
}

/// Of texts with markers between them each marker is replaced, and then what follows.
proof fn lemma_markers_between(
    pieces: Seq<Seq<char>>,
    markers: Seq<Seq<char>>,
    m: Seq<char>,
    rest: Seq<char>,
    by: Seq<char>,
)
    requires
        pieces_and_markers(pieces, markers),
        is_marker(m),
    ensures
        markers_replaced(interleaved(pieces, markers) + m + rest, by) == joined(pieces, by) + by
            + markers_replaced(rest, by),
    decreases markers.len(),
{
    if markers.len() == 0 {
        lemma_first_marker(pieces[0], m, rest, by);
    } else {
        let front = pieces.drop_last();
        let gaps = markers.drop_last();
        let piece = pieces.last();
        assert(pieces_and_markers(front, gaps)) by {
            assert forall|i: int| 0 <= i < front.len() implies lacks(#[trigger] front[i], '[')
                && lacks(front[i], '(') by {
                assert(front[i] == pieces[i]);
            }
            assert forall|i: int| 0 <= i < gaps.len() implies is_marker(#[trigger] gaps[i]) by {
                assert(gaps[i] == markers[i]);
            }
        }
        assert(is_marker(markers[markers.len() - 1]));
        assert(lacks(pieces[pieces.len() - 1], '['));
        lemma_markers_between(front, gaps, markers.last(), piece + m + rest, by);
        lemma_first_marker(piece, m, rest, by);
        let x = interleaved(front, gaps);
        assert(x + markers.last() + piece + m + rest =~= x + markers.last() + (piece + m + rest));
        let tail = markers_replaced(rest, by);
        assert(joined(front, by) + by + (piece + by + tail) =~= joined(front, by) + by + piece + by
            + tail);
    }
}

/// Of texts with markers between them each marker is replaced.
proof fn lemma_interleaved(pieces: Seq<Seq<char>>, markers: Seq<Seq<char>>, by: Seq<char>)
    requires
        pieces_and_markers(pieces, markers),
    ensures
        markers_replaced(interleaved(pieces, markers), by) == joined(pieces, by),
{
    assert(lacks(pieces[pieces.len() - 1], '['));
    lemma_no_marker(pieces.last(), by);
    if markers.len() > 0 {
        let front = pieces.drop_last();
        let gaps = markers.drop_last();
        assert(pieces_and_markers(front, gaps)) by {
            assert forall|i: int| 0 <= i < front.len() implies lacks(#[trigger] front[i], '[')
                && lacks(front[i], '(') by {
                assert(front[i] == pieces[i]);
            }
            assert forall|i: int| 0 <= i < gaps.len() implies is_marker(#[trigger] gaps[i]) by {
                assert(gaps[i] == markers[i]);
            }
        }
        assert(is_marker(markers[markers.len() - 1]));
        lemma_markers_between(front, gaps, markers.last(), pieces.last(), by);
    }
}

/// The words of several texts, one after the other.
pub open spec fn words_of_all(ls: Seq<Seq<char>>) -> Seq<Seq<char>>
    decreases ls.len(),
{
    if ls.len() == 0 {
        Seq::empty()
    } else {
        words_of_all(ls.drop_last()) + words(ls.last())
    }
}

/// The words of texts with spaces between them are the words of the texts.
proof fn lemma_words_of_pieces(pieces: Seq<Seq<char>>)
    requires
        pieces.len() > 0,
    ensures
        words(joined(pieces, seq![' '])) == words_of_all(pieces),
    decreases pieces.len(),
{
    let init = pieces.drop_last();
    if pieces.len() == 1 {
        assert(words_of_all(init) =~= Seq::<Seq<char>>::empty());
        assert(words_of_all(pieces) =~= words(pieces[0]));
    } else {
        lemma_words_of_pieces(init);
        lemma_words_split(joined(init, seq![' ']), ' ', pieces.last());
        assert(joined(pieces, seq![' ']) =~= joined(init, seq![' ']).push(' ') + pieces.last());
    }
}

/// A text begins with a word.
spec fn begins(s: Seq<char>) -> bool {
    s.len() > 0 && !white(s[0])
}

/// Two texts have the same words, and both of them begin with a word or neither does.
spec fn similar(s: Seq<char>, t: Seq<char>) -> bool {
    words(s) == words(t) && begins(s) == begins(t)
}

/// A text without white space in front of it begins with a word if it has one.
proof fn lemma_begins(s: Seq<char>)
    ensures
        words(trimmed_start(s)) == words(s),
        begins(trimmed_start(s)) == (words(s).len() > 0),
    decreases s.len(),
{
    lemma_words_trimmed_start(s);
    if s.len() > 0 && white(s[0]) {
        lemma_begins(s.drop_first());
    } else if s.len() > 0 {
        lemma_word_len(s);
        assert(words(s)[0] == s.take(word_len(s) as int));
    }
}

/// The words of a text behind a character that is not white space.
proof fn lemma_words_behind(c: char, s: Seq<char>)
    requires
        !white(c),
    ensures
        words(seq![c] + s) == (if begins(s) {
            seq![seq![c] + words(s)[0]] + words(s).drop_first()
        } else {
            seq![seq![c]] + words(s)
        }),
        begins(s) ==> words(s).len() > 0,
{
    let all = seq![c] + s;
    assert(all.drop_first() =~= s);
    lemma_word_len(all);
    lemma_word_len(s);
    let n = word_len(s) as int;
    assert(word_len(all) == 1 + n);
    assert(all.take(1 + n) =~= seq![c] + s.take(n));
    assert(all.skip(1 + n) =~= s.skip(n));
    if begins(s) {
        assert(words(s) == seq![s.take(n)] + words(s.skip(n)));
        assert(words(s).drop_first() =~= words(s.skip(n)));
    } else {
        assert(n == 0);
        assert(s.skip(0) =~= s);
        assert(seq![c] + s.take(0) =~= seq![c]);
    }
}

/// Two similar texts are similar behind the same character.
proof fn lemma_similar_behind(c: char, s: Seq<char>, t: Seq<char>)
    requires
        !white(c),
        similar(s, t),
    ensures
        similar(seq![c] + s, seq![c] + t),
{
    lemma_words_behind(c, s);
    lemma_words_behind(c, t);
}

/// Two similar texts that begin with words begin with the same character, and are similar behind
/// it.
proof fn lemma_similar_tails(s: Seq<char>, t: Seq<char>)
    requires
        similar(s, t),
        begins(s),
    ensures
        s[0] == t[0],
        similar(s.drop_first(), t.drop_first()),
{
    let x = s.drop_first();
    let y = t.drop_first();
    assert(seq![s[0]] + x =~= s);
    assert(seq![t[0]] + y =~= t);
    lemma_words_behind(s[0], x);
    lemma_words_behind(t[0], y);
    let w = words(s)[0];
    assert(w[0] == s[0] && w[0] == t[0]);
    crate::text::lemma_words_are_words(x);
    crate::text::lemma_words_are_words(y);
    if begins(x) {
        assert(crate::text::is_word(words(x)[0]));
        assert(w.len() > 1);
    }
    if begins(y) {
        assert(crate::text::is_word(words(y)[0]));
        assert(w.len() > 1);
    }
    assert(begins(x) == begins(y));
    if begins(x) {
        assert(words(x)[0] =~= w.drop_first());
        assert(words(y)[0] =~= w.drop_first());
        assert(words(x).drop_first() =~= words(s).drop_first());
        assert(words(y).drop_first() =~= words(t).drop_first());
        assert(words(x) =~= seq![words(x)[0]] + words(x).drop_first());
        assert(words(y) =~= seq![words(y)[0]] + words(y).drop_first());
    } else {
        assert(words(x) =~= words(s).drop_first());
        assert(words(y) =~= words(t).drop_first());
    }
}

/// A character that is not white space stands in a similar text at a place of its own: what is in
/// front of it and what is behind it are similar too.
proof fn lemma_similar_at(s: Seq<char>, t: Seq<char>, k: int) -> (m: int)
    requires
        similar(s, t),
        0 <= k < s.len(),
        !white(s[k]),
    ensures
        0 <= m < t.len(),
        t[m] == s[k],
        similar(s.take(k), t.take(m)),
        similar(s.skip(k + 1), t.skip(m + 1)),
    decreases s.len(),
{
    if begins(s) {
        lemma_similar_tails(s, t);
        let x = s.drop_first();
        let y = t.drop_first();
        if k == 0 {
            assert(s.skip(1) =~= x && t.skip(1) =~= y);
            assert(s.take(0) =~= t.take(0));
            0
        } else {
            let m = lemma_similar_at(x, y, k - 1);
            assert(s.take(k) =~= seq![s[0]] + x.take(k - 1));
            assert(t.take(m + 1) =~= seq![s[0]] + y.take(m));
            lemma_similar_behind(s[0], x.take(k - 1), y.take(m));
            assert(s.skip(k + 1) =~= x.skip(k));
            assert(t.skip(m + 2) =~= y.skip(m + 1));
            m + 1
        }
    } else {
        let x = trimmed_start(s);
        let y = trimmed_start(t);
        lemma_begins(s);
        lemma_begins(t);
        lemma_trimmed_start_is_suffix(s);
        lemma_trimmed_start_is_suffix(t);
        lemma_blank_front(s);
        lemma_blank_front(t);
        let a = s.len() - x.len();
        let b = t.len() - y.len();
        lemma_trimmed_start_shorter(s.drop_first());
        assert(a > 0);
        if k < a {
            assert(s.take(a)[k] == s[k]);
        }
        assert(x[k - a] == s[k]);
        lemma_words_lack_none(x, k - a);
        assert(begins(x) && begins(y));
        assert(b > 0);
        let m = lemma_similar_at(x, y, k - a);
        assert(s.take(k) =~= s.take(a) + x.take(k - a));
        assert(t.take(m + b) =~= t.take(b) + y.take(m));
        lemma_words_behind_blank(s.take(a), x.take(k - a));
        lemma_words_behind_blank(t.take(b), y.take(m));
        assert(s.skip(k + 1) =~= x.skip(k - a + 1));
        assert(t.skip(m + b + 1) =~= y.skip(m + 1));
        m + b
    }
}

/// What is left out in front of a trimmed text is white space.
proof fn lemma_blank_front(s: Seq<char>)
    ensures
        blank(s.take(s.len() - trimmed_start(s).len())),
    decreases s.len(),
{
    lemma_trimmed_start_shorter(s);
    if s.len() > 0 && white(s[0]) {
        let t = s.drop_first();
        lemma_blank_front(t);
        lemma_trimmed_start_shorter(t);
        let n = s.len() - trimmed_start(s).len();
        assert forall|i: int| 0 <= i < n implies white(#[trigger] s.take(n)[i]) by {
            if i > 0 {
                assert(t.take(n - 1)[i - 1] == s.take(n)[i]);
            }
        }
    }
}

/// White space in front of a text adds no word to it.
proof fn lemma_words_behind_blank(a: Seq<char>, s: Seq<char>)
    requires
        blank(a),
    ensures
        words(a + s) == words(s),
    decreases a.len(),
{
    if a.len() > 0 {
        let t = a.drop_first();
        assert forall|i: int| 0 <= i < t.len() implies white(#[trigger] t[i]) by {
            assert(t[i] == a[i + 1]);
        }
        lemma_words_behind_blank(t, s);
        assert(white(a[0]));
        assert((a + s)[0] == a[0]);
        assert((a + s).drop_first() =~= t + s);
    } else {
        assert(a + s =~= s);
    }
}

/// A text with a character that is not white space has a word.
proof fn lemma_words_lack_none(s: Seq<char>, k: int)
    requires
        0 <= k < s.len(),
        !white(s[k]),
    ensures
        words(s).len() > 0,
{
    if words(s).len() == 0 {
        lemma_words_lack(s, s[k]);
    }
}

/// The words of a text without its case are its words without their case.
proof fn lemma_words_folded(s: Seq<char>)
    ensures
        words(folded(s)) == Seq::new(words(s).len(), |i: int| folded(words(s)[i])),
    decreases s.len(),
{
    let f = folded(s);
    if s.len() > 0 {
        if white(s[0]) {
            assert(f.drop_first() =~= folded(s.drop_first()));
            lemma_words_folded(s.drop_first());
        } else {
            lemma_word_len(s);
            lemma_word_len_folded(s);
            let n = word_len(s) as int;
            assert(f.take(n) =~= folded(s.take(n)));
            assert(f.skip(n) =~= folded(s.skip(n)));
            lemma_words_folded(s.skip(n));
            assert(words(f) =~= Seq::new(words(s).len(), |i: int| folded(words(s)[i])));
        }
    } else {
        assert(words(f) =~= Seq::new(words(s).len(), |i: int| folded(words(s)[i])));
    }
}

proof fn lemma_word_len_folded(s: Seq<char>)
    ensures
        word_len(folded(s)) == word_len(s),
    decreases s.len(),
{
    if s.len() > 0 && !white(s[0]) {
        assert(folded(s).drop_first() =~= folded(s.drop_first()));
        lemma_word_len_folded(s.drop_first());
    }
}

/// A text that is similar to one with a marker at its start has a marker at its start too, and what
/// follows the markers is similar.
proof fn lemma_similar_marker(s: Seq<char>, t: Seq<char>)
    requires
        similar(s, t),
        opens_marker(s),
    ensures
        opens_marker(t),
        0 < marker_len(s) <= s.len(),
        0 < marker_len(t) <= t.len(),
        similar(s.skip(marker_len(s)), t.skip(marker_len(t))),
{
    lemma_marker_bracket(s);
    let n = marker_len(s);
    let head = s.take(n);
    assert(head[0] == s[0] && head.last() == s[n - 1]);
    lemma_similar_tails(s, t);
    let x = s.drop_first();
    let y = t.drop_first();
    assert(x[n - 2] == s[n - 1]);
    let m = lemma_similar_at(x, y, n - 2);
    let other = t.take(m + 2);
    assert(other[0] == t[0] && other.last() == y[m]);
    assert(head.subrange(1, n - 1) =~= x.take(n - 2));
    assert(other.subrange(1, m + 1) =~= y.take(m));
    lemma_words_folded(x.take(n - 2));
    lemma_words_folded(y.take(m));
    assert(is_marker(other));
    lemma_marker_len(t, m + 2);
    assert(s.skip(n) =~= x.skip(n - 1));
    assert(t.skip(m + 2) =~= y.skip(m + 1));
}

/// White space in front of a text changes nothing about the words that are left of it.
proof fn lemma_replaced_behind_blank(s: Seq<char>)
    ensures
        words(markers_replaced(trimmed_start(s), seq![' '])) == words(
            markers_replaced(s, seq![' ']),
        ),
        begins(markers_replaced(s, seq![' '])) ==> begins(s),
    decreases s.len(),
{
    if s.len() > 0 {
        if opens_marker(s) {
            lemma_marker_bracket(s);
        }
        let rest = markers_replaced(s.drop_first(), seq![' ']);
        if white(s[0]) {
            lemma_replaced_behind_blank(s.drop_first());
            assert((seq![s[0]] + rest).drop_first() =~= rest);
        }
    }
}

/// Of similar texts similar ones are left.
proof fn lemma_similar_replaced(s: Seq<char>, t: Seq<char>)
    requires
        similar(s, t),
    ensures
        similar(markers_replaced(s, seq![' ']), markers_replaced(t, seq![' '])),
    decreases s.len(),
{
    let by = seq![' '];
    if begins(s) {
        lemma_similar_tails(s, t);
        if opens_marker(s) {
            lemma_similar_marker(s, t);
            let a = s.skip(marker_len(s));
            let b = t.skip(marker_len(t));
            lemma_similar_replaced(a, b);
            assert(blank(by));
            lemma_words_behind_blank(by, markers_replaced(a, by));
            lemma_words_behind_blank(by, markers_replaced(b, by));
        } else {
            if opens_marker(t) {
                lemma_similar_marker(t, s);
            }
            lemma_similar_replaced(s.drop_first(), t.drop_first());
            lemma_similar_behind(
                s[0],
                markers_replaced(s.drop_first(), by),
                markers_replaced(t.drop_first(), by),
            );
        }
    } else {
        lemma_begins(s);
        lemma_begins(t);
        lemma_replaced_behind_blank(s);
        lemma_replaced_behind_blank(t);
        if s.len() > 0 {
            lemma_trimmed_start_shorter(s.drop_first());
            lemma_similar_replaced(trimmed_start(s), trimmed_start(t));
        } else if words(t).len() == 0 {
            assert(trimmed_start(t).len() == 0) by {
                lemma_begins(t);
                lemma_trimmed_empty(t);
            }
        }
    }
}

proof fn lemma_trimmed_empty(s: Seq<char>)
    requires
        words(s).len() == 0,
    ensures
        trimmed_start(s).len() == 0,
    decreases s.len(),
{
    if s.len() > 0 && white(s[0]) {
        lemma_trimmed_empty(s.drop_first());
    }
}

/// Law: white space does not matter to the markers. Of texts with the same words the same is left,
/// also where a line ends inside a marker.
pub proof fn law_white_space_does_not_matter(s: Seq<char>, t: Seq<char>)
    requires
        words(s) == words(t),
    ensures
        without_markers(s) == without_markers(t),
{
    lemma_begins(s);
    lemma_begins(t);
    lemma_replaced_behind_blank(s);
    lemma_replaced_behind_blank(t);
    lemma_similar_replaced(trimmed_start(s), trimmed_start(t));
}

/// A text without the markers for what is not speech, tidied. One that holds none is only tidied.
/// Where its brackets are those of markers, what is left are the words between the markers. The words in front of the first marker
/// stay in any case.
pub fn strip_non_speech_markers(text: &str) -> (r: String)
    ensures
        r@ == without_markers(text@),
        holds_no_marker(text@) ==> r@ == tidied(text@),
        forall|pieces: Seq<Seq<char>>, markers: Seq<Seq<char>>|
            #![trigger interleaved(pieces, markers)]
            text@ == interleaved(pieces, markers) && pieces_and_markers(pieces, markers) ==> r@
                == joined(words_of_all(pieces), seq![' ']) && words(r@) == words_of_all(pieces),
        forall|a: Seq<char>, m: Seq<char>, b: Seq<char>|
            #![trigger a + m + b]
            text@ == a + m + b && lacks(a, '[') && lacks(a, '(') && is_marker(m) ==> words(r@)
                == words(a) + words(without_markers(b)),
{
    proof {
        reveal_strlit(" ");
    }
    let stripped = replace_all(MARKER_PATTERN, text, " ");
    proof {
        assert(" "@ =~= seq![' ']);
        law_tidying_keeps_the_words(stripped@);
        if holds_no_marker(text@) {
            lemma_markers_missing(text@, seq![' ']);
        }
        assert forall|pieces: Seq<Seq<char>>, markers: Seq<Seq<char>>|
            #![trigger interleaved(pieces, markers)]
            text@ == interleaved(pieces, markers) && pieces_and_markers(
                pieces,
                markers,
            ) implies words(stripped@) == words_of_all(pieces) by {
            lemma_interleaved(pieces, markers, seq![' ']);
            lemma_words_of_pieces(pieces);
        }
        assert forall|a: Seq<char>, m: Seq<char>, b: Seq<char>|
            #![trigger a + m + b]
            text@ == a + m + b && lacks(a, '[') && lacks(a, '(') && is_marker(m) implies words(
            tidied(stripped@),
        ) == words(a) + words(without_markers(b)) by {
            let rest = markers_replaced(b, seq![' ']);
            lemma_first_marker(a, m, b, seq![' ']);
            lemma_words_split(a, ' ', rest);
            assert(a + seq![' '] + rest =~= a.push(' ') + rest);
            law_tidying_keeps_the_words(rest);
        }
    }
    tidy(stripped.as_str())
}

/// A text without timestamps stays as it is.
proof fn lemma_no_stamp(s: Seq<char>, by: Seq<char>)
    requires
        holds_no_timestamp(s),
    ensures
        stamped_in_ascii(s),
        stamps_replaced(s, by) == s,
    decreases s.len(),
{
    if s.len() > 0 {
        let t = s.drop_first();
        if opens_stamp(s) {
            let n = stamp_len(s);
            assert(s.take(n) =~= s.subrange(0, n));
            lemma_ascii_stamp_counts(s.take(n));
        }
        assert forall|i: int, j: int| 0 <= i <= j <= t.len() implies !is_stamp(
            #[trigger] t.subrange(i, j),
            true,
        ) by {
            assert(t.subrange(i, j) =~= s.subrange(i + 1, j + 1));
        }
        lemma_no_stamp(t, by);
        assert(seq![s[0]] + t =~= s);
    }
}

/// A timestamp whose digits are ASCII is one.
proof fn lemma_ascii_stamp_counts(s: Seq<char>)
    requires
        is_stamp(s, false),
    ensures
        is_stamp(s, true),
{
    let (from, before, after, to) = choose|
        from: Seq<char>,
        before: Seq<char>,
        after: Seq<char>,
        to: Seq<char>,
    |
        s == #[trigger] stamp_of(from, before, after, to) && time_like(from, false) && time_like(
            to,
            false,
        ) && blank(before) && blank(after);
    assert(s == stamp_of(from, before, after, to) && time_like(from, true) && time_like(to, true));
}

/// Where a square bracket is followed by an ASCII character that is not a digit, none opens a
/// timestamp.
proof fn lemma_opens_none_holds_none(s: Seq<char>)
    requires
        opens_no_timestamp(s),
    ensures
        holds_no_timestamp(s),
{
    assert forall|i: int, j: int| 0 <= i <= j <= s.len() implies !is_stamp(
        #[trigger] s.subrange(i, j),
        true,
    ) by {
        let x = s.subrange(i, j);
        if is_stamp(x, true) {
            let (from, before, after, to) = choose|
                from: Seq<char>,
                before: Seq<char>,
                after: Seq<char>,
                to: Seq<char>,
            |
                x == #[trigger] stamp_of(from, before, after, to) && time_like(from, true)
                    && time_like(to, true) && blank(before) && blank(after);
            assert(x.len() == j - i && x.len() == 29 + before.len() + after.len());
            assert(x[0] == '[' && x[1] == from[0]);
            assert(s[i] == '[' && s[i + 1] == from[0]);
        }
    }
}

/// In a text of ASCII characters the digits of timestamps are ASCII.
proof fn lemma_ascii_stamps(s: Seq<char>)
    requires
        ascii(s),
    ensures
        stamped_in_ascii(s),
{
    assert forall|i: int, j: int|
        0 <= i <= j <= s.len() && is_stamp(#[trigger] s.subrange(i, j), true) implies is_stamp(
        s.subrange(i, j),
        false,
    ) by {
        let x = s.subrange(i, j);
        let (from, before, after, to) = choose|
            from: Seq<char>,
            before: Seq<char>,
            after: Seq<char>,
            to: Seq<char>,
        |
            x == #[trigger] stamp_of(from, before, after, to) && time_like(from, true) && time_like(
                to,
                true,
            ) && blank(before) && blank(after);
        let at = 16 + before.len() + after.len();
        assert(x.len() == j - i && x.len() == at + 13);
        assert forall|k: int| 0 <= k < 12 implies (#[trigger] from[k] as u32) < 128 by {
            assert(x[1 + k] == from[k]);
            assert(s[i + 1 + k] == x[1 + k]);
        }
        assert forall|k: int| 0 <= k < 12 implies (#[trigger] to[k] as u32) < 128 by {
            assert(x[at + k] == to[k]);
            assert(s[i + at + k] == x[at + k]);
        }
        assert(time_like(from, false) && time_like(to, false));
    }
}

/// A line without its timestamps.
pub open spec fn unstamped(line: Seq<char>) -> Seq<char> {
    stamps_replaced(line, Seq::empty())
}

/// A line without its timestamps and the white space behind each. One that has none stays as it is.
pub fn strip_timestamps(line: &str) -> (r: String)
    ensures
        r@ == replaced(TIMESTAMP_PATTERN@, line@, ""@),
        stamped_in_ascii(line@) ==> r@ == unstamped(line@),
        ascii(line@) ==> r@ == unstamped(line@),
        holds_no_timestamp(line@) ==> r@ == line@,
        opens_no_timestamp(line@) ==> r@ == line@,
        forall|a: Seq<char>, from: Seq<char>, to: Seq<char>, b: Seq<char>|
            #![trigger a + timestamp(from, to) + b]
            line@ == a + timestamp(from, to) + b && opens_no_timestamp(a) && is_time(from)
                && is_time(to) ==> {
                &&& r@ == a + replaced(TIMESTAMP_PATTERN@, trimmed_start(b), ""@)
                &&& opens_no_timestamp(b) ==> r@ == a + trimmed_start(b)
            },
{
    proof {
        reveal_strlit("");
        assert(""@ =~= Seq::<char>::empty());
        assert forall|a: Seq<char>| #[trigger] (a + ""@) == a by {
            assert(a + ""@ =~= a);
        }
        if opens_no_timestamp(line@) {
            lemma_opens_none_holds_none(line@);
        }
        if holds_no_timestamp(line@) {
            lemma_no_stamp(line@, Seq::empty());
        }
        if ascii(line@) {
            lemma_ascii_stamps(line@);
        }
    }
    replace_all(TIMESTAMP_PATTERN, line, "")
}

/// The length of the text before the first line feed.
pub open spec fn line_len(s: Seq<char>) -> nat
    decreases s.len(),
{
    if s.len() > 0 && s[0] != '\n' {
        1 + line_len(s.drop_first())
    } else {
        0
    }
}

/// A line without the carriage return in front of its line feed.
pub open spec fn without_return(line: Seq<char>) -> Seq<char> {
    if line.len() > 0 && line.last() == '\r' {
        line.drop_last()
    } else {
        line
    }
}

pub proof fn lemma_line_len(s: Seq<char>)
    ensures
        line_len(s) <= s.len(),
        line_len(s) < s.len() ==> s[line_len(s) as int] == '\n',
        forall|i: int| 0 <= i < line_len(s) ==> s[i] != '\n',
    decreases s.len(),
{
    if s.len() > 0 && s[0] != '\n' {
        let t = s.drop_first();
        lemma_line_len(t);
        assert forall|i: int| 0 <= i < line_len(s) implies s[i] != '\n' by {
            if i > 0 {
                assert(s[i] == t[i - 1]);
            }
        }
        if line_len(s) < s.len() {
            assert(s[line_len(s) as int] == t[line_len(t) as int]);
        }
    }
}

/// The lines of a text: a line feed ends one, with the carriage return in front of it.
pub open spec fn lines(s: Seq<char>) -> Seq<Seq<char>>
    decreases s.len(),
{
    if s.len() == 0 {
        Seq::empty()
    } else {
        proof {
            lemma_line_len(s);
        }
        let n = line_len(s) as int;
        if n < s.len() {
            seq![without_return(s.take(n))] + lines(s.skip(n + 1))
        } else {
            seq![s]
        }
    }
}

/// The lines of a text: a line feed ends one, with the carriage return in front of it.
pub fn lines_of(s: &str) -> (r: Vec<String>)
    ensures
        views(r@) == lines(s@),
{
    let chars = chars_of(s);
    let mut out: Vec<String> = Vec::new();
    let mut from: usize = 0;
    let ghost all = lines(s@);
    proof {
        assert(s@.skip(0) == s@);
        assert(views(out@) + all == all);
    }
    while from < chars.len()
        invariant
            chars@ == s@,
            from <= chars.len(),
            all == views(out@) + lines(s@.skip(from as int)),
        decreases chars.len() - from,
    {
        let ghost rest = s@.skip(from as int);
        let mut line = String::new();
        let mut to: usize = from;
        proof {
            lemma_line_len(rest);
            assert(line@ =~= s@.subrange(from as int, from as int));
        }
        while to < chars.len() && chars[to] != '\n'
            invariant
                chars@ == s@,
                from <= to <= chars.len(),
                rest == s@.skip(from as int),
                to - from <= line_len(rest) <= rest.len(),
                line_len(rest) < rest.len() ==> rest[line_len(rest) as int] == '\n',
                forall|i: int| 0 <= i < line_len(rest) ==> rest[i] != '\n',
                line@ == s@.subrange(from as int, to as int),
            decreases chars.len() - to,
        {
            assert(rest[to - from] == s@[to as int]);
            line.push(chars[to]);
            assert(s@.subrange(from as int, to + 1) == s@.subrange(from as int, to as int).push(
                s@[to as int],
            ));
            to += 1;
        }
        let ghost n = line_len(rest) as int;
        assert(to < chars.len() ==> rest[to - from] == s@[to as int]);
        assert(to - from == n);
        assert(line@ == rest.take(n));
        let ghost had = views(out@);
        if to < chars.len() {
            if to > from && chars[to - 1] == '\r' {
                assert(rest.take(n).last() == s@[to - 1]);
                let kept = line.as_str().substring_char(0, to - from - 1).to_owned();
                assert(kept@ == rest.take(n).drop_last());
                out.push(kept);
            } else {
                assert(n > 0 ==> rest.take(n).last() == s@[to - 1]);
                out.push(line);
            }
            proof {
                assert(views(out@) == had + seq![without_return(rest.take(n))]);
                assert(rest.skip(n + 1) == s@.skip(to + 1));
                assert(had + (seq![without_return(rest.take(n))] + lines(s@.skip(to + 1)))
                    == views(out@) + lines(s@.skip(to + 1)));
            }
            from = to + 1;
        } else {
            out.push(line);
            proof {
                assert(rest.take(n) == rest);
                assert(views(out@) == had + seq![rest]);
                assert(s@.skip(to as int) =~= Seq::<char>::empty());
                assert(had + seq![rest] == views(out@) + lines(s@.skip(to as int)));
            }
            from = to;
        }
    }
    proof {
        assert(s@.skip(from as int) =~= Seq::<char>::empty());
        assert(views(out@) + Seq::<Seq<char>>::empty() == views(out@));
    }
    out
}

/// Lines as one text: each trimmed, the blank ones left out, a space between.
pub open spec fn one_line(ls: Seq<Seq<char>>) -> Seq<char>
    decreases ls.len(),
{
    if ls.len() == 0 {
        Seq::empty()
    } else {
        let front = one_line(ls.drop_last());
        let last = trimmed(ls.last());
        if last.len() == 0 {
            front
        } else if front.len() == 0 {
            last
        } else {
            front + seq![' '] + last
        }
    }
}

/// Appends a line: trimmed, after a space, and nothing where it is blank.
fn append_line(cleaned: String, line: &str) -> (r: String)
    ensures
        r@ == ({
            let last = trimmed(line@);
            if last.len() == 0 {
                cleaned@
            } else if cleaned@.len() == 0 {
                last
            } else {
                cleaned@ + seq![' '] + last
            }
        }),
{
    let mut out = cleaned;
    let last = trim(line);
    if !last.is_empty() {
        if !out.as_str().is_empty() {
            out.push(' ');
            assert(out@ == cleaned@ + seq![' ']);
        } else {
            assert(out@ + last@ =~= last@);
        }
        out.append(last);
    }
    out
}

/// Lines as one text: each trimmed, the blank ones left out, a space between.
pub fn join_lines(ls: &Vec<String>) -> (r: String)
    ensures
        r@ == one_line(views(ls@)),
{
    let mut cleaned = String::new();
    let mut i: usize = 0;
    let ghost all = views(ls@);
    assert(all.take(0) =~= Seq::<Seq<char>>::empty());
    while i < ls.len()
        invariant
            i <= ls.len(),
            all == views(ls@),
            cleaned@ == one_line(all.take(i as int)),
        decreases ls.len() - i,
    {
        proof {
            assert(all.take(i + 1).drop_last() == all.take(i as int));
            assert(all.take(i + 1).last() == ls@[i as int]@);
        }
        cleaned = append_line(cleaned, ls[i].as_str());
        i += 1;
    }
    assert(all.take(i as int) == all);
    cleaned
}

/// Lines without their timestamps.
pub open spec fn without_timestamps(ls: Seq<Seq<char>>) -> Seq<Seq<char>> {
    Seq::new(ls.len(), |i: int| replaced(TIMESTAMP_PATTERN@, ls[i], ""@))
}

/// A line that starts with a timestamp and goes on with a text that holds none.
pub open spec fn stamped(line: Seq<char>, text: Seq<char>) -> bool {
    opens_no_timestamp(text) && exists|from: Seq<char>, to: Seq<char>|
        is_time(from) && is_time(to) && line == #[trigger] timestamp(from, to) + text
}

/// Lines that start with timestamps and go on with texts that hold none.
pub open spec fn all_stamped(ls: Seq<Seq<char>>, texts: Seq<Seq<char>>) -> bool {
    ls.len() == texts.len() && forall|i: int|
        0 <= i < ls.len() ==> stamped(#[trigger] ls[i], texts[i])
}

/// In all lines the digits of timestamps are ASCII.
pub open spec fn all_stamped_in_ascii(ls: Seq<Seq<char>>) -> bool {
    forall|i: int| 0 <= i < ls.len() ==> stamped_in_ascii(#[trigger] ls[i])
}

/// No line holds a timestamp.
pub open spec fn none_stamped(ls: Seq<Seq<char>>) -> bool {
    forall|i: int| 0 <= i < ls.len() ==> holds_no_timestamp(#[trigger] ls[i])
}

/// Lines without their timestamps.
pub open spec fn all_unstamped(ls: Seq<Seq<char>>) -> Seq<Seq<char>> {
    Seq::new(ls.len(), |i: int| unstamped(ls[i]))
}

/// Texts without their leading white space.
spec fn all_trimmed_start(texts: Seq<Seq<char>>) -> Seq<Seq<char>> {
    Seq::new(texts.len(), |i: int| trimmed_start(texts[i]))
}

fn remove_timestamps(ls: &Vec<String>) -> (r: Vec<String>)
    ensures
        views(r@) == without_timestamps(views(ls@)),
        all_stamped_in_ascii(views(ls@)) ==> views(r@) == all_unstamped(views(ls@)),
        none_stamped(views(ls@)) ==> views(r@) == views(ls@),
        forall|texts: Seq<Seq<char>>| #[trigger]
            all_stamped(views(ls@), texts) ==> views(r@) == all_trimmed_start(texts),
{
    let mut out: Vec<String> = Vec::new();
    let mut i: usize = 0;
    while i < ls.len()
        invariant
            i <= ls.len(),
            out@.len() == i,
            forall|k: int|
                0 <= k < i ==> (#[trigger] out@[k])@ == replaced(
                    TIMESTAMP_PATTERN@,
                    ls@[k]@,
                    ""@,
                ),
            forall|k: int|
                0 <= k < i && stamped_in_ascii(ls@[k]@) ==> (#[trigger] out@[k])@ == unstamped(
                    ls@[k]@,
                ),
            forall|k: int|
                0 <= k < i && holds_no_timestamp(ls@[k]@) ==> (#[trigger] out@[k])@ == ls@[k]@,
            forall|k: int, text: Seq<char>|
                0 <= k < i && #[trigger] stamped(ls@[k]@, text) ==> out@[k]@ == trimmed_start(text),
        decreases ls.len() - i,
    {
        let line = strip_timestamps(ls[i].as_str());
        proof {
            let empty = Seq::<char>::empty();
            assert forall|text: Seq<char>| #[trigger]
                stamped(ls@[i as int]@, text) implies line@ == trimmed_start(text) by {
                let (from, to) = choose|from: Seq<char>, to: Seq<char>|
                    is_time(from) && is_time(to) && ls@[i as int]@ == #[trigger] timestamp(from, to)
                        + text;
                assert(empty + timestamp(from, to) + text =~= timestamp(from, to) + text);
                assert(empty + trimmed_start(text) =~= trimmed_start(text));
            }
        }
        out.push(line);
        i += 1;
    }
    assert(views(out@) =~= without_timestamps(views(ls@)));
    proof {
        if all_stamped_in_ascii(views(ls@)) {
            assert forall|k: int| 0 <= k < out@.len() implies (#[trigger] out@[k])@ == unstamped(
                ls@[k]@,
            ) by {
                assert(stamped_in_ascii(views(ls@)[k]));
            }
            assert(views(out@) =~= all_unstamped(views(ls@)));
        }
        if none_stamped(views(ls@)) {
            assert forall|k: int| 0 <= k < out@.len() implies (#[trigger] out@[k])@ == ls@[k]@ by {
                assert(holds_no_timestamp(views(ls@)[k]));
            }
            assert(views(out@) =~= views(ls@));
        }
        assert forall|texts: Seq<Seq<char>>| #[trigger]
            all_stamped(views(ls@), texts) implies views(out@) == all_trimmed_start(texts) by {
            assert forall|k: int| 0 <= k < out@.len() implies views(out@)[k]
                == all_trimmed_start(texts)[k] by {
                assert(stamped(views(ls@)[k], texts[k]));
            }
            assert(views(out@) =~= all_trimmed_start(texts));
        }
    }
    out
}

proof fn lemma_one_line_trims(texts: Seq<Seq<char>>)
    ensures
        one_line(all_trimmed_start(texts)) == one_line(texts),
    decreases texts.len(),
{
    if texts.len() > 0 {
        let inner = all_trimmed_start(texts);
        lemma_one_line_trims(texts.drop_last());
        assert(inner.drop_last() =~= all_trimmed_start(texts.drop_last()));
        lemma_trimmed_start_twice(texts.last());
    }
}

proof fn lemma_trimmed_start_twice(s: Seq<char>)
    ensures
        trimmed_start(trimmed_start(s)) == trimmed_start(s),
    decreases s.len(),
{
    if s.len() > 0 && white(s[0]) {
        lemma_trimmed_start_twice(s.drop_first());
    }
}

/// Output of whisper.cpp without its timestamps and its line breaks. Of lines that each start with
/// a timestamp, the texts are left; lines without timestamps are left as they are.
pub fn plain_text(raw: &str) -> (r: String)
    ensures
        r@ == cpp_text(raw@),
        all_stamped_in_ascii(lines(raw@)) ==> r@ == one_line(all_unstamped(lines(raw@))),
        none_stamped(lines(raw@)) ==> r@ == one_line(lines(raw@)),
        forall|texts: Seq<Seq<char>>| #[trigger]
            all_stamped(lines(raw@), texts) ==> r@ == one_line(texts),
{
    let ls = lines_of(raw);
    let stripped = remove_timestamps(&ls);
    proof {
        assert forall|texts: Seq<Seq<char>>| #[trigger]
            all_stamped(lines(raw@), texts) implies one_line(views(stripped@)) == one_line(
            texts,
        ) by {
            lemma_one_line_trims(texts);
        }
    }
    join_lines(&stripped)
}

/// Trait for normalizing transcription output from various whisper implementations
pub trait TranscriptionNormalizer {
    /// What becomes of raw output.
    spec fn normalized(&self, raw: Seq<char>) -> Seq<char>;

    /// The name of this normalizer.
    spec fn title(&self) -> Seq<char>;

    /// Normalize the raw transcription output
    fn normalize(&self, raw_output: &str) -> (r: String)
        ensures
            r@ == self.normalized(raw_output@),
    ;

    /// Get the name of this normalizer for logging
    fn name(&self) -> (r: &'static str)
        ensures
            r@ == self.title(),
    ;
}

/// A normalizer's pattern is not valid.
#[derive(Clone, Copy, Debug, PartialEq, Eq, Structural)]
pub struct InvalidPattern;

/// Normalizer for whisper.cpp output format
pub struct WhisperCppNormalizer;

/// Normalizer for OpenAI Whisper output format
pub struct OpenAIWhisperNormalizer;

impl WhisperCppNormalizer {
    pub fn new() -> (r: Result<Self, InvalidPattern>)
        ensures
            r is Ok,
    {
        Ok(WhisperCppNormalizer)
    }
}

/// Output of whisper.cpp without its timestamps and its line breaks.
pub open spec fn cpp_text(raw: Seq<char>) -> Seq<char> {
    one_line(without_timestamps(lines(raw)))
}

impl TranscriptionNormalizer for WhisperCppNormalizer {
    open spec fn normalized(&self, raw: Seq<char>) -> Seq<char> {
        without_markers(cpp_text(raw))
    }

    open spec fn title(&self) -> Seq<char> {
        "WhisperCppNormalizer"@
    }

    /// Of lines that each start with a timestamp, and in which the other brackets are those of
    /// markers, exactly the words between are left. Of lines without timestamps only the markers
    /// go.
    fn normalize(&self, raw_output: &str) -> (r: String)
        ensures
            all_stamped_in_ascii(lines(raw_output@)) ==> r@ == without_markers(
                one_line(all_unstamped(lines(raw_output@))),
            ),
            none_stamped(lines(raw_output@)) ==> r@ == without_markers(raw_output@),
            forall|texts: Seq<Seq<char>>, pieces: Seq<Seq<char>>, markers: Seq<Seq<char>>|
                #![trigger all_stamped(lines(raw_output@), texts), interleaved(pieces, markers)]
                all_stamped(lines(raw_output@), texts) && one_line(texts) == interleaved(
                    pieces,
                    markers,
                ) && pieces_and_markers(pieces, markers) ==> words(r@) == words_of_all(pieces),
    {
        let cleaned = plain_text(raw_output);
        proof {
            if none_stamped(lines(raw_output@)) {
                law_joining_lines_keeps_the_words(lines(raw_output@));
                lemma_words_of_lines(raw_output@);
                law_white_space_does_not_matter(cleaned@, raw_output@);
            }
        }
        strip_non_speech_markers(cleaned.as_str())
    }

    fn name(&self) -> (r: &'static str) {
        "WhisperCppNormalizer"
    }
}

impl Default for OpenAIWhisperNormalizer {
    fn default() -> (r: Self)
        ensures
            r == OpenAIWhisperNormalizer,
    {
        OpenAIWhisperNormalizer
    }
}

impl OpenAIWhisperNormalizer {
    pub fn new() -> (r: Self)
        ensures
            r == OpenAIWhisperNormalizer,
    {
        OpenAIWhisperNormalizer
    }
}

impl TranscriptionNormalizer for OpenAIWhisperNormalizer {
    open spec fn normalized(&self, raw: Seq<char>) -> Seq<char> {
        without_markers(raw)
    }

    open spec fn title(&self) -> Seq<char> {
        "OpenAIWhisperNormalizer"@
    }

    /// Of a text in which the brackets are those of markers, exactly the words between are left.
    fn normalize(&self, raw_output: &str) -> (r: String)
        ensures
            forall|pieces: Seq<Seq<char>>, markers: Seq<Seq<char>>|
                #![trigger interleaved(pieces, markers)]
                raw_output@ == interleaved(pieces, markers) && pieces_and_markers(pieces, markers)
                    ==> words(r@) == words_of_all(pieces),
    {
        strip_non_speech_markers(raw_output)
    }

    fn name(&self) -> (r: &'static str) {
        "OpenAIWhisperNormalizer"
    }
}

/// Enum to hold different normalizer types
pub enum Normalizer {
    WhisperCpp(WhisperCppNormalizer),
    OpenAIWhisper(OpenAIWhisperNormalizer),
}

impl Normalizer {
    /// What becomes of raw output.
    pub open spec fn cleaned(&self, raw: Seq<char>) -> Seq<char> {
        match self {
            Normalizer::WhisperCpp(n) => n.normalized(raw),
            Normalizer::OpenAIWhisper(n) => n.normalized(raw),
        }
    }

    /// Create a normalizer based on whether this is OpenAI whisper or whisper.cpp
    pub fn create(is_openai_whisper: bool) -> (r: Result<Self, InvalidPattern>)
        ensures
            r matches Ok(n) && n is OpenAIWhisper == is_openai_whisper,
    {
        if is_openai_whisper {
            Ok(Normalizer::OpenAIWhisper(OpenAIWhisperNormalizer::new()))
        } else {
            match WhisperCppNormalizer::new() {
                Ok(n) => Ok(Normalizer::WhisperCpp(n)),
                Err(error) => Err(error),
            }
        }
    }

    /// Run normalization using the appropriate normalizer
    pub fn run(&self, raw_output: &str) -> (r: String)
        ensures
            r@ == self.cleaned(raw_output@),
            self is OpenAIWhisper || none_stamped(lines(raw_output@)) ==> r@ == without_markers(
                raw_output@,
            ),
            self is WhisperCpp && all_stamped_in_ascii(lines(raw_output@)) ==> r@
                == without_markers(one_line(all_unstamped(lines(raw_output@)))),
    {
        match self {
            Normalizer::WhisperCpp(n) => n.normalize(raw_output),
            Normalizer::OpenAIWhisper(n) => n.normalize(raw_output),
        }
    }
}

/// Law: a tidied text neither begins nor ends with white space, and its words are those of the
/// text. So nothing but white space is lost.
pub proof fn law_tidying_keeps_the_words(s: Seq<char>)
    ensures
        words(tidied(s)) == words(s),
        tidied(s).len() > 0 ==> !white(tidied(s)[0]) && !white(tidied(s).last()),
        tidied(tidied(s)) == tidied(s),
{
    crate::text::lemma_words_are_words(s);
    crate::text::lemma_words_of_joined(words(s));
    if words(s).len() > 0 {
        lemma_joined_ends(words(s));
    }
}

/// Law: putting lines on one line keeps all of their words, in order.
pub proof fn law_joining_lines_keeps_the_words(ls: Seq<Seq<char>>)
    ensures
        words(one_line(ls)) == words_of_all(ls),
    decreases ls.len(),
{
    if ls.len() > 0 {
        law_joining_lines_keeps_the_words(ls.drop_last());
        let front = one_line(ls.drop_last());
        let last = trimmed(ls.last());
        lemma_words_trimmed(ls.last());
        if last.len() == 0 {
            assert(words(last) =~= Seq::<Seq<char>>::empty());
            assert(words(front) + words(last) =~= words(front));
        } else if front.len() == 0 {
            assert(words(front) =~= Seq::<Seq<char>>::empty());
            assert(words(front) + words(last) =~= words(last));
        } else {
            lemma_words_split(front, ' ', last);
            assert(front + seq![' '] + last =~= front.push(' ') + last);
        }
    }
}

proof fn lemma_words_of_front(first: Seq<char>, rest: Seq<Seq<char>>)
    ensures
        words_of_all(seq![first] + rest) == words(first) + words_of_all(rest),
    decreases rest.len(),
{
    let all = seq![first] + rest;
    if rest.len() == 0 {
        assert(all.drop_last() =~= Seq::<Seq<char>>::empty());
        assert(words_of_all(all.drop_last()) + words(first) =~= words(first) + words_of_all(rest));
    } else {
        assert(all.drop_last() =~= seq![first] + rest.drop_last());
        lemma_words_of_front(first, rest.drop_last());
        assert(words(first) + words_of_all(rest.drop_last()) + words(rest.last()) =~= words(first)
            + (words_of_all(rest.drop_last()) + words(rest.last())));
    }
}

/// The lines of a text have its words.
proof fn lemma_words_of_lines(s: Seq<char>)
    ensures
        words_of_all(lines(s)) == words(s),
    decreases s.len(),
{
    if s.len() > 0 {
        lemma_line_len(s);
        let n = line_len(s) as int;
        if n < s.len() {
            let line = s.take(n);
            let rest = s.skip(n + 1);
            lemma_words_of_lines(rest);
            lemma_words_of_front(without_return(line), lines(rest));
            lemma_words_split(line, '\n', rest);
            assert(line.push('\n') + rest =~= s);
            if line.len() > 0 && line.last() == '\r' {
                lemma_words_split(line.drop_last(), '\r', Seq::empty());
                assert(line.drop_last().push('\r') + Seq::<char>::empty() =~= line);
                assert(words(line.drop_last()) + Seq::<Seq<char>>::empty() =~= words(
                    line.drop_last(),
                ));
            }
        } else {
            lemma_words_of_front(s, Seq::empty());
            assert(seq![s] + Seq::<Seq<char>>::empty() =~= seq![s]);
            assert(words(s) + Seq::<Seq<char>>::empty() =~= words(s));
        }
    }
}

/// Law: on output without timestamps the two normalizers agree. A line holds no timestamp where
/// taking them out changes nothing.
pub proof fn law_normalizers_agree_without_timestamps(
    whisper_cpp: Normalizer,
    openai: Normalizer,
    raw: Seq<char>,
)
    requires
        whisper_cpp is WhisperCpp,
        openai is OpenAIWhisper,
        forall|i: int|
            0 <= i < lines(raw).len() ==> replaced(
                TIMESTAMP_PATTERN@,
                #[trigger] lines(raw)[i],
                ""@,
            ) == lines(raw)[i],
    ensures
        whisper_cpp.cleaned(raw) == openai.cleaned(raw),
{
    assert(without_timestamps(lines(raw)) =~= lines(raw));
    law_joining_lines_keeps_the_words(lines(raw));
    lemma_words_of_lines(raw);
    law_white_space_does_not_matter(cpp_text(raw), raw);
}

/// Law: markers with nothing but white space around them leave nothing of a text.
pub proof fn law_markers_alone_leave_nothing(pieces: Seq<Seq<char>>)
    requires
        forall|i: int| 0 <= i < pieces.len() ==> trimmed(#[trigger] pieces[i]).len() == 0,
    ensures
        words_of_all(pieces) == Seq::<Seq<char>>::empty(),
        joined(words_of_all(pieces), seq![' ']) == Seq::<char>::empty(),
    decreases pieces.len(),
{
    if pieces.len() > 0 {
        let init = pieces.drop_last();
        assert forall|i: int| 0 <= i < init.len() implies trimmed(#[trigger] init[i]).len() == 0 by {
            assert(init[i] == pieces[i]);
        }
        law_markers_alone_leave_nothing(init);
        assert(pieces.last() == pieces[pieces.len() - 1]);
        lemma_words_trimmed(pieces.last());
        assert(words(pieces.last()) =~= Seq::<Seq<char>>::empty());
    }
}

/// Law: what a marker can say is one of eight things, in any case and with any white space, in
/// square or in round brackets.
pub proof fn law_the_markers_are_these(inner: Seq<char>)
    ensures
        ({
            let ws = words(folded(inner));
            let says = ws == seq!["blank_audio"@] || ws == seq!["silence"@] || ws == seq!["silent"@]
                || ws == seq!["no"@, "speech"@] || ws == seq!["inaudible"@] || ws == seq!["music"@]
                || ws == seq!["noise"@] || ws == seq!["background"@, "noise"@];
            &&& is_marker(seq!['['] + inner + seq![']']) <==> says
            &&& is_marker(seq!['('] + inner + seq![')']) <==> says
            &&& !is_marker(seq!['['] + inner + seq![')'])
            &&& !is_marker(seq!['('] + inner + seq![']'])
        }),
{
    let square = seq!['['] + inner + seq![']'];
    let round = seq!['('] + inner + seq![')'];
    assert(square.subrange(1, square.len() - 1) =~= inner);
    assert(round.subrange(1, round.len() - 1) =~= inner);
}

/// Law: output that holds neither markers nor timestamps keeps all of its words, in order, whichever
/// program wrote it.
pub proof fn law_plain_output_keeps_its_words(n: Normalizer, raw: Seq<char>)
    requires
        forall|i: int|
            0 <= i < lines(raw).len() ==> replaced(
                TIMESTAMP_PATTERN@,
                #[trigger] lines(raw)[i],
                ""@,
            ) == lines(raw)[i],
        holds_no_marker(raw),
        holds_no_marker(one_line(lines(raw))),
    ensures
        words(n.cleaned(raw)) == words(raw),
{
    assert(without_timestamps(lines(raw)) =~= lines(raw));
    law_joining_lines_keeps_the_words(lines(raw));
    lemma_words_of_lines(raw);
    let text = one_line(lines(raw));
    lemma_markers_missing(text, seq![' ']);
    lemma_markers_missing(raw, seq![' ']);
    law_tidying_keeps_the_words(text);
    law_tidying_keeps_the_words(raw);
}

/// Law: where all brackets of a text are those of markers, the markers go and every word between
/// them stays.
pub proof fn law_markers_go_and_words_stay(
    n: Normalizer,
    pieces: Seq<Seq<char>>,
    markers: Seq<Seq<char>>,
)
    requires
        pieces_and_markers(pieces, markers),
    ensures
        words(without_markers(interleaved(pieces, markers))) == words_of_all(pieces),
        n is OpenAIWhisper ==> words(n.cleaned(interleaved(pieces, markers))) == words_of_all(
            pieces,
        ),
{
    let text = interleaved(pieces, markers);
    lemma_interleaved(pieces, markers, seq![' ']);
    lemma_words_of_pieces(pieces);
    law_tidying_keeps_the_words(markers_replaced(text, seq![' ']));
}

proof fn lemma_single_spaces(ws: Seq<Seq<char>>, i: int)
    requires
        forall|k: int| 0 <= k < ws.len() ==> is_word(#[trigger] ws[k]),
        0 <= i < joined(ws, seq![' ']).len(),
        white(joined(ws, seq![' '])[i]),
    ensures
        joined(ws, seq![' '])[i] == ' ',
        0 < i < joined(ws, seq![' ']).len() - 1,
        !white(joined(ws, seq![' '])[i - 1]),
        !white(joined(ws, seq![' '])[i + 1]),
    decreases ws.len(),
{
    let all = joined(ws, seq![' ']);
    if ws.len() == 1 {
        assert(all == ws[0]);
    } else {
        let front = ws.drop_last();
        let head = joined(front, seq![' ']);
        let last = ws[ws.len() - 1];
        assert forall|k: int| 0 <= k < front.len() implies is_word(#[trigger] front[k]) by {
            assert(front[k] == ws[k]);
        }
        assert(all == head + seq![' '] + last);
        lemma_joined_ends(front);
        assert(is_word(last));
        if i < head.len() {
            assert(all[i] == head[i]);
            lemma_single_spaces(front, i);
            assert(all[i - 1] == head[i - 1] && all[i + 1] == head[i + 1]);
        } else if i == head.len() {
            assert(all[i - 1] == head.last());
            assert(all[i + 1] == last[0]);
        } else {
            assert(all[i] == last[i - head.len() - 1]);
        }
    }
}

/// Law: in a tidied text white space is single spaces, each between two words.
pub proof fn law_tidied_text_has_single_spaces(s: Seq<char>, i: int)
    requires
        0 <= i < tidied(s).len(),
        white(tidied(s)[i]),
    ensures
        tidied(s)[i] == ' ',
        0 < i < tidied(s).len() - 1,
        !white(tidied(s)[i - 1]) && !white(tidied(s)[i + 1]),
{
    crate::text::lemma_words_are_words(s);
    lemma_single_spaces(words(s), i);
}

proof fn lemma_line_len_is(a: Seq<char>, b: Seq<char>)
    requires
        lacks(a, '\n'),
        b.len() == 0 || b[0] == '\n',
    ensures
        line_len(a + b) == a.len(),
    decreases a.len(),
{
    if a.len() == 0 {
        assert(a + b =~= b);
    } else {
        let t = a.drop_first();
        assert forall|i: int| 0 <= i < t.len() implies #[trigger] t[i] != '\n' by {
            assert(t[i] == a[i + 1]);
        }
        assert((a + b).drop_first() =~= t + b);
        assert((a + b)[0] == a[0]);
        lemma_line_len_is(t, b);
    }
}

/// Law: a line feed ends a line, and takes the carriage return in front of it along; what follows
/// the last line feed is a line of its own, unless it is empty.
pub proof fn law_line_feeds_end_lines(line: Seq<char>, rest: Seq<char>)
    requires
        lacks(line, '\n'),
    ensures
        line.len() > 0 && line.last() == '\r' ==> lines(line.push('\n') + rest) == seq![
            line.drop_last(),
        ] + lines(rest),
        line.len() == 0 || line.last() != '\r' ==> lines(line.push('\n') + rest) == seq![line]
            + lines(rest),
        line.len() > 0 ==> lines(line) == seq![line],
        lines(Seq::empty()) == Seq::<Seq<char>>::empty(),
{
    let s = line.push('\n') + rest;
    let tail = seq!['\n'] + rest;
    assert(s =~= line + tail);
    lemma_line_len_is(line, tail);
    assert(s.take(line.len() as int) =~= line);
    assert(s.skip(line.len() as int + 1) =~= rest);
    lemma_line_len_is(line, Seq::empty());
    assert(line + Seq::<char>::empty() =~= line);
}

} // verus!
