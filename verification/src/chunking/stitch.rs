//! Joining the transcripts of overlapping audio segments.

use crate::text::{
    all_ascii, ascii, ascii_lowered, chars_of, is_word, join_from, joined, lemma_already_trimmed,
    lemma_ascii_joined, lemma_ascii_trimmed, lemma_ascii_words, lemma_joined_ends,
    lemma_trimmed_ends, lemma_words_are_words, lemma_words_of_joined, lemma_words_split,
    lemma_words_trimmed, split_words, str_eq, trim, trimmed, views, words,
};
use vstd::prelude::*;

verus! {

/// The result of `str::to_lowercase`: the lower case of a text by Unicode's tables.
pub uninterp spec fn lowercase(s: Seq<char>) -> Seq<char>;

/// `str::to_lowercase`: its result depends on the text alone. Of an ASCII text the capital letters
/// become small ones, and nothing else changes.
#[verifier::external_body]
fn to_lowercase(s: &str) -> (r: String)
    ensures
        r@ == lowercase(s@),
        ascii(s@) ==> r@ == ascii_lowered(s@),
{
    s.to_lowercase()
}

/// The punctuation that is ignored at the ends of a word when transcripts are compared.
pub open spec fn punctuation(c: char) -> bool {
    c == '.' || c == ',' || c == '!' || c == '?' || c == ';' || c == ':' || c == '"' || c == '\''
        || c == '(' || c == ')' || c == '[' || c == ']'
}

fn is_punctuation(c: char) -> (r: bool)
    ensures
        r == punctuation(c),
{
    c == '.' || c == ',' || c == '!' || c == '?' || c == ';' || c == ':' || c == '"' || c == '\''
        || c == '(' || c == ')' || c == '[' || c == ']'
}

/// `s` without its leading punctuation.
pub open spec fn bared_start(s: Seq<char>) -> Seq<char>
    decreases s.len(),
{
    if s.len() > 0 && punctuation(s[0]) {
        bared_start(s.drop_first())
    } else {
        s
    }
}

/// `s` without its trailing punctuation.
pub open spec fn bared_end(s: Seq<char>) -> Seq<char>
    decreases s.len(),
{
    if s.len() > 0 && punctuation(s.last()) {
        bared_end(s.drop_last())
    } else {
        s
    }
}

/// `s` without punctuation at either end.
pub open spec fn bared(s: Seq<char>) -> Seq<char> {
    bared_end(bared_start(s))
}

/// `s` without punctuation at either end.
pub fn bare<'a>(s: &'a str) -> (r: &'a str)
    ensures
        r@ == bared(s@),
{
    let chars = chars_of(s);
    let mut from: usize = 0;
    assert(s@.skip(0) == s@);
    while from < chars.len() && is_punctuation(chars[from])
        invariant
            chars@ == s@,
            from <= chars.len(),
            bared_start(s@) == bared_start(s@.skip(from as int)),
        decreases chars.len() - from,
    {
        proof {
            assert(s@.skip(from as int).drop_first() == s@.skip(from + 1));
        }
        from += 1;
    }
    let mut to: usize = chars.len();
    assert(s@.subrange(from as int, to as int) == s@.skip(from as int));
    while from < to && is_punctuation(chars[to - 1])
        invariant
            chars@ == s@,
            from <= to <= chars.len(),
            bared(s@) == bared_end(s@.subrange(from as int, to as int)),
        decreases to - from,
    {
        proof {
            assert(s@.subrange(from as int, to as int).drop_last() == s@.subrange(
                from as int,
                to - 1,
            ));
        }
        to -= 1;
    }
    s.substring_char(from, to)
}

/// What two words are compared by: no punctuation at the ends, lower case.
pub open spec fn key_of(word: Seq<char>) -> Seq<char> {
    lowercase(bared(word))
}

/// What two ASCII words are compared by.
pub open spec fn ascii_key(word: Seq<char>) -> Seq<char> {
    ascii_lowered(bared(word))
}

proof fn lemma_ascii_bared_start(s: Seq<char>)
    requires
        ascii(s),
    ensures
        ascii(bared_start(s)),
    decreases s.len(),
{
    if s.len() > 0 && punctuation(s[0]) {
        lemma_ascii_bared_start(s.drop_first());
    }
}

proof fn lemma_ascii_bared_end(s: Seq<char>)
    requires
        ascii(s),
    ensures
        ascii(bared_end(s)),
    decreases s.len(),
{
    if s.len() > 0 && punctuation(s.last()) {
        lemma_ascii_bared_end(s.drop_last());
    }
}

/// What two words are compared by: no punctuation at the ends, lower case.
pub fn overlap_key(word: &str) -> (r: String)
    ensures
        r@ == key_of(word@),
        ascii(word@) ==> r@ == ascii_key(word@),
{
    proof {
        if ascii(word@) {
            lemma_ascii_bared_start(word@);
            lemma_ascii_bared_end(bared_start(word@));
        }
    }
    to_lowercase(bare(word))
}

/// The keys of a sequence of words.
pub open spec fn keys_of(ws: Seq<Seq<char>>) -> Seq<Seq<char>> {
    Seq::new(ws.len(), |i: int| key_of(ws[i]))
}

/// The keys of a sequence of ASCII words.
pub open spec fn ascii_keys_of(ws: Seq<Seq<char>>) -> Seq<Seq<char>> {
    Seq::new(ws.len(), |i: int| ascii_key(ws[i]))
}

fn overlap_keys(ws: &Vec<String>) -> (r: Vec<String>)
    ensures
        views(r@) == keys_of(views(ws@)),
        all_ascii(views(ws@)) ==> views(r@) == ascii_keys_of(views(ws@)),
{
    let mut out: Vec<String> = Vec::new();
    let mut i: usize = 0;
    while i < ws.len()
        invariant
            i <= ws.len(),
            out@.len() == i,
            forall|k: int| 0 <= k < i ==> (#[trigger] out@[k])@ == key_of(ws@[k]@),
            forall|k: int|
                0 <= k < i && ascii(ws@[k]@) ==> (#[trigger] out@[k])@ == ascii_key(ws@[k]@),
        decreases ws.len() - i,
    {
        out.push(overlap_key(ws[i].as_str()));
        i += 1;
    }
    proof {
        assert(views(out@) =~= keys_of(views(ws@)));
        if all_ascii(views(ws@)) {
            assert forall|k: int| 0 <= k < out@.len() implies (#[trigger] out@[k])@ == ascii_key(
                ws@[k]@,
            ) by {
                assert(ascii(views(ws@)[k]));
            }
            assert(views(out@) =~= ascii_keys_of(views(ws@)));
        }
    }
    out
}

/// The last `count` keys on the left are the first `count` keys on the right, none empty.
pub open spec fn keys_meet(left: Seq<Seq<char>>, right: Seq<Seq<char>>, count: int) -> bool {
    &&& 2 <= count <= left.len()
    &&& count <= right.len()
    &&& forall|k: int|
        0 <= k < count ==> (#[trigger] right[k]).len() > 0 && left[left.len() - count + k]
            == right[k]
}

/// The longest overlap of at most `limit` keys, or zero.
pub open spec fn longest_meet(left: Seq<Seq<char>>, right: Seq<Seq<char>>, limit: int) -> int
    decreases limit,
{
    if limit < 2 {
        0
    } else if keys_meet(left, right, limit) {
        limit
    } else {
        longest_meet(left, right, limit - 1)
    }
}

/// The number of words at the end of the left text that the right text repeats: the largest
/// count of at least two whose keys agree one by one, or zero.
pub open spec fn overlap_len(left: Seq<Seq<char>>, right: Seq<Seq<char>>) -> int {
    longest_meet(
        left,
        right,
        if left.len() <= right.len() {
            left.len() as int
        } else {
            right.len() as int
        },
    )
}

/// The number of keys at the end of `left` that `right` repeats at its start.
pub fn count_overlap(left: &Vec<String>, right: &Vec<String>) -> (r: usize)
    ensures
        r == overlap_len(views(left@), views(right@)),
        r <= left@.len(),
        r <= right@.len(),
{
    let ghost lv = views(left@);
    let ghost rv = views(right@);
    let mut count: usize = if left.len() <= right.len() {
        left.len()
    } else {
        right.len()
    };
    while count >= 2
        invariant
            lv == views(left@),
            rv == views(right@),
            count <= left.len(),
            count <= right.len(),
            overlap_len(lv, rv) == longest_meet(lv, rv, count as int),
        decreases count,
    {
        let mut k: usize = 0;
        let mut meets = true;
        while k < count && meets
            invariant
                lv == views(left@),
                rv == views(right@),
                2 <= count <= left.len(),
                count <= right.len(),
                k <= count,
                meets ==> forall|j: int|
                    0 <= j < k ==> (#[trigger] rv[j]).len() > 0 && lv[lv.len() - count + j]
                        == rv[j],
                !meets ==> !keys_meet(lv, rv, count as int),
            decreases count - k,
        {
            let at: usize = left.len() - count + k;
            let l = left[at].as_str();
            let r = right[k].as_str();
            assert(lv[at as int] == l@ && rv[k as int] == r@);
            if l.is_empty() || !str_eq(l, r) {
                meets = false;
                assert(!((rv[k as int]).len() > 0 && lv[lv.len() - count + k] == rv[k as int]));
            }
            k += 1;
        }
        if meets {
            assert(keys_meet(lv, rv, count as int));
            return count;
        }
        count -= 1;
    }
    0
}

/// Two trimmed transcripts as one, where the right one loses its first `overlap` words.
pub open spec fn pair_with(l: Seq<char>, r: Seq<char>, overlap: int) -> Seq<char> {
    if l.len() == 0 {
        r
    } else if r.len() == 0 {
        l
    } else {
        spliced(l, words(r), overlap)
    }
}

/// Two transcripts as one: the right one loses the words that repeat the end of the left one.
pub open spec fn stitched_pair(left: Seq<char>, right: Seq<char>) -> Seq<char> {
    let l = trimmed(left);
    let r = trimmed(right);
    pair_with(l, r, overlap_len(keys_of(words(l)), keys_of(words(r))))
}

/// Two ASCII transcripts as one.
pub open spec fn ascii_stitched_pair(left: Seq<char>, right: Seq<char>) -> Seq<char> {
    let l = trimmed(left);
    let r = trimmed(right);
    pair_with(l, r, overlap_len(ascii_keys_of(words(l)), ascii_keys_of(words(r))))
}

/// `left`, followed by the words of `right` after the first `overlap`.
pub open spec fn spliced(left: Seq<char>, right: Seq<Seq<char>>, overlap: int) -> Seq<char> {
    let rest = joined(right.skip(overlap), seq![' ']);
    if rest.len() == 0 {
        left
    } else {
        left + seq![' '] + rest
    }
}

/// `left`, followed by the words of `right` after the first `overlap`.
pub fn splice(left: &str, right: &Vec<String>, overlap: usize) -> (r: String)
    requires
        overlap <= right@.len(),
    ensures
        r@ == spliced(left@, views(right@), overlap as int),
{
    proof {
        reveal_strlit(" ");
        assert(" "@ =~= seq![' ']);
    }
    let rest = join_from(right, overlap, " ");
    let mut out = left.to_owned();
    if !rest.as_str().is_empty() {
        out.append(" ");
        out.append(rest.as_str());
    }
    out
}

/// Two transcripts as one: the right one loses the words that repeat the end of the left one.
pub fn stitch_pair(left: &str, right: &str) -> (r: String)
    ensures
        r@ == stitched_pair(left@, right@),
        ascii(left@) && ascii(right@) ==> r@ == ascii_stitched_pair(left@, right@),
{
    proof {
        if ascii(left@) && ascii(right@) {
            lemma_ascii_trimmed(left@);
            lemma_ascii_trimmed(right@);
            lemma_ascii_words(trimmed(left@));
            lemma_ascii_words(trimmed(right@));
        }
    }
    let left = trim(left);
    let right = trim(right);
    if left.is_empty() {
        return right.to_owned();
    }
    if right.is_empty() {
        return left.to_owned();
    }
    let left_words = split_words(left);
    let right_words = split_words(right);
    let left_keys = overlap_keys(&left_words);
    let right_keys = overlap_keys(&right_words);
    assert(left_keys@.len() == views(left_keys@).len() && right_keys@.len() == views(
        right_keys@,
    ).len());
    assert(views(right_keys@).len() == views(right_words@).len());
    let overlap = count_overlap(&left_keys, &right_keys);
    splice(left, &right_words, overlap)
}

/// The transcripts of consecutive chunks, stitched from left to right.
pub open spec fn stitched(chunks: Seq<Seq<char>>) -> Seq<char>
    decreases chunks.len(),
{
    if chunks.len() == 0 {
        Seq::empty()
    } else {
        stitched_pair(stitched(chunks.drop_last()), chunks.last())
    }
}

/// The ASCII transcripts of consecutive chunks, stitched from left to right.
pub open spec fn ascii_stitched(chunks: Seq<Seq<char>>) -> Seq<char>
    decreases chunks.len(),
{
    if chunks.len() == 0 {
        Seq::empty()
    } else {
        ascii_stitched_pair(ascii_stitched(chunks.drop_last()), chunks.last())
    }
}

proof fn lemma_ascii_stitched_pair(left: Seq<char>, right: Seq<char>)
    requires
        ascii(left),
        ascii(right),
    ensures
        ascii(ascii_stitched_pair(left, right)),
{
    let l = trimmed(left);
    let r = trimmed(right);
    lemma_ascii_trimmed(left);
    lemma_ascii_trimmed(right);
    lemma_ascii_words(r);
    let n = overlap_len(ascii_keys_of(words(l)), ascii_keys_of(words(r)));
    law_overlap_is_longest(ascii_keys_of(words(l)), ascii_keys_of(words(r)));
    let rest = words(r).skip(n);
    assert forall|i: int| 0 <= i < rest.len() implies ascii(#[trigger] rest[i]) by {
        assert(rest[i] == words(r)[n + i]);
    }
    lemma_ascii_joined(rest, seq![' ']);
}

proof fn lemma_ascii_stitched(chunks: Seq<Seq<char>>)
    requires
        all_ascii(chunks),
    ensures
        ascii(ascii_stitched(chunks)),
    decreases chunks.len(),
{
    if chunks.len() > 0 {
        let init = chunks.drop_last();
        assert forall|i: int| 0 <= i < init.len() implies ascii(#[trigger] init[i]) by {
            assert(init[i] == chunks[i]);
        }
        lemma_ascii_stitched(init);
        assert(ascii(chunks[chunks.len() - 1]));
        lemma_ascii_stitched_pair(ascii_stitched(init), chunks.last());
    }
}

/// The views of a sequence of string slices.
pub open spec fn str_views(v: Seq<&str>) -> Seq<Seq<char>> {
    Seq::new(v.len(), |i: int| v[i]@)
}

/// The transcripts of consecutive chunks as one text, each boundary without its repeated words.
pub fn stitch_transcripts(chunks: &[&str]) -> (r: String)
    ensures
        r@ == stitched(str_views(chunks@)),
        all_ascii(str_views(chunks@)) ==> r@ == ascii_stitched(str_views(chunks@)),
{
    let mut combined = String::new();
    let mut i: usize = 0;
    let ghost all = str_views(chunks@);
    proof {
        assert(all.take(0) == Seq::<Seq<char>>::empty());
    }
    while i < chunks.len()
        invariant
            i <= chunks.len(),
            all == str_views(chunks@),
            combined@ == stitched(all.take(i as int)),
            all_ascii(all) ==> combined@ == ascii_stitched(all.take(i as int)),
        decreases chunks.len() - i,
    {
        proof {
            assert(all.take(i + 1).drop_last() == all.take(i as int));
            assert(all.take(i + 1).last() == chunks@[i as int]@);
            if all_ascii(all) {
                assert(ascii(all[i as int]));
                lemma_ascii_stitched(all.take(i as int));
            }
        }
        combined = stitch_pair(combined.as_str(), chunks[i]);
        i += 1;
    }
    proof {
        assert(all.take(i as int) == all);
    }
    combined
}

/// The transcripts of consecutive chunks as one text, each boundary without its repeated words.
pub fn stitch_strings(chunks: &Vec<String>) -> (r: String)
    ensures
        r@ == stitched(views(chunks@)),
        all_ascii(views(chunks@)) ==> r@ == ascii_stitched(views(chunks@)),
{
    let mut combined = String::new();
    let mut i: usize = 0;
    let ghost all = views(chunks@);
    proof {
        assert(all.take(0) == Seq::<Seq<char>>::empty());
    }
    while i < chunks.len()
        invariant
            i <= chunks.len(),
            all == views(chunks@),
            combined@ == stitched(all.take(i as int)),
            all_ascii(all) ==> combined@ == ascii_stitched(all.take(i as int)),
        decreases chunks.len() - i,
    {
        proof {
            assert(all.take(i + 1).drop_last() == all.take(i as int));
            assert(all.take(i + 1).last() == chunks@[i as int]@);
            if all_ascii(all) {
                assert(ascii(all[i as int]));
                lemma_ascii_stitched(all.take(i as int));
            }
        }
        combined = stitch_pair(combined.as_str(), chunks[i].as_str());
        i += 1;
    }
    proof {
        assert(all.take(i as int) == all);
    }
    combined
}

/// The longest agreeing count is agreed on, and no larger count is.
pub proof fn lemma_longest_meet(left: Seq<Seq<char>>, right: Seq<Seq<char>>, limit: int)
    ensures
        ({
            let n = longest_meet(left, right, limit);
            &&& n == 0 || keys_meet(left, right, n)
            &&& n == 0 || 2 <= n <= limit
            &&& forall|m: int| n < m <= limit ==> !#[trigger] keys_meet(left, right, m)
        }),
    decreases limit,
{
    if limit >= 2 && !keys_meet(left, right, limit) {
        lemma_longest_meet(left, right, limit - 1);
    }
}

/// Law: the overlap that is removed is the longest one. It holds at least two words or none,
/// the words agree by their keys, and no larger count of words agrees.
pub proof fn law_overlap_is_longest(left: Seq<Seq<char>>, right: Seq<Seq<char>>)
    ensures
        ({
            let n = overlap_len(left, right);
            &&& n == 0 || (n >= 2 && keys_meet(left, right, n))
            &&& n <= left.len() && n <= right.len()
            &&& forall|m: int| m > n ==> !#[trigger] keys_meet(left, right, m)
        }),
{
    let limit = if left.len() <= right.len() {
        left.len() as int
    } else {
        right.len() as int
    };
    lemma_longest_meet(left, right, limit);
    assert forall|m: int| m > overlap_len(left, right) implies !#[trigger] keys_meet(
        left,
        right,
        m,
    ) by {
        if m <= limit {
        }
    }
}

/// Law: stitching loses no word of the left text and drops from the right text exactly the
/// words of the overlap. The words of the result are the words of the left, then the rest of
/// the words of the right.
pub proof fn law_stitching_keeps_the_words(left: Seq<char>, right: Seq<char>)
    ensures
        ({
            let l = words(left);
            let r = words(right);
            let n = if trimmed(left).len() == 0 || trimmed(right).len() == 0 {
                0
            } else {
                overlap_len(keys_of(l), keys_of(r))
            };
            words(stitched_pair(left, right)) == l + r.skip(n)
        }),
{
    let l = trimmed(left);
    let r = trimmed(right);
    lemma_words_trimmed(left);
    lemma_words_trimmed(right);
    assert(words(left) + words(right).skip(0) == words(left) + words(right));
    if l.len() == 0 {
        assert(words(left) =~= Seq::<Seq<char>>::empty());
        assert(words(left) + words(right) == words(right));
    } else if r.len() == 0 {
        assert(words(right) =~= Seq::<Seq<char>>::empty());
        assert(words(left) + words(right) == words(left));
    } else {
        let rw = words(r);
        let n = overlap_len(keys_of(words(l)), keys_of(rw));
        law_overlap_is_longest(keys_of(words(l)), keys_of(rw));
        lemma_words_are_words(r);
        let rest = rw.skip(n);
        assert forall|i: int| 0 <= i < rest.len() implies is_word(#[trigger] rest[i]) by {
            assert(rest[i] == rw[n + i]);
        }
        lemma_words_of_joined(rest);
        let tail = joined(rest, seq![' ']);
        if tail.len() == 0 {
            assert(rest =~= Seq::<Seq<char>>::empty());
            assert(words(l) + rest == words(l));
        } else {
            lemma_words_split(l, ' ', tail);
            assert(l + seq![' '] + tail == l.push(' ') + tail);
        }
    }
}

/// Law: the left text itself, trimmed, is the start of the stitched text; its casing and its
/// punctuation stay as they are.
pub proof fn law_stitching_keeps_the_left_text(left: Seq<char>, right: Seq<char>)
    ensures
        ({
            let l = trimmed(left);
            let out = stitched_pair(left, right);
            l.len() <= out.len() && out.take(l.len() as int) == l
        }),
{
    let l = trimmed(left);
    assert(stitched_pair(left, right).take(l.len() as int) == l);
}

/// Law: a word that the two texts share at the boundary, and no second word with it, stays.
pub proof fn law_a_single_repeated_word_stays(left: Seq<char>, right: Seq<char>)
    requires
        trimmed(left).len() > 0,
        trimmed(right).len() > 0,
        forall|m: int| !#[trigger] keys_meet(keys_of(words(left)), keys_of(words(right)), m),
    ensures
        words(stitched_pair(left, right)) == words(left) + words(right),
{
    law_stitching_keeps_the_words(left, right);
    law_overlap_is_longest(keys_of(words(left)), keys_of(words(right)));
    assert(words(right).skip(0) == words(right));
}

/// Nothing but punctuation.
pub open spec fn only_punctuation(s: Seq<char>) -> bool {
    forall|i: int| 0 <= i < s.len() ==> punctuation(#[trigger] s[i])
}

proof fn lemma_bared_start_drops(before: Seq<char>, s: Seq<char>)
    requires
        only_punctuation(before),
    ensures
        bared_start(before + s) == bared_start(s),
    decreases before.len(),
{
    if before.len() == 0 {
        assert(before + s =~= s);
    } else {
        assert((before + s).drop_first() =~= before.drop_first() + s);
        lemma_bared_start_drops(before.drop_first(), s);
    }
}

proof fn lemma_bared_end_drops(s: Seq<char>, after: Seq<char>)
    requires
        only_punctuation(after),
    ensures
        bared_end(s + after) == bared_end(s),
    decreases after.len(),
{
    if after.len() == 0 {
        assert(s + after =~= s);
    } else {
        assert((s + after).last() == after[after.len() - 1]);
        assert((s + after).drop_last() =~= s + after.drop_last());
        lemma_bared_end_drops(s, after.drop_last());
    }
}

proof fn lemma_bared_start_keeps(s: Seq<char>, after: Seq<char>)
    requires
        only_punctuation(after),
    ensures
        bared_end(bared_start(s + after)) == bared_end(bared_start(s) + after),
    decreases s.len(),
{
    if s.len() == 0 {
        assert(s + after =~= after);
        assert(after + Seq::<char>::empty() =~= after);
        lemma_bared_start_drops(after, Seq::empty());
        assert(bared_start(s) + after =~= after);
        lemma_bared_end_drops(Seq::empty(), after);
        assert(Seq::<char>::empty() + after =~= after);
    } else if punctuation(s[0]) {
        assert((s + after).drop_first() =~= s.drop_first() + after);
        lemma_bared_start_keeps(s.drop_first(), after);
    }
}

/// Law: punctuation at the ends of a word does not matter when transcripts are compared.
pub proof fn law_punctuation_is_ignored(before: Seq<char>, word: Seq<char>, after: Seq<char>)
    requires
        only_punctuation(before),
        only_punctuation(after),
    ensures
        key_of(before + word + after) == key_of(word),
        ascii_key(before + word + after) == ascii_key(word),
{
    assert(before + word + after =~= before + (word + after));
    lemma_bared_start_drops(before, word + after);
    lemma_bared_start_keeps(word, after);
    lemma_bared_end_drops(bared_start(word), after);
}

/// Law: the marks that are ignored at the ends of a word are these twelve. A word with one of them
/// in front of it, or behind it, is compared as the word without it.
pub proof fn law_these_marks_are_ignored(word: Seq<char>, mark: char)
    requires
        seq!['.', ',', '!', '?', ';', ':', '"', '\'', '(', ')', '[', ']'].contains(mark),
    ensures
        key_of(seq![mark] + word) == key_of(word),
        key_of(word + seq![mark]) == key_of(word),
        ascii_key(seq![mark] + word) == ascii_key(word),
        ascii_key(word + seq![mark]) == ascii_key(word),
{
    let none = Seq::<char>::empty();
    assert(punctuation(mark));
    law_punctuation_is_ignored(seq![mark], word, none);
    law_punctuation_is_ignored(none, word, seq![mark]);
    assert(seq![mark] + word + none =~= seq![mark] + word);
    assert(none + word + seq![mark] =~= word + seq![mark]);
}

/// Law: nothing else is ignored at the ends of a word. A word whose first and last character are
/// none of the twelve marks is compared whole, in lower case.
pub proof fn law_other_ends_count(word: Seq<char>)
    requires
        word.len() > 0,
        !seq!['.', ',', '!', '?', ';', ':', '"', '\'', '(', ')', '[', ']'].contains(word[0]),
        !seq!['.', ',', '!', '?', ';', ':', '"', '\'', '(', ')', '[', ']'].contains(word.last()),
    ensures
        key_of(word) == lowercase(word),
        ascii_key(word) == ascii_lowered(word),
{
    let marks = seq!['.', ',', '!', '?', ';', ':', '"', '\'', '(', ')', '[', ']'];
    assert forall|c: char| punctuation(c) implies marks.contains(c) by {
        assert(marks[0] == '.' && marks[1] == ',' && marks[2] == '!' && marks[3] == '?');
        assert(marks[4] == ';' && marks[5] == ':' && marks[6] == '"' && marks[7] == '\'');
        assert(marks[8] == '(' && marks[9] == ')' && marks[10] == '[' && marks[11] == ']');
    }
    assert(!punctuation(word[0]));
    assert(!punctuation(word.last()));
}

/// The right words start with the last `count` of the left words: one by one they are compared as
/// the same, and none of them is compared as nothing.
pub open spec fn repeats(left: Seq<Seq<char>>, right: Seq<Seq<char>>, count: int) -> bool {
    &&& 0 <= count <= left.len()
    &&& count <= right.len()
    &&& forall|k: int|
        0 <= k < count ==> key_of(left[left.len() - count + k]) == key_of(#[trigger] right[k])
            && key_of(right[k]).len() > 0
}

/// Law: words that the right text repeats from the end of the left one appear once. Where at least
/// two words are repeated, and no larger number of them, the right text loses just those; where
/// fewer than two are, it loses none.
pub proof fn law_repeated_words_appear_once(left: Seq<char>, right: Seq<char>, count: int)
    requires
        repeats(words(left), words(right), count),
        forall|more: int| more > count ==> !#[trigger] repeats(words(left), words(right), more),
    ensures
        words(stitched_pair(left, right)) == words(left) + words(right).skip(
            if count >= 2 {
                count
            } else {
                0
            },
        ),
{
    let l = keys_of(words(left));
    let r = keys_of(words(right));
    let n = overlap_len(l, r);
    law_stitching_keeps_the_words(left, right);
    law_overlap_is_longest(l, r);
    if n > 0 {
        assert forall|k: int| 0 <= k < n implies key_of(words(left)[words(left).len() - n + k])
            == key_of(#[trigger] words(right)[k]) && key_of(words(right)[k]).len() > 0 by {
            assert(l[l.len() - n + k] == r[k]);
            assert(r[k].len() > 0);
        }
        assert(repeats(words(left), words(right), n));
    }
    if count >= 2 {
        assert forall|k: int| 0 <= k < count implies (#[trigger] r[k]).len() > 0 && l[l.len()
            - count + k] == r[k] by {
            assert(r[k] == key_of(words(right)[k]));
        }
        assert(keys_meet(l, r, count));
    }
    lemma_words_trimmed(left);
    lemma_words_trimmed(right);
    if trimmed(left).len() == 0 {
        assert(words(left) =~= Seq::<Seq<char>>::empty());
    }
    if trimmed(right).len() == 0 {
        assert(words(right) =~= Seq::<Seq<char>>::empty());
    }
}

/// Law: the texts are stitched from left to right. No text gives nothing, one gives itself without
/// the white space around it, and each further one is stitched to what the ones before it gave.
pub proof fn law_stitched_from_left_to_right(chunks: Seq<Seq<char>>, chunk: Seq<char>)
    ensures
        stitched(Seq::empty()) == Seq::<char>::empty(),
        stitched(seq![chunk]) == trimmed(chunk),
        stitched(chunks.push(chunk)) == stitched_pair(stitched(chunks), chunk),
        stitched_pair(Seq::empty(), chunk) == trimmed(chunk),
        stitched_pair(chunk, Seq::empty()) == trimmed(chunk),
{
    assert(chunks.push(chunk).drop_last() =~= chunks);
    assert(seq![chunk].drop_last() =~= Seq::<Seq<char>>::empty());
    assert(stitched(Seq::<Seq<char>>::empty()) =~= Seq::<char>::empty());
    lemma_already_trimmed(Seq::<char>::empty());
    assert(trimmed(Seq::<char>::empty()) == Seq::<char>::empty());
    if trimmed(chunk).len() == 0 {
        assert(trimmed(chunk) =~= Seq::<char>::empty());
    }
}

/// Law: what is added to the left text is set off by a single space, and the words that are added
/// are set off from one another by a single space too.
pub proof fn law_added_words_are_set_off(left: Seq<char>, right: Seq<char>)
    requires
        trimmed(left).len() > 0,
    ensures
        exists|added: Seq<Seq<char>>|
            stitched_pair(left, right) == (if added.len() == 0 {
                trimmed(left)
            } else {
                trimmed(left).push(' ') + #[trigger] joined(added, seq![' '])
            }),
{
    let l = trimmed(left);
    let r = trimmed(right);
    if r.len() == 0 {
        let added = Seq::<Seq<char>>::empty();
        assert(joined(added, seq![' ']) == joined(added, seq![' ']));
    } else {
        let n = overlap_len(keys_of(words(l)), keys_of(words(r)));
        law_overlap_is_longest(keys_of(words(l)), keys_of(words(r)));
        let added = words(r).skip(n);
        let rest = joined(added, seq![' ']);
        if added.len() > 0 {
            lemma_words_are_words(r);
            assert forall|i: int| 0 <= i < added.len() implies is_word(#[trigger] added[i]) by {
                assert(added[i] == words(r)[n + i]);
            }
            lemma_joined_ends(added);
            assert(l + seq![' '] + rest =~= l.push(' ') + rest);
        }
    }
}

proof fn lemma_bared_start_lowered(s: Seq<char>)
    ensures
        bared_start(ascii_lowered(s)) == ascii_lowered(bared_start(s)),
    decreases s.len(),
{
    if s.len() > 0 && punctuation(s[0]) {
        assert(ascii_lowered(s).drop_first() =~= ascii_lowered(s.drop_first()));
        lemma_bared_start_lowered(s.drop_first());
    }
}

proof fn lemma_bared_end_lowered(s: Seq<char>)
    ensures
        bared_end(ascii_lowered(s)) == ascii_lowered(bared_end(s)),
    decreases s.len(),
{
    if s.len() > 0 && punctuation(s.last()) {
        assert(ascii_lowered(s).drop_last() =~= ascii_lowered(s.drop_last()));
        lemma_bared_end_lowered(s.drop_last());
    }
}

/// Law: the case of ASCII letters does not matter when transcripts are compared. Two words that are
/// the same in small letters have the same key.
pub proof fn law_case_is_ignored(a: Seq<char>, b: Seq<char>)
    requires
        ascii_lowered(a) == ascii_lowered(b),
    ensures
        ascii_key(a) == ascii_key(b),
{
    lemma_bared_start_lowered(a);
    lemma_bared_start_lowered(b);
    lemma_bared_end_lowered(bared_start(a));
    lemma_bared_end_lowered(bared_start(b));
}

proof fn lemma_stitched_pair_trimmed(left: Seq<char>, right: Seq<char>)
    ensures
        trimmed(stitched_pair(left, right)) == stitched_pair(left, right),
{
    let l = trimmed(left);
    let r = trimmed(right);
    lemma_trimmed_ends(left);
    lemma_trimmed_ends(right);
    lemma_already_trimmed(l);
    lemma_already_trimmed(r);
    if l.len() > 0 && r.len() > 0 {
        let n = overlap_len(keys_of(words(l)), keys_of(words(r)));
        law_overlap_is_longest(keys_of(words(l)), keys_of(words(r)));
        lemma_words_are_words(r);
        let rest = words(r).skip(n);
        assert forall|i: int| 0 <= i < rest.len() implies is_word(#[trigger] rest[i]) by {
            assert(rest[i] == words(r)[n + i]);
        }
        if rest.len() > 0 {
            lemma_joined_ends(rest);
        }
        lemma_already_trimmed(stitched_pair(left, right));
    }
}

proof fn lemma_stitched_trimmed(chunks: Seq<Seq<char>>)
    ensures
        trimmed(stitched(chunks)) == stitched(chunks),
{
    if chunks.len() > 0 {
        lemma_stitched_pair_trimmed(stitched(chunks.drop_last()), chunks.last());
    } else {
        lemma_already_trimmed(stitched(chunks));
    }
}

/// Law: a chunk of nothing but white space changes nothing, wherever it stands.
pub proof fn law_blank_chunks_change_nothing(
    before: Seq<Seq<char>>,
    chunk: Seq<char>,
    after: Seq<Seq<char>>,
)
    requires
        trimmed(chunk).len() == 0,
    ensures
        stitched(before.push(chunk) + after) == stitched(before + after),
    decreases after.len(),
{
    let all = before.push(chunk) + after;
    let others = before + after;
    if after.len() == 0 {
        assert(all =~= before.push(chunk));
        assert(others =~= before);
        assert(all.drop_last() =~= before);
        lemma_stitched_trimmed(before);
        if stitched(before).len() == 0 {
            assert(trimmed(chunk) =~= stitched(before));
        }
    } else {
        assert(all.drop_last() =~= before.push(chunk) + after.drop_last());
        assert(others.drop_last() =~= before + after.drop_last());
        law_blank_chunks_change_nothing(before, chunk, after.drop_last());
    }
}

/// Law: a further chunk only extends the text. What was there stays, letter for letter, and what
/// is added are the chunk's words but for those at its start that repeat the end of the text.
pub proof fn law_a_further_chunk_only_extends(chunks: Seq<Seq<char>>, chunk: Seq<char>)
    ensures
        stitched(chunks).is_prefix_of(stitched(chunks.push(chunk))),
        exists|repeated: int|
            0 <= repeated <= words(chunk).len() && words(stitched(chunks.push(chunk))) == words(
                stitched(chunks),
            ) + #[trigger] words(chunk).skip(repeated),
{
    let left = stitched(chunks);
    assert(chunks.push(chunk).drop_last() =~= chunks);
    lemma_stitched_trimmed(chunks);
    law_stitching_keeps_the_left_text(left, chunk);
    law_stitching_keeps_the_words(left, chunk);
    let out = stitched(chunks.push(chunk));
    assert(left =~= out.subrange(0, left.len() as int));
    let repeated = if trimmed(left).len() == 0 || trimmed(chunk).len() == 0 {
        0
    } else {
        overlap_len(keys_of(words(left)), keys_of(words(chunk)))
    };
    law_overlap_is_longest(keys_of(words(left)), keys_of(words(chunk)));
    assert(words(out) == words(left) + words(chunk).skip(repeated));
}

} // verus!
