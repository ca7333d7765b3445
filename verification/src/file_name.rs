//! The name of the file that a path ends with. A path is taken as the bytes that the system holds,
//! which need not be text; slashes part it.

use vstd::prelude::*;
use vstd::utf8::{decode_utf8, encode_scalar, encode_utf8, valid_utf8};

verus! {

/// A path without the slashes, and the single dots behind slashes, that it ends with.
pub open spec fn settled<T>(path: Seq<T>, slash: T, dot: T) -> Seq<T>
    decreases path.len(),
{
    if path.len() > 0 && path.last() == slash {
        settled(path.drop_last(), slash, dot)
    } else if path.len() >= 2 && path.last() == dot && path[path.len() - 2] == slash {
        settled(path.take(path.len() - 2), slash, dot)
    } else {
        path
    }
}

/// What follows the last slash of a path.
pub open spec fn last_part<T>(path: Seq<T>, slash: T) -> Seq<T>
    decreases path.len(),
{
    if path.len() == 0 || path.last() == slash {
        Seq::empty()
    } else {
        last_part(path.drop_last(), slash).push(path.last())
    }
}

/// The last place of `c`, or minus one.
pub open spec fn last_place<T>(s: Seq<T>, c: T) -> int
    decreases s.len(),
{
    if s.len() == 0 {
        -1
    } else if s.last() == c {
        s.len() - 1
    } else {
        last_place(s.drop_last(), c)
    }
}

/// A file's name without its extension: what is in front of the last dot, or the whole name where
/// there is no dot but perhaps as its first character.
pub open spec fn stem_part<T>(file: Seq<T>, dot: T) -> Seq<T> {
    if last_place(file, dot) <= 0 {
        file
    } else {
        file.take(last_place(file, dot))
    }
}

/// The name of the file that a path ends with, without its extension. There is none where the path
/// is empty, is the root, or ends with the directory itself or the one above.
pub open spec fn stem_of<T>(path: Seq<T>, slash: T, dot: T) -> Option<Seq<T>> {
    let file = last_part(settled(path, slash, dot), slash);
    if file.len() == 0 || file == seq![dot] || file == seq![dot, dot] {
        None
    } else {
        Some(stem_part(file, dot))
    }
}

/// The stem of a path that is text.
pub open spec fn text_stem(path: Seq<char>) -> Option<Seq<char>> {
    stem_of(path, '/', '.')
}

/// The stem of a path of bytes.
pub open spec fn byte_stem(path: Seq<u8>) -> Option<Seq<u8>> {
    stem_of(path, 0x2fu8, 0x2eu8)
}

/// The name of the file that a path ends with, without its extension.
pub fn file_stem<'a>(path: &'a [u8]) -> (r: Option<&'a [u8]>)
    ensures
        match r {
            Some(stem) => byte_stem(path@) == Some(stem@),
            None => byte_stem(path@) is None,
        },
{
    let slash: u8 = 0x2f;
    let dot: u8 = 0x2e;
    let mut end: usize = path.len();
    assert(path@.take(end as int) =~= path@);
    while end > 0 && (path[end - 1] == slash || (end >= 2 && path[end - 1] == dot && path[end - 2]
        == slash))
        invariant
            slash == 0x2f,
            dot == 0x2e,
            end <= path@.len(),
            settled(path@, slash, dot) == settled(path@.take(end as int), slash, dot),
        decreases end,
    {
        let ghost here = path@.take(end as int);
        assert(here.drop_last() =~= path@.take(end - 1));
        if path[end - 1] == slash {
            end -= 1;
        } else {
            assert(here.take(end - 2) =~= path@.take(end - 2));
            end -= 2;
        }
    }
    let ghost whole = path@.take(end as int);
    assert(settled(path@, slash, dot) == whole);
    let mut start: usize = end;
    assert(path@.take(start as int) =~= whole);
    assert(last_part(whole, slash) =~= last_part(whole, slash) + path@.subrange(
        start as int,
        end as int,
    ));
    while start > 0 && path[start - 1] != slash
        invariant
            slash == 0x2f,
            start <= end <= path@.len(),
            whole == path@.take(end as int),
            last_part(whole, slash) == last_part(path@.take(start as int), slash) + path@.subrange(
                start as int,
                end as int,
            ),
        decreases start,
    {
        proof {
            let here = path@.take(start as int);
            let before = path@.take(start - 1);
            assert(here.drop_last() =~= before);
            assert(last_part(here, slash) == last_part(before, slash).push(path@[start - 1]));
            assert(last_part(before, slash).push(path@[start - 1]) + path@.subrange(
                start as int,
                end as int,
            ) =~= last_part(before, slash) + path@.subrange(start - 1, end as int));
        }
        start -= 1;
    }
    let ghost file = path@.subrange(start as int, end as int);
    assert(last_part(path@.take(start as int), slash) =~= Seq::<u8>::empty());
    assert(last_part(whole, slash) =~= file);
    if end == start {
        return None;
    }
    if end - start == 1 && path[start] == dot {
        assert(file =~= seq![dot]);
        return None;
    }
    if end - start == 2 && path[start] == dot && path[start + 1] == dot {
        assert(file =~= seq![dot, dot]);
        return None;
    }
    proof {
        if file == seq![dot] {
            assert(file[0] == dot);
        }
        if file == seq![dot, dot] {
            assert(file[0] == dot && file[1] == dot);
        }
    }
    let mut place: usize = end;
    assert(file.take(end - start) =~= file);
    while place > start && path[place - 1] != dot
        invariant
            dot == 0x2e,
            start <= place <= end <= path@.len(),
            file == path@.subrange(start as int, end as int),
            last_place(file, dot) == last_place(file.take(place - start), dot),
        decreases place,
    {
        assert(file.take(place - start).drop_last() =~= file.take(place - 1 - start));
        assert(file.take(place - start).last() == path@[place - 1]);
        place -= 1;
    }
    assert(place > start ==> file.take(place - start).last() == path@[place - 1]);
    assert(last_place(file, dot) == place - start - 1);
    if place - start <= 1 {
        Some(vstd::slice::slice_subrange(path, start, end))
    } else {
        assert(file.take(place - 1 - start) =~= path@.subrange(start as int, place - 1));
        Some(vstd::slice::slice_subrange(path, start, place - 1))
    }
}

/// `std::str::from_utf8`: the text that bytes hold, or nothing where they are not UTF-8.
#[verifier::external_body]
fn as_text(bytes: &[u8]) -> (r: Option<String>)
    ensures
        match r {
            Some(text) => encode_utf8(text@) == bytes@,
            None => !valid_utf8(bytes@),
        },
{
    std::str::from_utf8(bytes).ok().map(|text| text.to_owned())
}

/// The text of a file's stem, or what there is instead.
#[derive(Debug, PartialEq, Eq)]
pub enum Stem {
    /// The path ends with no name of a file.
    Missing,
    /// The stem is not text.
    NotText,
    Text(String),
}

/// The stem of a path, as text.
pub fn stem_text(path: &[u8]) -> (r: Stem)
    ensures
        match byte_stem(path@) {
            None => r is Missing,
            Some(stem) => if valid_utf8(stem) {
                r matches Stem::Text(text) && text@ == decode_utf8(stem)
            } else {
                r is NotText
            },
        },
        forall|text: Seq<char>|
            path@ == #[trigger] encode_utf8(text) ==> match text_stem(text) {
                Some(stem) => r matches Stem::Text(found) && found@ == stem,
                None => r is Missing,
            },
{
    proof {
        assert forall|text: Seq<char>| path@ == #[trigger] encode_utf8(text) implies byte_stem(path@)
            == (match text_stem(text) {
            Some(stem) => Some(encode_utf8(stem)),
            None => None::<Seq<u8>>,
        }) by {
            law_text_paths_have_text_stems(text);
        }
        assert forall|text: Seq<char>| valid_utf8(#[trigger] encode_utf8(text)) && decode_utf8(
            encode_utf8(text),
        ) == text by {
            vstd::utf8::encode_utf8_valid_utf8(text);
            vstd::utf8::encode_utf8_decode_utf8(text);
        }
    }
    match file_stem(path) {
        None => Stem::Missing,
        Some(stem) => match as_text(stem) {
            Some(text) => Stem::Text(text),
            None => Stem::NotText,
        },
    }
}

proof fn lemma_encode_add(a: Seq<char>, b: Seq<char>)
    ensures
        encode_utf8(a + b) == encode_utf8(a) + encode_utf8(b),
    decreases a.len(),
{
    if a.len() == 0 {
        assert(a + b =~= b);
        assert(encode_utf8(a) + encode_utf8(b) =~= encode_utf8(b));
    } else {
        assert((a + b).drop_first() =~= a.drop_first() + b);
        lemma_encode_add(a.drop_first(), b);
        let first = encode_scalar(a[0] as u32);
        assert(first + (encode_utf8(a.drop_first()) + encode_utf8(b)) =~= first + encode_utf8(
            a.drop_first(),
        ) + encode_utf8(b));
    }
}

/// An ASCII character is its own byte, and of any other one no byte is ASCII.
proof fn lemma_encode_one(c: char)
    ensures
        encode_utf8(seq![c]) == encode_scalar(c as u32),
        (c as u32) < 128 ==> encode_scalar(c as u32) == seq![c as u8],
        (c as u32) < 128 ==> (c as u8 == 0x2f) == (c == '/') && (c as u8 == 0x2e) == (c == '.'),
        c == '/' || c == '.' ==> (c as u32) < 128,
        c as u32 >= 128 ==> encode_scalar(c as u32).len() > 0 && forall|i: int|
            0 <= i < encode_scalar(c as u32).len() ==> #[trigger] encode_scalar(c as u32)[i] >= 128,
{
    let v = c as u32;
    assert(seq![c].drop_first() =~= Seq::<char>::empty());
    assert(encode_utf8(Seq::<char>::empty()) =~= Seq::<u8>::empty());
    assert(encode_scalar(v) + Seq::<u8>::empty() =~= encode_scalar(v));
    vstd::utf8::char_is_scalar(c);
    if v < 128 {
        assert(vstd::utf8::leading_byte_width_1(v) == v as u8) by (bit_vector)
            requires
                v < 128,
        ;
    } else {
        assert(vstd::utf8::has_width_2_encoding(v) ==> vstd::utf8::leading_byte_width_2(v) >= 128)
            by (bit_vector);
        assert(vstd::utf8::has_width_3_encoding(v) ==> vstd::utf8::leading_byte_width_3(v) >= 128)
            by (bit_vector);
        assert(vstd::utf8::has_width_4_encoding(v) ==> vstd::utf8::leading_byte_width_4(v) >= 128)
            by (bit_vector);
        assert(vstd::utf8::last_continuation_byte(v) >= 128) by (bit_vector);
        assert(vstd::utf8::second_last_continuation_byte(v) >= 128) by (bit_vector);
        assert(vstd::utf8::third_last_continuation_byte(v) >= 128) by (bit_vector);
    }
}

/// The encoding of a text ends with the encoding of its last character.
proof fn lemma_encode_last(s: Seq<char>)
    requires
        s.len() > 0,
    ensures
        encode_utf8(s) == encode_utf8(s.drop_last()) + encode_scalar(s.last() as u32),
        encode_utf8(s).len() > 0,
        s.last() == '/' || s.last() == '.' ==> encode_utf8(s) == encode_utf8(s.drop_last()).push(
            s.last() as u8,
        ),
        (encode_utf8(s).last() == 0x2f) == (s.last() == '/'),
        (encode_utf8(s).last() == 0x2e) == (s.last() == '.'),
{
    let c = s.last();
    assert(s =~= s.drop_last() + seq![c]);
    lemma_encode_add(s.drop_last(), seq![c]);
    lemma_encode_one(c);
    let tail = encode_scalar(c as u32);
    assert(encode_utf8(s).last() == tail.last());
    if (c as u32) < 128 {
        assert(encode_utf8(s.drop_last()) + seq![c as u8] =~= encode_utf8(s.drop_last()).push(
            c as u8,
        ));
        assert(tail.last() == c as u8);
    } else {
        assert(tail[tail.len() - 1] >= 128);
    }
}

proof fn lemma_encode_settled(s: Seq<char>)
    ensures
        settled(encode_utf8(s), 0x2fu8, 0x2eu8) == encode_utf8(settled(s, '/', '.')),
    decreases s.len(),
{
    let e = encode_utf8(s);
    if s.len() == 0 {
        assert(e =~= Seq::<u8>::empty());
    } else {
        lemma_encode_last(s);
        let front = s.drop_last();
        let f = encode_utf8(front);
        if s.last() == '/' {
            assert(e.drop_last() =~= f);
            lemma_encode_settled(front);
        } else if s.last() == '.' {
            assert(e.drop_last() =~= f);
            if front.len() > 0 {
                lemma_encode_last(front);
                assert(f.len() > 0 ==> e[e.len() - 2] == f.last());
                if front.last() == '/' {
                    assert(s[s.len() - 2] == '/');
                    assert(s.take(s.len() - 2) =~= front.drop_last());
                    assert(e.take(e.len() - 2) =~= encode_utf8(front.drop_last()));
                    lemma_encode_settled(s.take(s.len() - 2));
                } else {
                    assert(s[s.len() - 2] == front.last());
                }
            } else {
                assert(f =~= Seq::<u8>::empty());
            }
        }
    }
}

proof fn lemma_last_part_add(x: Seq<u8>, y: Seq<u8>, slash: u8)
    requires
        forall|i: int| 0 <= i < y.len() ==> #[trigger] y[i] != slash,
    ensures
        last_part(x + y, slash) == last_part(x, slash) + y,
    decreases y.len(),
{
    if y.len() == 0 {
        assert(x + y =~= x);
        assert(last_part(x, slash) + y =~= last_part(x, slash));
    } else {
        assert((x + y).last() == y[y.len() - 1]);
        assert((x + y).drop_last() =~= x + y.drop_last());
        lemma_last_part_add(x, y.drop_last(), slash);
        assert((last_part(x, slash) + y.drop_last()).push(y.last()) =~= last_part(x, slash) + y);
    }
}

proof fn lemma_encode_last_part(s: Seq<char>)
    ensures
        last_part(encode_utf8(s), 0x2fu8) == encode_utf8(last_part(s, '/')),
    decreases s.len(),
{
    if s.len() == 0 {
        assert(encode_utf8(s) =~= Seq::<u8>::empty());
    } else {
        lemma_encode_last(s);
        if s.last() == '/' {
            assert(encode_utf8(Seq::<char>::empty()) =~= Seq::<u8>::empty());
        } else {
            let front = s.drop_last();
            let c = s.last();
            let tail = encode_scalar(c as u32);
            lemma_encode_one(c);
            lemma_encode_last_part(front);
            assert forall|i: int| 0 <= i < tail.len() implies #[trigger] tail[i] != 0x2f by {
                if (c as u32) < 128 {
                    assert(tail[0] == tail.last());
                }
            }
            lemma_last_part_add(encode_utf8(front), tail, 0x2f);
            let part = last_part(front, '/');
            assert(part.push(c) =~= part + seq![c]);
            lemma_encode_add(part, seq![c]);
        }
    }
}

proof fn lemma_last_place_add(x: Seq<u8>, y: Seq<u8>, dot: u8)
    requires
        forall|i: int| 0 <= i < y.len() ==> #[trigger] y[i] != dot,
    ensures
        last_place(x + y, dot) == last_place(x, dot),
    decreases y.len(),
{
    if y.len() == 0 {
        assert(x + y =~= x);
    } else {
        assert((x + y).last() == y[y.len() - 1]);
        assert((x + y).drop_last() =~= x + y.drop_last());
        lemma_last_place_add(x, y.drop_last(), dot);
    }
}

proof fn lemma_encode_last_place(s: Seq<char>)
    ensures
        ({
            let k = last_place(s, '.');
            &&& -1 <= k < s.len()
            &&& last_place(encode_utf8(s), 0x2eu8) == (if k < 0 {
                -1
            } else {
                encode_utf8(s.take(k)).len() as int
            })
        }),
    decreases s.len(),
{
    if s.len() == 0 {
        assert(encode_utf8(s) =~= Seq::<u8>::empty());
    } else {
        lemma_encode_last(s);
        let front = s.drop_last();
        if s.last() == '.' {
            assert(s.take(s.len() - 1) =~= front);
        } else {
            let c = s.last();
            let tail = encode_scalar(c as u32);
            lemma_encode_one(c);
            lemma_encode_last_place(front);
            assert forall|i: int| 0 <= i < tail.len() implies #[trigger] tail[i] != 0x2e by {
                if (c as u32) < 128 {
                    assert(tail[0] == tail.last());
                }
            }
            lemma_last_place_add(encode_utf8(front), tail, 0x2e);
            let k = last_place(front, '.');
            if k >= 0 {
                assert(s.take(k) =~= front.take(k));
            }
        }
    }
}

proof fn lemma_encode_stem_part(s: Seq<char>)
    ensures
        stem_part(encode_utf8(s), 0x2eu8) == encode_utf8(stem_part(s, '.')),
{
    lemma_encode_last_place(s);
    let k = last_place(s, '.');
    if k >= 0 {
        let front = s.take(k);
        if k == 0 {
            assert(encode_utf8(front) =~= Seq::<u8>::empty());
        } else {
            lemma_encode_last(front);
            assert(s =~= front + s.skip(k));
            lemma_encode_add(front, s.skip(k));
            assert(encode_utf8(s).take(encode_utf8(front).len() as int) =~= encode_utf8(front));
        }
    }
}

/// Law: a path that is text has a stem that is text. Taking its bytes apart and taking its characters
/// apart come to the same.
pub proof fn law_text_paths_have_text_stems(path: Seq<char>)
    ensures
        byte_stem(encode_utf8(path)) == (match text_stem(path) {
            Some(stem) => Some(encode_utf8(stem)),
            None => None::<Seq<u8>>,
        }),
{
    lemma_encode_settled(path);
    let whole = settled(path, '/', '.');
    lemma_encode_last_part(whole);
    let file = last_part(whole, '/');
    let bytes = encode_utf8(file);
    lemma_encode_stem_part(file);
    if file.len() > 0 {
        lemma_encode_last(file);
    } else {
        assert(bytes =~= Seq::<u8>::empty());
    }
    let one = seq!['.'];
    let two = seq!['.', '.'];
    assert(encode_utf8(one) =~= seq![0x2eu8]) by {
        lemma_encode_one('.');
    }
    assert(encode_utf8(two) =~= seq![0x2eu8, 0x2eu8]) by {
        lemma_encode_last(two);
        assert(two.drop_last() =~= one);
    }
    vstd::utf8::encode_utf8_decode_utf8(file);
    vstd::utf8::encode_utf8_decode_utf8(one);
    vstd::utf8::encode_utf8_decode_utf8(two);
}

/// The text holds the character nowhere.
pub open spec fn free_of<T>(s: Seq<T>, c: T) -> bool {
    forall|i: int| 0 <= i < s.len() ==> #[trigger] s[i] != c
}

proof fn lemma_last_part_behind<T>(dir: Seq<T>, file: Seq<T>, slash: T)
    requires
        free_of(file, slash),
        dir.len() == 0 || dir.last() == slash,
    ensures
        last_part(dir + file, slash) == file,
    decreases file.len(),
{
    if file.len() == 0 {
        assert(dir + file =~= dir);
        assert(last_part(dir, slash) =~= file);
    } else {
        assert((dir + file).last() == file[file.len() - 1]);
        assert((dir + file).drop_last() =~= dir + file.drop_last());
        lemma_last_part_behind(dir, file.drop_last(), slash);
        assert(file.drop_last().push(file.last()) =~= file);
    }
}

proof fn lemma_last_place_behind<T>(stem: Seq<T>, extension: Seq<T>, dot: T)
    requires
        free_of(extension, dot),
    ensures
        last_place(stem.push(dot) + extension, dot) == stem.len(),
    decreases extension.len(),
{
    let s = stem.push(dot) + extension;
    if extension.len() == 0 {
        assert(s =~= stem.push(dot));
    } else {
        assert(s.last() == extension[extension.len() - 1]);
        assert(s.drop_last() =~= stem.push(dot) + extension.drop_last());
        lemma_last_place_behind(stem, extension.drop_last(), dot);
    }
}

proof fn lemma_last_place_none<T>(s: Seq<T>, dot: T)
    requires
        free_of(s, dot),
    ensures
        last_place(s, dot) == -1,
    decreases s.len(),
{
    if s.len() > 0 {
        assert(s.last() == s[s.len() - 1]);
        lemma_last_place_none(s.drop_last(), dot);
    }
}

/// Law: the stem of a path is what stands between its last slash and the last dot behind that, as
/// long as that is not empty; the extension is what follows the dot.
pub proof fn law_a_stem_is_the_name_without_extension<T>(
    dir: Seq<T>,
    stem: Seq<T>,
    extension: Seq<T>,
    slash: T,
    dot: T,
)
    requires
        slash != dot,
        dir.len() == 0 || dir.last() == slash,
        stem.len() > 0,
        free_of(stem, slash),
        extension.len() > 0,
        free_of(extension, slash),
        free_of(extension, dot),
    ensures
        stem_of(dir + (stem.push(dot) + extension), slash, dot) == Some(stem),
{
    let file = stem.push(dot) + extension;
    let path = dir + file;
    assert(path.last() == extension[extension.len() - 1]);
    assert(settled(path, slash, dot) == path);
    assert forall|i: int| 0 <= i < file.len() implies #[trigger] file[i] != slash by {
        if i < stem.len() {
            assert(file[i] == stem[i]);
        } else if i > stem.len() {
            assert(file[i] == extension[i - stem.len() - 1]);
        }
    }
    lemma_last_part_behind(dir, file, slash);
    lemma_last_place_behind(stem, extension, dot);
    assert(file.take(stem.len() as int) =~= stem);
    assert(file.len() >= 3);
}

/// Law: the stem of a path that ends with a name without a dot is that name.
pub proof fn law_a_name_without_a_dot_is_its_stem<T>(dir: Seq<T>, name: Seq<T>, slash: T, dot: T)
    requires
        slash != dot,
        dir.len() == 0 || dir.last() == slash,
        name.len() > 0,
        free_of(name, slash),
        free_of(name, dot),
    ensures
        stem_of(dir + name, slash, dot) == Some(name),
{
    let path = dir + name;
    assert(path.last() == name[name.len() - 1]);
    assert(settled(path, slash, dot) == path);
    lemma_last_part_behind(dir, name, slash);
    lemma_last_place_none(name, dot);
    assert(name[0] != dot);
    assert(name != seq![dot]) by {
        if name == seq![dot] {
            assert(name[0] == dot);
        }
    }
    assert(name != seq![dot, dot]) by {
        if name == seq![dot, dot] {
            assert(name[0] == dot);
        }
    }
}

/// Law: text paths are parted by slashes, and a dot sets off the extension.
pub proof fn law_stems_of_text(dir: Seq<char>, stem: Seq<char>, extension: Seq<char>)
    requires
        dir.len() == 0 || dir.last() == '/',
        stem.len() > 0,
        free_of(stem, '/'),
        extension.len() > 0,
        free_of(extension, '/'),
        free_of(extension, '.'),
    ensures
        text_stem(dir + (stem.push('.') + extension)) == Some(stem),
{
    law_a_stem_is_the_name_without_extension(dir, stem, extension, '/', '.');
}

/// Law: slashes at the end of a path, and a single dot behind a slash there, make no difference.
pub proof fn law_the_end_of_a_path_is_settled<T>(path: Seq<T>, slash: T, dot: T)
    requires
        slash != dot,
    ensures
        stem_of(path.push(slash), slash, dot) == stem_of(path, slash, dot),
        stem_of(path.push(slash).push(dot), slash, dot) == stem_of(path, slash, dot),
{
    let one = path.push(slash);
    let two = one.push(dot);
    assert(one.drop_last() =~= path);
    assert(two.take(two.len() - 2) =~= path);
    assert(two[two.len() - 2] == slash);
}

/// Law: the directory itself and the one above have no stem, nor has an empty path; a name that
/// starts with its only dot is its own stem.
pub proof fn law_directories_have_no_stem<T>(dir: Seq<T>, name: Seq<T>, slash: T, dot: T)
    requires
        slash != dot,
        dir.len() == 0 || dir.last() == slash,
        name.len() > 0,
        free_of(name, slash),
        free_of(name, dot),
    ensures
        stem_of(Seq::<T>::empty(), slash, dot) is None,
        stem_of(seq![dot], slash, dot) is None,
        stem_of(dir + seq![dot, dot], slash, dot) is None,
        stem_of(dir + (seq![dot] + name), slash, dot) == Some(seq![dot] + name),
{
    let none = Seq::<T>::empty();
    let above = seq![dot, dot];
    assert(free_of(above, slash));
    assert((dir + above).last() == dot);
    assert((dir + above)[(dir + above).len() - 2] == dot);
    lemma_last_part_behind(dir, above, slash);
    lemma_last_part_behind(none, seq![dot], slash);
    assert(none + seq![dot] =~= seq![dot]);
    let hidden = seq![dot] + name;
    let path = dir + hidden;
    assert(path.last() == name[name.len() - 1]);
    assert forall|i: int| 0 <= i < hidden.len() implies #[trigger] hidden[i] != slash by {
        if i > 0 {
            assert(hidden[i] == name[i - 1]);
        }
    }
    lemma_last_part_behind(dir, hidden, slash);
    lemma_last_place_behind(none, name, dot);
    assert(none.push(dot) + name =~= hidden);
    assert(hidden.last() == name[name.len() - 1]);
}

} // verus!
