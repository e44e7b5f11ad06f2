//! Character-level helpers: whitespace, trimming, words and lines.
//!
//! Specifications speak of a text as a `Seq<char>`; the executable
//! functions work on the characters of a string held in a `Vec<char>`.

use vstd::prelude::*;
use vstd::std_specs::iter::IteratorSpec;
use vstd::string::*;
use vstd::utf8::*;

verus! {

/// Whether `c` carries the Unicode `White_Space` property.
pub open spec fn is_space(c: char) -> bool {
    let n = c as u32;
    ||| 0x09 <= n <= 0x0D
    ||| n == 0x20
    ||| n == 0x85
    ||| n == 0xA0
    ||| n == 0x1680
    ||| 0x2000 <= n <= 0x200A
    ||| n == 0x2028
    ||| n == 0x2029
    ||| n == 0x202F
    ||| n == 0x205F
    ||| n == 0x3000
}

/// Whether every character of `s` is whitespace (true of the empty text).
pub open spec fn is_blank(s: Seq<char>) -> bool {
    forall|i: int| 0 <= i < s.len() ==> is_space(#[trigger] s[i])
}

/// Index of the first character at or after `from` that is not whitespace,
/// or `s.len()` if only whitespace follows.
pub open spec fn spaces_end(s: Seq<char>, from: int) -> int
    decreases s.len() - from,
{
    if 0 <= from < s.len() && is_space(s[from]) {
        spaces_end(s, from + 1)
    } else {
        from
    }
}

/// Index of the first whitespace character at or after `from`, or `s.len()`
/// if none follows.
pub open spec fn word_end(s: Seq<char>, from: int) -> int
    decreases s.len() - from,
{
    if 0 <= from < s.len() && !is_space(s[from]) {
        word_end(s, from + 1)
    } else {
        from
    }
}

/// Index just past the last character before `to` that is not whitespace, or
/// `0` if only whitespace precedes.
pub open spec fn spaces_start(s: Seq<char>, to: int) -> int
    decreases to,
{
    if 0 < to <= s.len() && is_space(s[to - 1]) {
        spaces_start(s, to - 1)
    } else {
        to
    }
}

/// `s` without its leading and trailing whitespace.
pub open spec fn trim(s: Seq<char>) -> Seq<char> {
    let a = spaces_end(s, 0);
    let b = spaces_start(s, s.len() as int);
    if a < b {
        s.subrange(a, b)
    } else {
        Seq::empty()
    }
}

/// The first whitespace-delimited word of `s`; empty exactly when `s` is blank.
pub open spec fn first_word(s: Seq<char>) -> Seq<char> {
    let a = spaces_end(s, 0);
    s.subrange(a, word_end(s, a))
}

/// Index of the first line feed at or after `from`, or `s.len()` if none follows.
pub open spec fn line_end(s: Seq<char>, from: int) -> int
    decreases s.len() - from,
{
    if 0 <= from < s.len() && s[from] != '\n' {
        line_end(s, from + 1)
    } else {
        from
    }
}

/// Whether `s` is what trimming leaves untouched and is worth keeping: it is
/// not empty and neither starts nor ends with whitespace.
pub open spec fn is_trimmed(s: Seq<char>) -> bool {
    s.len() > 0 && !is_space(s[0]) && !is_space(s[s.len() - 1])
}

/// Whether `s` holds no line feed.
pub open spec fn is_single_line(s: Seq<char>) -> bool {
    forall|i: int| 0 <= i < s.len() ==> #[trigger] s[i] != '\n'
}

/// `spaces_end` stays within the text, skips whitespace only, and stops at a
/// character that is not whitespace.
pub proof fn lemma_spaces_end(s: Seq<char>, from: int)
    requires
        0 <= from <= s.len(),
    ensures
        from <= spaces_end(s, from) <= s.len(),
        forall|i: int| from <= i < spaces_end(s, from) ==> is_space(#[trigger] s[i]),
        spaces_end(s, from) < s.len() ==> !is_space(s[spaces_end(s, from)]),
    decreases s.len() - from,
{
    if from < s.len() && is_space(s[from]) {
        lemma_spaces_end(s, from + 1);
    }
}

/// `word_end` stays within the text, skips no whitespace, and stops at
/// whitespace or at the end.
pub proof fn lemma_word_end(s: Seq<char>, from: int)
    requires
        0 <= from <= s.len(),
    ensures
        from <= word_end(s, from) <= s.len(),
        forall|i: int| from <= i < word_end(s, from) ==> !is_space(#[trigger] s[i]),
        word_end(s, from) < s.len() ==> is_space(s[word_end(s, from)]),
    decreases s.len() - from,
{
    if from < s.len() && !is_space(s[from]) {
        lemma_word_end(s, from + 1);
    }
}

/// `spaces_start` stays within the text, skips whitespace only, and stops
/// just past a character that is not whitespace.
pub proof fn lemma_spaces_start(s: Seq<char>, to: int)
    requires
        0 <= to <= s.len(),
    ensures
        0 <= spaces_start(s, to) <= to,
        forall|i: int| spaces_start(s, to) <= i < to ==> is_space(#[trigger] s[i]),
        spaces_start(s, to) > 0 ==> !is_space(s[spaces_start(s, to) - 1]),
    decreases to,
{
    if 0 < to && is_space(s[to - 1]) {
        lemma_spaces_start(s, to - 1);
    }
}

/// `line_end` stays within the text, passes no line feed, and stops at a line
/// feed or at the end.
pub proof fn lemma_line_end(s: Seq<char>, from: int)
    requires
        0 <= from <= s.len(),
    ensures
        from <= line_end(s, from) <= s.len(),
        forall|i: int| from <= i < line_end(s, from) ==> #[trigger] s[i] != '\n',
        line_end(s, from) < s.len() ==> s[line_end(s, from)] == '\n',
    decreases s.len() - from,
{
    if from < s.len() && s[from] != '\n' {
        lemma_line_end(s, from + 1);
    }
}

/// A blank text has no first word and trims to nothing; any other text has a
/// first word that is not empty and holds no whitespace.
pub proof fn lemma_first_word(s: Seq<char>)
    ensures
        is_blank(s) <==> first_word(s).len() == 0,
        is_blank(s) <==> trim(s).len() == 0,
        forall|i: int| 0 <= i < first_word(s).len() ==> !is_space(#[trigger] first_word(s)[i]),
{
    let a = spaces_end(s, 0);
    lemma_spaces_end(s, 0);
    lemma_word_end(s, a);
    lemma_spaces_start(s, s.len() as int);
    let b = spaces_start(s, s.len() as int);
    if a < s.len() {
        assert(!is_space(s[a]));
        assert(word_end(s, a) > a);
        if b <= a {
            assert(is_space(s[a]));
        }
    } else {
        assert forall|i: int| 0 <= i < s.len() implies is_space(#[trigger] s[i]) by {}
        if b > 0 {
            assert(!is_space(s[b - 1]));
        }
    }
}

/// Trimming a text that neither starts nor ends with whitespace changes nothing.
pub proof fn lemma_trim_of_trimmed(s: Seq<char>)
    requires
        is_trimmed(s),
    ensures
        trim(s) == s,
{
    assert(spaces_end(s, 0) == 0);
    assert(spaces_start(s, s.len() as int) == s.len());
    assert(s.subrange(0, s.len() as int) =~= s);
}

/// Tests a character for the Unicode `White_Space` property.
pub fn is_whitespace(c: char) -> (r: bool)
    ensures
        r == is_space(c),
{
    let n: u32 = c as u32;
    (0x09 <= n && n <= 0x0D) || n == 0x20 || n == 0x85 || n == 0xA0 || n == 0x1680 || (0x2000 <= n
        && n <= 0x200A) || n == 0x2028 || n == 0x2029 || n == 0x202F || n == 0x205F || n == 0x3000
}

/// The characters of `s`, in order.
pub fn chars_of(s: &str) -> (r: Vec<char>)
    ensures
        r@ == s@,
{
    broadcast use vstd::string::group_string_axioms;

    let mut it = s.chars();
    let mut out: Vec<char> = Vec::new();
    assert(out@ + it.remaining() =~= s@);
    loop
        invariant_except_break
            it.obeys_prophetic_iter_laws(),
            it.decrease() is Some,
            out@ + it.remaining() == s@,
        ensures
            out@ == s@,
        decreases it.decrease()->0,
    {
        let ghost before = it.remaining();
        match it.next() {
            Some(c) => {
                out.push(c);
                assert(out@ + it.remaining() =~= s@);
            },
            None => {
                assert(out@ + before =~= out@);
                break;
            },
        }
    }
    out
}

/// Whether `a` and `b` hold the same characters.
pub fn str_eq(a: &str, b: &str) -> (r: bool)
    ensures
        r == (a@ == b@),
{
    let x = a.as_bytes();
    let y = b.as_bytes();
    proof {
        encode_utf8_decode_utf8(a@);
        encode_utf8_decode_utf8(b@);
    }
    if x.len() != y.len() {
        return false;
    }
    let mut i: usize = 0;
    while i < x.len()
        invariant
            x@ == encode_utf8(a@),
            y@ == encode_utf8(b@),
            x@.len() == y@.len(),
            i <= x@.len(),
            forall|k: int| 0 <= k < i ==> x@[k] == y@[k],
        decreases x.len() - i,
    {
        if x[i] != y[i] {
            return false;
        }
        i += 1;
    }
    assert(x@ =~= y@);
    true
}

/// Skips whitespace from `from` on.
pub fn skip_spaces(v: &Vec<char>, from: usize) -> (r: usize)
    requires
        from <= v.len(),
    ensures
        r == spaces_end(v@, from as int),
        from <= r <= v.len(),
{
    let mut i: usize = from;
    while i < v.len() && is_whitespace(v[i])
        invariant
            from <= i <= v.len(),
            spaces_end(v@, from as int) == spaces_end(v@, i as int),
        decreases v.len() - i,
    {
        i += 1;
    }
    i
}

/// Skips characters that are not whitespace from `from` on.
pub fn skip_word(v: &Vec<char>, from: usize) -> (r: usize)
    requires
        from <= v.len(),
    ensures
        r == word_end(v@, from as int),
        from <= r <= v.len(),
{
    let mut i: usize = from;
    while i < v.len() && !is_whitespace(v[i])
        invariant
            from <= i <= v.len(),
            word_end(v@, from as int) == word_end(v@, i as int),
        decreases v.len() - i,
    {
        i += 1;
    }
    i
}

/// Walks back over whitespace that ends at `to`.
pub fn skip_spaces_back(v: &Vec<char>, to: usize) -> (r: usize)
    requires
        to <= v.len(),
    ensures
        r == spaces_start(v@, to as int),
        r <= to,
{
    let mut i: usize = to;
    while i > 0 && is_whitespace(v[i - 1])
        invariant
            i <= to <= v.len(),
            spaces_start(v@, to as int) == spaces_start(v@, i as int),
        decreases i,
    {
        i -= 1;
    }
    i
}

/// Skips to the next line feed from `from` on.
pub fn skip_line(v: &Vec<char>, from: usize) -> (r: usize)
    requires
        from <= v.len(),
    ensures
        r == line_end(v@, from as int),
        from <= r <= v.len(),
{
    let mut i: usize = from;
    while i < v.len() && v[i] != '\n'
        invariant
            from <= i <= v.len(),
            line_end(v@, from as int) == line_end(v@, i as int),
        decreases v.len() - i,
    {
        i += 1;
    }
    i
}

/// Whether the characters of `a` from `from` up to `to` spell `b`.
pub fn range_equals(a: &Vec<char>, from: usize, to: usize, b: &Vec<char>) -> (r: bool)
    requires
        from <= to <= a.len(),
    ensures
        r == (a@.subrange(from as int, to as int) == b@),
{
    if to - from != b.len() {
        return false;
    }
    let mut i: usize = 0;
    while i < b.len()
        invariant
            from <= to <= a.len(),
            to - from == b.len(),
            i <= b.len(),
            forall|k: int| 0 <= k < i ==> a@[from + k] == b@[k],
        decreases b.len() - i,
    {
        if a[from + i] != b[i] {
            assert(a@.subrange(from as int, to as int)[i as int] != b@[i as int]);
            return false;
        }
        i += 1;
    }
    assert(a@.subrange(from as int, to as int) =~= b@);
    true
}

/// Whether the characters of `a` from `from` up to `to` begin with the first
/// `len` characters of `b`.
pub fn range_starts_with(a: &Vec<char>, from: usize, to: usize, b: &Vec<char>, len: usize) -> (r:
    bool)
    requires
        from <= to <= a.len(),
        len <= b.len(),
    ensures
        r == b@.subrange(0, len as int).is_prefix_of(a@.subrange(from as int, to as int)),
{
    let ghost word = a@.subrange(from as int, to as int);
    let ghost prefix = b@.subrange(0, len as int);
    if to - from < len {
        return false;
    }
    let mut i: usize = 0;
    while i < len
        invariant
            from <= to <= a.len(),
            len <= b.len(),
            len <= to - from,
            i <= len,
            word == a@.subrange(from as int, to as int),
            prefix == b@.subrange(0, len as int),
            forall|k: int| 0 <= k < i ==> a@[from + k] == b@[k],
        decreases len - i,
    {
        if a[from + i] != b[i] {
            assert(word.subrange(0, prefix.len() as int)[i as int] != prefix[i as int]);
            return false;
        }
        i += 1;
    }
    assert(word.subrange(0, prefix.len() as int) =~= prefix);
    true
}

} // verus!
