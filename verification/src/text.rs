//! Text primitives over characters: trimming, splitting, joining and searching.
//!
//! The specification functions speak of `Seq<char>`, the view of `str` and
//! `String`; each executable function states its result over them.

use vstd::prelude::*;
use vstd::string::*;

verus! {

/// `String::push` appends one character at the end.
pub assume_specification[ String::push ](s: &mut String, ch: char)
    ensures
        final(s)@ == old(s)@.push(ch),
;

/// The characters with the Unicode property White_Space.
pub open spec fn is_white(c: char) -> bool {
    ||| '\u{9}' <= c <= '\u{d}'
    ||| c == ' '
    ||| c == '\u{85}'
    ||| c == '\u{a0}'
    ||| c == '\u{1680}'
    ||| '\u{2000}' <= c <= '\u{200a}'
    ||| c == '\u{2028}'
    ||| c == '\u{2029}'
    ||| c == '\u{202f}'
    ||| c == '\u{205f}'
    ||| c == '\u{3000}'
}

/// Whether `c` has the Unicode property White_Space.
pub fn is_whitespace(c: char) -> (r: bool)
    ensures
        r == is_white(c),
{
    ('\u{9}' <= c && c <= '\u{d}') || c == ' ' || c == '\u{85}' || c == '\u{a0}' || c == '\u{1680}'
        || ('\u{2000}' <= c && c <= '\u{200a}') || c == '\u{2028}' || c == '\u{2029}' || c
        == '\u{202f}' || c == '\u{205f}' || c == '\u{3000}'
}

/// The lower-case letter of an ASCII capital; every other character itself.
pub open spec fn lower(c: char) -> char {
    if 'A' <= c <= 'Z' {
        (c as u8 + 32) as char
    } else {
        c
    }
}

/// `s` with every ASCII capital in lower case.
pub open spec fn lower_all(s: Seq<char>) -> Seq<char> {
    s.map_values(|c: char| lower(c))
}

/// `c` in lower case, where it is an ASCII capital.
pub fn ascii_lower(c: char) -> (r: char)
    ensures
        r == lower(c),
{
    if 'A' <= c && c <= 'Z' {
        (c as u8 + 32) as char
    } else {
        c
    }
}

/// The characters of `s` in order.
pub fn chars_of(s: &str) -> (v: Vec<char>)
    ensures
        v@ == s@,
{
    let mut v: Vec<char> = Vec::new();
    for c in it: s.chars()
        invariant
            it.seq() == s@,
            v@ == s@.take(it.index() as int),
    {
        v.push(c);
        assert(s@.take(it.index() + 1) == s@.take(it.index() as int).push(c));
    }
    assert(s@.take(s@.len() as int) == s@);
    v
}

/// The text made of the characters of `v`.
pub fn text_of(v: &Vec<char>) -> (s: String)
    ensures
        s@ == v@,
{
    let mut s = String::new();
    let mut i: usize = 0;
    while i < v.len()
        invariant
            i <= v.len(),
            s@ == v@.take(i as int),
        decreases v.len() - i,
    {
        s.push(v[i]);
        i = i + 1;
    }
    assert(v@.take(v@.len() as int) == v@);
    s
}

/// Whether two texts hold the same characters.
pub fn same(a: &str, b: &str) -> (r: bool)
    ensures
        r == (a@ == b@),
{
    a.to_owned() == b.to_owned()
}

// ---------------------------------------------------------------- trimming
/// The predicate "is white space", as a value.
pub open spec fn white() -> spec_fn(char) -> bool {
    |c: char| is_white(c)
}

/// The predicate "is `a` or `b`", as a value.
pub open spec fn either(a: char, b: char) -> spec_fn(char) -> bool {
    |c: char| c == a || c == b
}

/// `s` without its longest prefix of characters that meet `p`.
pub open spec fn drop_start(s: Seq<char>, p: spec_fn(char) -> bool) -> Seq<char>
    decreases s.len(),
{
    if s.len() > 0 && p(s[0]) {
        drop_start(s.drop_first(), p)
    } else {
        s
    }
}

/// `s` without its longest suffix of characters that meet `p`.
pub open spec fn drop_end(s: Seq<char>, p: spec_fn(char) -> bool) -> Seq<char>
    decreases s.len(),
{
    if s.len() > 0 && p(s.last()) {
        drop_end(s.drop_last(), p)
    } else {
        s
    }
}

/// `s` without trailing white space.
pub open spec fn trimmed_end(s: Seq<char>) -> Seq<char> {
    drop_end(s, white())
}

/// `s` without leading and trailing white space.
pub open spec fn trimmed(s: Seq<char>) -> Seq<char> {
    drop_end(drop_start(s, white()), white())
}

/// The longest prefix of `s` in which no character meets `p`.
pub open spec fn until(s: Seq<char>, p: spec_fn(char) -> bool) -> Seq<char>
    decreases s.len(),
{
    if s.len() == 0 || p(s[0]) {
        seq![]
    } else {
        seq![s[0]] + until(s.drop_first(), p)
    }
}

/// `drop_start` drops exactly the first `k` characters when those meet `p`
/// and the next one does not.
pub proof fn lemma_drop_start(s: Seq<char>, p: spec_fn(char) -> bool, k: int)
    requires
        0 <= k <= s.len(),
        forall|i: int| 0 <= i < k ==> p(#[trigger] s[i]),
        k < s.len() ==> !p(s[k]),
    ensures
        drop_start(s, p) == s.skip(k),
    decreases k,
{
    if k == 0 {
        assert(s.skip(0) == s);
    } else {
        let t = s.drop_first();
        assert forall|i: int| 0 <= i < k - 1 implies p(#[trigger] t[i]) by {
            assert(t[i] == s[i + 1]);
        }
        lemma_drop_start(t, p, k - 1);
        assert(t.skip(k - 1) == s.skip(k));
    }
}

/// `drop_end` keeps exactly the first `k` characters when all later ones meet
/// `p` and the one before them does not.
pub proof fn lemma_drop_end(s: Seq<char>, p: spec_fn(char) -> bool, k: int)
    requires
        0 <= k <= s.len(),
        forall|i: int| k <= i < s.len() ==> p(#[trigger] s[i]),
        k > 0 ==> !p(s[k - 1]),
    ensures
        drop_end(s, p) == s.take(k),
    decreases s.len() - k,
{
    if k == s.len() {
        assert(s.take(k) == s);
    } else {
        let t = s.drop_last();
        assert forall|i: int| k <= i < t.len() implies p(#[trigger] t[i]) by {
            assert(t[i] == s[i]);
        }
        lemma_drop_end(t, p, k);
        assert(t.take(k) == s.take(k));
    }
}

/// `until` keeps exactly the first `k` characters when none of those meets `p`
/// and the next one does.
pub proof fn lemma_until(s: Seq<char>, p: spec_fn(char) -> bool, k: int)
    requires
        0 <= k <= s.len(),
        forall|i: int| 0 <= i < k ==> !p(#[trigger] s[i]),
        k < s.len() ==> p(s[k]),
    ensures
        until(s, p) == s.take(k),
    decreases k,
{
    if k == 0 {
        assert(s.take(0) == Seq::<char>::empty());
    } else {
        let t = s.drop_first();
        assert forall|i: int| 0 <= i < k - 1 implies !p(#[trigger] t[i]) by {
            assert(t[i] == s[i + 1]);
        }
        lemma_until(t, p, k - 1);
        assert(seq![s[0]] + t.take(k - 1) == s.take(k));
    }
}

/// What `drop_end` leaves is a prefix that does not end in a character of `p`,
/// and all that it drops meets `p`.
pub proof fn lemma_drop_end_shape(s: Seq<char>, p: spec_fn(char) -> bool)
    ensures
        drop_end(s, p).len() <= s.len(),
        drop_end(s, p) == s.take(drop_end(s, p).len() as int),
        drop_end(s, p).len() > 0 ==> !p(drop_end(s, p).last()),
        forall|i: int| drop_end(s, p).len() <= i < s.len() ==> p(#[trigger] s[i]),
    decreases s.len(),
{
    if s.len() > 0 && p(s.last()) {
        let t = s.drop_last();
        lemma_drop_end_shape(t, p);
        let n = drop_end(t, p).len() as int;
        assert(t.take(n) == s.take(n));
        assert forall|i: int| n <= i < s.len() implies p(#[trigger] s[i]) by {
            if i < t.len() {
                assert(t[i] == s[i]);
            }
        }
    } else {
        assert(s.take(s.len() as int) == s);
    }
}

/// What `drop_start` leaves is a suffix that does not begin with a character of
/// `p`, and all that it drops meets `p`.
pub proof fn lemma_drop_start_shape(s: Seq<char>, p: spec_fn(char) -> bool)
    ensures
        drop_start(s, p).len() <= s.len(),
        drop_start(s, p) == s.skip(s.len() - drop_start(s, p).len()),
        drop_start(s, p).len() > 0 ==> !p(drop_start(s, p)[0]),
        forall|i: int| 0 <= i < s.len() - drop_start(s, p).len() ==> p(#[trigger] s[i]),
    decreases s.len(),
{
    if s.len() > 0 && p(s[0]) {
        let t = s.drop_first();
        lemma_drop_start_shape(t, p);
        let n = t.len() - drop_start(t, p).len();
        assert(t.skip(n) == s.skip(n + 1));
        assert forall|i: int| 0 <= i < n + 1 implies p(#[trigger] s[i]) by {
            if i > 0 {
                assert(t[i - 1] == s[i]);
            }
        }
    } else {
        assert(s.skip(0) == s);
    }
}

/// The text of `s` from its first to its last character that is not white space.
pub fn trim(s: &str) -> (r: &str)
    ensures
        r@ == trimmed(s@),
{
    let v = chars_of(s);
    let mut start: usize = 0;
    while start < v.len() && is_whitespace(v[start])
        invariant
            start <= v.len(),
            forall|i: int| 0 <= i < start ==> is_white(#[trigger] v@[i]),
        decreases v.len() - start,
    {
        start = start + 1;
    }
    let mut end: usize = v.len();
    while end > start && is_whitespace(v[end - 1])
        invariant
            start <= end <= v.len(),
            forall|i: int| end <= i < v.len() ==> is_white(#[trigger] v@[i]),
        decreases end,
    {
        end = end - 1;
    }
    proof {
        lemma_drop_start(s@, white(), start as int);
        let t = s@.skip(start as int);
        assert forall|i: int| end - start <= i < t.len() implies white()(#[trigger] t[i]) by {
            assert(t[i] == v@[i + start]);
        }
        lemma_drop_end(t, white(), end - start);
        assert(t.take(end - start) == s@.subrange(start as int, end as int));
    }
    s.substring_char(start, end)
}

/// `s` without trailing white space.
pub fn trim_end(s: &str) -> (r: &str)
    ensures
        r@ == trimmed_end(s@),
{
    let v = chars_of(s);
    let mut end: usize = v.len();
    while end > 0 && is_whitespace(v[end - 1])
        invariant
            end <= v.len(),
            forall|i: int| end <= i < v.len() ==> is_white(#[trigger] v@[i]),
        decreases end,
    {
        end = end - 1;
    }
    proof {
        lemma_drop_end(s@, white(), end as int);
    }
    s.substring_char(0, end)
}

/// `s` without the `a` and `b` at its end.
pub fn trim_end_of(s: &str, a: char, b: char) -> (r: &str)
    ensures
        r@ == drop_end(s@, either(a, b)),
{
    let v = chars_of(s);
    let mut end: usize = v.len();
    while end > 0 && (v[end - 1] == a || v[end - 1] == b)
        invariant
            end <= v.len(),
            forall|i: int| end <= i < v.len() ==> either(a, b)(#[trigger] v@[i]),
        decreases end,
    {
        end = end - 1;
    }
    proof {
        lemma_drop_end(s@, either(a, b), end as int);
    }
    s.substring_char(0, end)
}

/// The part of `s` before the first `a` or `b`.
pub fn before_first(s: &str, a: char, b: char) -> (r: &str)
    ensures
        r@ == until(s@, either(a, b)),
{
    let v = chars_of(s);
    let mut k: usize = 0;
    while k < v.len() && v[k] != a && v[k] != b
        invariant
            k <= v.len(),
            forall|i: int| 0 <= i < k ==> !either(a, b)(#[trigger] v@[i]),
        decreases v.len() - k,
    {
        k = k + 1;
    }
    proof {
        lemma_until(s@, either(a, b), k as int);
    }
    s.substring_char(0, k)
}

/// The first run of characters that are not white space (empty when there is none).
pub open spec fn first_word(s: Seq<char>) -> Seq<char> {
    until(drop_start(s, white()), white())
}

/// The first word of `s`, empty when `s` holds only white space.
pub fn leading_word(s: &str) -> (r: &str)
    ensures
        r@ == first_word(s@),
{
    let v = chars_of(s);
    let mut start: usize = 0;
    while start < v.len() && is_whitespace(v[start])
        invariant
            start <= v.len(),
            forall|i: int| 0 <= i < start ==> is_white(#[trigger] v@[i]),
        decreases v.len() - start,
    {
        start = start + 1;
    }
    let mut end: usize = start;
    while end < v.len() && !is_whitespace(v[end])
        invariant
            start <= end <= v.len(),
            forall|i: int| start <= i < end ==> !is_white(#[trigger] v@[i]),
        decreases v.len() - end,
    {
        end = end + 1;
    }
    proof {
        lemma_drop_start(s@, white(), start as int);
        let t = s@.skip(start as int);
        assert forall|i: int| 0 <= i < end - start implies !white()(#[trigger] t[i]) by {
            assert(t[i] == v@[i + start]);
        }
        lemma_until(t, white(), end - start);
        assert(t.take(end - start) == s@.subrange(start as int, end as int));
    }
    s.substring_char(start, end)
}

/// The white space characters, by their code points.
pub proof fn law_white_space(c: char)
    ensures
        is_white(c) <==> {
            let n = c as u32;
            ||| 9 <= n <= 13
            ||| n == 32
            ||| n == 133
            ||| n == 160
            ||| n == 5760
            ||| 8192 <= n <= 8202
            ||| n == 8232
            ||| n == 8233
            ||| n == 8239
            ||| n == 8287
            ||| n == 12288
        },
{
}

/// The letter of the alphabet at a place has the small letter at the same place; every
/// other character stays.
pub proof fn law_lower(c: char, i: int)
    ensures
        0 <= i < 26 ==> lower("ABCDEFGHIJKLMNOPQRSTUVWXYZ"@[i])
            == "abcdefghijklmnopqrstuvwxyz"@[i],
        !"ABCDEFGHIJKLMNOPQRSTUVWXYZ"@.contains(c) ==> lower(c) == c,
{
    reveal_strlit("ABCDEFGHIJKLMNOPQRSTUVWXYZ");
    reveal_strlit("abcdefghijklmnopqrstuvwxyz");
    let upper = "ABCDEFGHIJKLMNOPQRSTUVWXYZ"@;
    if 'A' <= c <= 'Z' {
        let k = c as int - 'A' as int;
        assert(upper[k] == c);
    }
}

/// A text in lower case is the lower case of each of its characters.
pub proof fn law_lower_all(s: Seq<char>, i: int)
    requires
        0 <= i < s.len(),
    ensures
        lower_all(s).len() == s.len(),
        lower_all(s)[i] == lower(s[i]),
{
}

/// Whether every character of a text is white space.
pub open spec fn all_white(s: Seq<char>) -> bool {
    forall|i: int| 0 <= i < s.len() ==> is_white(#[trigger] s[i])
}

/// White space round a text that neither begins nor ends with any is trimmed, and nothing
/// else.
pub proof fn law_trimmed(before: Seq<char>, text: Seq<char>, after: Seq<char>)
    requires
        all_white(before),
        all_white(after),
        text.len() > 0 ==> !is_white(text[0]) && !is_white(text.last()),
    ensures
        trimmed(before + text + after) == text,
        text.len() > 0 ==> trimmed_end(before + text + after) == before + text,
        trimmed_end(after).len() == 0,
{
    let s = before + text + after;
    let k = if text.len() > 0 { before.len() as int } else { s.len() as int };
    assert forall|i: int| 0 <= i < k implies white()(#[trigger] s[i]) by {
        if i < before.len() {
            assert(s[i] == before[i]);
        } else {
            assert(s[i] == after[i - before.len()]);
        }
    }
    if text.len() > 0 {
        assert(s[k] == text[0]);
    }
    lemma_drop_start(s, white(), k);
    let t = s.skip(k);
    let n = text.len() as int;
    assert forall|i: int| n <= i < t.len() implies white()(#[trigger] t[i]) by {
        assert(t[i] == after[i - n]);
    }
    if n > 0 {
        assert(t[n - 1] == text.last());
    }
    lemma_drop_end(t, white(), n);
    assert(t.take(n) == text);
    if n > 0 {
        let m = (before + text).len() as int;
        assert forall|i: int| m <= i < s.len() implies white()(#[trigger] s[i]) by {
            assert(s[i] == after[i - m]);
        }
        assert(s[m - 1] == text.last());
        lemma_drop_end(s, white(), m);
        assert(s.take(m) == before + text);
    }
    assert forall|i: int| 0 <= i < after.len() implies white()(#[trigger] after[i]) by {}
    lemma_drop_end(after, white(), 0);
}

/// What is dropped at the end of a text are the characters that are asked for, all of
/// them.
pub proof fn law_drop_end(text: Seq<char>, after: Seq<char>, p: spec_fn(char) -> bool)
    requires
        text.len() > 0 ==> !p(text.last()),
        forall|i: int| 0 <= i < after.len() ==> p(#[trigger] after[i]),
    ensures
        drop_end(text + after, p) == text,
{
    let s = text + after;
    let n = text.len() as int;
    assert forall|i: int| n <= i < s.len() implies p(#[trigger] s[i]) by {
        assert(s[i] == after[i - n]);
    }
    if n > 0 {
        assert(s[n - 1] == text.last());
    }
    lemma_drop_end(s, p, n);
    assert(s.take(n) == text);
}

/// What stands before the first character that is asked for.
pub proof fn law_until(text: Seq<char>, c: char, after: Seq<char>, p: spec_fn(char) -> bool)
    requires
        forall|i: int| 0 <= i < text.len() ==> !p(#[trigger] text[i]),
        p(c),
    ensures
        until(text, p) == text,
        until(text + seq![c] + after, p) == text,
{
    let n = text.len() as int;
    lemma_until(text, p, n);
    assert(text.take(n) == text);
    let s = text + seq![c] + after;
    assert forall|i: int| 0 <= i < n implies !p(#[trigger] s[i]) by {
        assert(s[i] == text[i]);
    }
    assert(s[n] == c);
    lemma_until(s, p, n);
    assert(s.take(n) == text);
}

/// The first word of a text is what stands between the white space before it and the next
/// white space.
pub proof fn law_first_word(before: Seq<char>, word: Seq<char>, after: Seq<char>)
    requires
        all_white(before),
        forall|i: int| 0 <= i < word.len() ==> !is_white(#[trigger] word[i]),
        after.len() > 0 ==> word.len() > 0 && is_white(after[0]),
    ensures
        first_word(before + word + after) == word,
{
    let s = before + word + after;
    let k = before.len() as int;
    assert forall|i: int| 0 <= i < k implies white()(#[trigger] s[i]) by {
        assert(s[i] == before[i]);
    }
    if k < s.len() {
        assert(s[k] == word[0]);
    }
    lemma_drop_start(s, white(), k);
    let t = s.skip(k);
    assert(t == word + after);
    let n = word.len() as int;
    assert forall|i: int| 0 <= i < n implies !white()(#[trigger] t[i]) by {
        assert(t[i] == word[i]);
    }
    lemma_until(t, white(), n);
    assert(t.take(n) == word);
}

} // verus!
