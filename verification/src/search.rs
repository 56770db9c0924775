//! Searching in a text and replacing its characters.

use crate::text::{ascii_lower, chars_of, either, lower, lower_all};
use vstd::prelude::*;
use vstd::string::*;

verus! {

/// The position of the last character that meets `p`, or -1.
pub open spec fn last_index(s: Seq<char>, p: spec_fn(char) -> bool) -> int
    decreases s.len(),
{
    if s.len() == 0 {
        -1
    } else if p(s.last()) {
        s.len() - 1
    } else {
        last_index(s.drop_last(), p)
    }
}

/// `last_index` is where the last such character stands.
pub proof fn lemma_last_index(s: Seq<char>, p: spec_fn(char) -> bool)
    ensures
        -1 <= last_index(s, p) < s.len(),
        last_index(s, p) >= 0 ==> p(s[last_index(s, p)]),
        forall|i: int| last_index(s, p) < i < s.len() ==> !p(#[trigger] s[i]),
    decreases s.len(),
{
    if s.len() > 0 && !p(s.last()) {
        let t = s.drop_last();
        lemma_last_index(t, p);
        assert forall|i: int| last_index(s, p) < i < s.len() implies !p(#[trigger] s[i]) by {
            if i < t.len() {
                assert(t[i] == s[i]);
            }
        }
    }
}

/// Any position with nothing of `p` after it and `p` at it is `last_index`.
pub proof fn lemma_last_index_is(s: Seq<char>, p: spec_fn(char) -> bool, k: int)
    requires
        -1 <= k < s.len(),
        k >= 0 ==> p(s[k]),
        forall|i: int| k < i < s.len() ==> !p(#[trigger] s[i]),
    ensures
        last_index(s, p) == k,
{
    lemma_last_index(s, p);
}

/// The position of the last `a` or `b` in `v`.
pub fn rfind(v: &Vec<char>, a: char, b: char) -> (r: Option<usize>)
    ensures
        r is None <==> last_index(v@, either(a, b)) == -1,
        r matches Some(i) ==> i == last_index(v@, either(a, b)),
{
    let mut i: usize = v.len();
    while i > 0
        invariant
            i <= v.len(),
            forall|j: int| i <= j < v.len() ==> !either(a, b)(#[trigger] v@[j]),
        decreases i,
    {
        i = i - 1;
        if v[i] == a || v[i] == b {
            proof {
                lemma_last_index_is(v@, either(a, b), i as int);
            }
            return Some(i);
        }
    }
    proof {
        lemma_last_index_is(v@, either(a, b), -1);
    }
    None
}

/// Whether `t` begins at position `i` of `s`.
pub open spec fn stands_at(s: Seq<char>, t: Seq<char>, i: int) -> bool {
    0 <= i && i + t.len() <= s.len() && s.subrange(i, i + t.len()) == t
}

/// Whether `t` occurs in `s`.
pub open spec fn occurs(s: Seq<char>, t: Seq<char>) -> bool {
    exists|i: int| #[trigger] stands_at(s, t, i)
}

/// Whether `s` begins with `t`.
pub open spec fn begins(s: Seq<char>, t: Seq<char>) -> bool {
    t.len() <= s.len() && s.take(t.len() as int) == t
}

/// Whether `s` ends with `t`.
pub open spec fn ends(s: Seq<char>, t: Seq<char>) -> bool {
    t.len() <= s.len() && s.skip(s.len() - t.len()) == t
}

/// Whether `t` begins at position `i` of `s`.
fn is_at(s: &Vec<char>, t: &Vec<char>, i: usize) -> (r: bool)
    requires
        i <= s@.len(),
    ensures
        r == stands_at(s@, t@, i as int),
{
    if t.len() > s.len() - i {
        return false;
    }
    let mut k: usize = 0;
    while k < t.len()
        invariant
            k <= t.len(),
            i + t.len() <= s.len(),
            forall|j: int| 0 <= j < k ==> s@[i + j] == #[trigger] t@[j],
        decreases t.len() - k,
    {
        if s[i + k] != t[k] {
            proof {
                assert(s@.subrange(i as int, i + t@.len())[k as int] != t@[k as int]);
            }
            return false;
        }
        k = k + 1;
    }
    proof {
        assert(s@.subrange(i as int, i + t@.len()) == t@);
    }
    true
}

/// Whether `t` occurs in `s`.
pub fn contains(s: &str, t: &str) -> (r: bool)
    ensures
        r == occurs(s@, t@),
{
    let v = chars_of(s);
    let w = chars_of(t);
    let mut i: usize = 0;
    loop
        invariant
            i <= v.len(),
            v@ == s@,
            w@ == t@,
            forall|j: int| 0 <= j < i ==> !#[trigger] stands_at(s@, t@, j),
        decreases v.len() - i,
    {
        if is_at(&v, &w, i) {
            return true;
        }
        if i == v.len() {
            return false;
        }
        i = i + 1;
    }
}

/// Whether `s` begins with `t`.
pub fn starts_with(s: &str, t: &str) -> (r: bool)
    ensures
        r == begins(s@, t@),
{
    let v = chars_of(s);
    let w = chars_of(t);
    proof {
        if t@.len() <= s@.len() {
            assert(s@.subrange(0, t@.len() as int) == s@.take(t@.len() as int));
        }
    }
    is_at(&v, &w, 0)
}

/// Whether `s` ends with `t`.
pub fn ends_with(s: &str, t: &str) -> (r: bool)
    ensures
        r == ends(s@, t@),
{
    let v = chars_of(s);
    let w = chars_of(t);
    if w.len() > v.len() {
        return false;
    }
    proof {
        assert(s@.subrange(s@.len() - t@.len(), s@.len() as int) == s@.skip(s@.len() - t@.len()));
    }
    is_at(&v, &w, v.len() - w.len())
}

/// `s` with the text `t` in place of every `c`.
pub open spec fn replaced(s: Seq<char>, c: char, t: Seq<char>) -> Seq<char>
    decreases s.len(),
{
    if s.len() == 0 {
        seq![]
    } else if s.last() == c {
        replaced(s.drop_last(), c, t) + t
    } else {
        replaced(s.drop_last(), c, t).push(s.last())
    }
}

/// `s` with the text `t` in place of every `c`.
pub fn replace_char(s: &str, c: char, t: &str) -> (r: String)
    ensures
        r@ == replaced(s@, c, t@),
{
    let v = chars_of(s);
    let mut out = String::new();
    let mut i: usize = 0;
    while i < v.len()
        invariant
            i <= v.len(),
            out@ == replaced(v@.take(i as int), c, t@),
        decreases v.len() - i,
    {
        proof {
            assert(v@.take(i + 1).drop_last() == v@.take(i as int));
            assert(v@.take(i + 1).last() == v@[i as int]);
        }
        if v[i] == c {
            out.append(t);
        } else {
            out.push(v[i]);
        }
        i = i + 1;
    }
    proof {
        assert(v@.take(v@.len() as int) == v@);
    }
    out
}

/// `s` with every ASCII capital in lower case.
pub fn to_lower(s: &str) -> (r: String)
    ensures
        r@ == lower_all(s@),
{
    let v = chars_of(s);
    let mut out = String::new();
    let mut i: usize = 0;
    while i < v.len()
        invariant
            i <= v.len(),
            out@ == lower_all(v@.take(i as int)),
        decreases v.len() - i,
    {
        out.push(ascii_lower(v[i]));
        proof {
            assert(lower_all(v@.take(i + 1)) == lower_all(v@.take(i as int)).push(
                lower(v@[i as int]),
            ));
        }
        i = i + 1;
    }
    proof {
        assert(v@.take(v@.len() as int) == v@);
    }
    out
}

/// Whether two texts differ at most in the case of ASCII letters.
pub fn same_ignoring_case(a: &str, b: &str) -> (r: bool)
    ensures
        r == (lower_all(a@) == lower_all(b@)),
{
    to_lower(a) == to_lower(b)
}

/// The last place is where such a character stands with none of them behind it.
pub proof fn law_last_index(before: Seq<char>, c: char, after: Seq<char>, p: spec_fn(char) -> bool)
    requires
        p(c),
        forall|i: int| 0 <= i < after.len() ==> !p(#[trigger] after[i]),
    ensures
        last_index(before + seq![c] + after, p) == before.len(),
        last_index(after, p) == -1,
{
    let s = before + seq![c] + after;
    let k = before.len() as int;
    assert(s[k] == c);
    assert forall|i: int| k < i < s.len() implies !p(#[trigger] s[i]) by {
        assert(s[i] == after[i - k - 1]);
    }
    lemma_last_index_is(s, p, k);
    lemma_last_index_is(after, p, -1);
}

/// Whether a text is `t` with something before it and something behind it.
pub open spec fn parts_round(s: Seq<char>, a: Seq<char>, t: Seq<char>, b: Seq<char>) -> bool {
    s == a + t + b
}

/// A text occurs in another if the other is that text with something before and behind it,
/// and only so.
pub proof fn law_occurs(s: Seq<char>, t: Seq<char>)
    ensures
        occurs(s, t) <==> exists|a: Seq<char>, b: Seq<char>| #[trigger] parts_round(s, a, t, b),
{
    if occurs(s, t) {
        let i = choose|i: int| #[trigger] stands_at(s, t, i);
        let a = s.take(i);
        let b = s.skip(i + t.len());
        assert(s == a + t + b);
        assert(parts_round(s, a, t, b));
    }
    assert forall|a: Seq<char>, b: Seq<char>| #[trigger] parts_round(s, a, t, b) implies occurs(
        s,
        t,
    ) by {
        let i = a.len() as int;
        assert(s.subrange(i, i + t.len()) == t);
        assert(stands_at(s, t, i));
    }
}

/// A text begins, or ends, with another where the other and some further text make it up.
pub proof fn law_begins_and_ends(s: Seq<char>, t: Seq<char>)
    ensures
        begins(t + s, t),
        ends(s + t, t),
        begins(s, t) ==> exists|b: Seq<char>| #[trigger] parts_round(s, seq![], t, b),
        ends(s, t) ==> exists|a: Seq<char>| #[trigger] parts_round(s, a, t, seq![]),
{
    assert((t + s).take(t.len() as int) == t);
    assert((s + t).skip((s + t).len() - t.len()) == t);
    if begins(s, t) {
        let b = s.skip(t.len() as int);
        assert(s == Seq::<char>::empty() + t + b);
        assert(parts_round(s, seq![], t, b));
    }
    if ends(s, t) {
        let a = s.take(s.len() - t.len());
        assert(s == a + t + Seq::<char>::empty());
        assert(parts_round(s, a, t, seq![]));
    }
}

/// Every occurrence of the character gives way to the text and every other character
/// stays: what comes of a text is put together from what comes of its parts.
pub proof fn law_replaced(a: Seq<char>, b: Seq<char>, c: char, d: char, t: Seq<char>)
    ensures
        replaced(a + b, c, t) == replaced(a, c, t) + replaced(b, c, t),
        replaced(seq![c], c, t) == t,
        d != c ==> replaced(seq![d], c, t) == seq![d],
        replaced(seq![], c, t) == Seq::<char>::empty(),
    decreases b.len(),
{
    assert(seq![c].drop_last() == Seq::<char>::empty());
    assert(seq![d].drop_last() == Seq::<char>::empty());
    assert(seq![c].last() == c);
    assert(seq![d].last() == d);
    let none = Seq::<char>::empty();
    assert(replaced(none, c, t) == none);
    assert(none + t == t);
    assert(none.push(d) == seq![d]);
    if b.len() == 0 {
        assert(a + b == a);
        assert(replaced(a, c, t) + none == replaced(a, c, t));
    } else {
        let s = a + b;
        assert(s.drop_last() == a + b.drop_last());
        assert(s.last() == b.last());
        law_replaced(a, b.drop_last(), c, d, t);
        let p = replaced(a, c, t);
        let q = replaced(b.drop_last(), c, t);
        assert(p + q + t == p + (q + t));
        assert((p + q).push(b.last()) == p + q.push(b.last()));
    }
}

} // verus!
