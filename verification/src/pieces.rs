//! Texts as sequences of pieces: fields between separators, and rows with
//! their line terminators.

use crate::text::chars_of;
use vstd::prelude::*;
use vstd::string::*;

verus! {

/// The views of a sequence of strings.
pub open spec fn views(parts: Seq<String>) -> Seq<Seq<char>> {
    parts.map_values(|p: String| p@)
}

/// The fields of `s` between the separators `sep`: always at least one, and
/// one more than `s` has separators.
pub open spec fn split(s: Seq<char>, sep: char) -> Seq<Seq<char>>
    decreases s.len(),
{
    if s.len() == 0 {
        seq![seq![]]
    } else {
        let before = split(s.drop_last(), sep);
        if s.last() == sep {
            before.push(seq![])
        } else {
            before.update(before.len() - 1, before.last().push(s.last()))
        }
    }
}

/// The pieces one after another, with `sep` between each two.
pub open spec fn join(parts: Seq<Seq<char>>, sep: Seq<char>) -> Seq<char>
    decreases parts.len(),
{
    if parts.len() == 0 {
        seq![]
    } else if parts.len() == 1 {
        parts[0]
    } else {
        join(parts.drop_last(), sep) + sep + parts.last()
    }
}

/// `split` yields at least one field.
pub broadcast proof fn lemma_split_nonempty(s: Seq<char>, sep: char)
    ensures
        #[trigger] split(s, sep).len() >= 1,
    decreases s.len(),
{
    if s.len() > 0 {
        lemma_split_nonempty(s.drop_last(), sep);
    }
}

/// The fields of `s`, in order.
pub fn split_at_each(s: &str, sep: char) -> (parts: Vec<String>)
    ensures
        views(parts@) == split(s@, sep),
{
    let v = chars_of(s);
    let mut done: Vec<String> = Vec::new();
    let mut current = String::new();
    let mut i: usize = 0;
    proof {
        assert(v@.take(0) == Seq::<char>::empty());
        assert(views(done@).push(current@) == seq![Seq::<char>::empty()]);
    }
    while i < v.len()
        invariant
            i <= v.len(),
            views(done@).push(current@) == split(v@.take(i as int), sep),
        decreases v.len() - i,
    {
        let ghost before = split(v@.take(i as int), sep);
        let ghost done_before = done@;
        proof {
            assert(v@.take(i + 1).drop_last() == v@.take(i as int));
            assert(v@.take(i + 1).last() == v@[i as int]);
        }
        if v[i] == sep {
            done.push(current);
            current = String::new();
            proof {
                assert(views(done@) == views(done_before).push(done@.last()@));
                assert(views(done@).push(current@) == before.push(seq![]));
            }
        } else {
            let ghost piece = current@;
            current.push(v[i]);
            proof {
                assert(before.last() == piece);
                assert(views(done@).push(current@) == before.update(
                    before.len() - 1,
                    before.last().push(v@[i as int]),
                ));
            }
        }
        i = i + 1;
    }
    proof {
        assert(v@.take(v@.len() as int) == v@);
    }
    let ghost before = views(done@);
    done.push(current);
    proof {
        assert(views(done@) == before.push(done@.last()@));
    }
    done
}

/// The pieces joined by `sep`.
pub fn join_with(parts: &Vec<String>, sep: &str) -> (r: String)
    ensures
        r@ == join(views(parts@), sep@),
{
    let mut out = String::new();
    let mut i: usize = 0;
    while i < parts.len()
        invariant
            i <= parts.len(),
            out@ == join(views(parts@).take(i as int), sep@),
        decreases parts.len() - i,
    {
        proof {
            let next = views(parts@).take(i + 1);
            assert(next.drop_last() == views(parts@).take(i as int));
            assert(next.last() == parts@[i as int]@);
        }
        if i > 0 {
            out.append(sep);
            out.append(parts[i].as_str());
        } else {
            out.append(parts[i].as_str());
            assert(out@ == parts@[0]@);
        }
        i = i + 1;
    }
    proof {
        assert(views(parts@).take(parts@.len() as int) == views(parts@));
    }
    out
}

/// Every field is free of the separator.
pub proof fn lemma_split_free(s: Seq<char>, sep: char)
    ensures
        forall|i: int| 0 <= i < split(s, sep).len() ==> !(#[trigger] split(s, sep)[i]).contains(sep),
    decreases s.len(),
{
    if s.len() > 0 {
        lemma_split_free(s.drop_last(), sep);
        lemma_split_nonempty(s.drop_last(), sep);
        let before = split(s.drop_last(), sep);
        assert forall|i: int| 0 <= i < split(s, sep).len() implies !(#[trigger] split(
            s,
            sep,
        )[i]).contains(sep) by {
            if i < before.len() - 1 {
                assert(split(s, sep)[i] == before[i]);
            } else if i == before.len() - 1 {
                assert(!before[i].contains(sep));
                if s.last() != sep {
                    let field = split(s, sep)[i];
                    assert(field == before[i].push(s.last()));
                    assert forall|k: int| 0 <= k < field.len() implies field[k] != sep by {
                        if k < before[i].len() {
                            assert(before[i][k] == field[k]);
                        }
                    }
                }
            }
        }
    }
}

/// Joining the fields by their separator gives the text back.
pub proof fn lemma_join_split(s: Seq<char>, sep: char)
    ensures
        join(split(s, sep), seq![sep]) == s,
    decreases s.len(),
{
    if s.len() > 0 {
        let t = s.drop_last();
        lemma_join_split(t, sep);
        lemma_split_nonempty(t, sep);
        let before = split(t, sep);
        if s.last() == sep {
            assert(before.push(seq![]).drop_last() == before);
            assert(s == t + seq![sep] + seq![]);
        } else {
            let grown = before.update(before.len() - 1, before.last().push(s.last()));
            assert(grown.drop_last() == before.drop_last());
            assert(s == t.push(s.last()));
            if before.len() == 1 {
                assert(grown[0] == before[0].push(s.last()));
            } else {
                assert(join(before.drop_last(), seq![sep]) + seq![sep] + before.last().push(
                    s.last(),
                ) == (join(before.drop_last(), seq![sep]) + seq![sep] + before.last()).push(
                    s.last(),
                ));
            }
        }
    }
}

/// The fields of a text with a separator in it are those before it followed
/// by those after it.
pub proof fn lemma_split_concat(a: Seq<char>, b: Seq<char>, sep: char)
    ensures
        split(a + seq![sep] + b, sep) == split(a, sep) + split(b, sep),
    decreases b.len(),
{
    let whole = a + seq![sep] + b;
    if b.len() == 0 {
        assert(whole.drop_last() == a);
        assert(split(a, sep).push(seq![]) == split(a, sep) + split(b, sep));
    } else {
        let c = b.drop_last();
        lemma_split_concat(a, c, sep);
        lemma_split_nonempty(c, sep);
        assert(whole.drop_last() == a + seq![sep] + c);
        assert(whole.last() == b.last());
        let left = split(a, sep);
        let right = split(c, sep);
        let both = left + right;
        if b.last() == sep {
            assert(both.push(seq![]) == left + right.push(seq![]));
        } else {
            assert(both.last() == right.last());
            assert(both.update(both.len() - 1, both.last().push(b.last())) == left + right.update(
                right.len() - 1,
                right.last().push(b.last()),
            ));
        }
    }
}

/// A text without the separator is one field.
pub proof fn lemma_split_single(s: Seq<char>, sep: char)
    requires
        !s.contains(sep),
    ensures
        split(s, sep) == seq![s],
    decreases s.len(),
{
    if s.len() > 0 {
        let t = s.drop_last();
        assert forall|i: int| 0 <= i < t.len() implies t[i] != sep by {
            assert(s[i] == t[i]);
        }
        lemma_split_single(t, sep);
        assert(s[s.len() - 1] == s.last());
        assert(t.push(s.last()) == s);
        assert(split(s, sep) == seq![s]);
    } else {
        assert(s == Seq::<char>::empty());
    }
}

/// Splitting a joined list of separator-free fields gives the fields back.
pub proof fn lemma_split_join(parts: Seq<Seq<char>>, sep: char)
    requires
        parts.len() > 0,
        forall|i: int| 0 <= i < parts.len() ==> !(#[trigger] parts[i]).contains(sep),
    ensures
        split(join(parts, seq![sep]), sep) == parts,
    decreases parts.len(),
{
    if parts.len() == 1 {
        lemma_split_single(parts[0], sep);
        assert(seq![parts[0]] == parts);
    } else {
        let front = parts.drop_last();
        assert forall|i: int| 0 <= i < front.len() implies !(#[trigger] front[i]).contains(sep) by {
            assert(front[i] == parts[i]);
        }
        lemma_split_join(front, sep);
        lemma_split_concat(join(front, seq![sep]), parts.last(), sep);
        assert(!parts[parts.len() - 1].contains(sep));
        lemma_split_single(parts.last(), sep);
        assert(front + seq![parts.last()] == parts);
    }
}

// ---------------------------------------------------------------- rows
/// The rows of `s`, each with the line feed that ends it; only the last row may
/// lack one, and no row is empty.
pub open spec fn rows(s: Seq<char>) -> Seq<Seq<char>>
    decreases s.len(),
{
    if s.len() == 0 {
        seq![]
    } else {
        let before = rows(s.drop_last());
        if before.len() == 0 || before.last().last() == '\n' {
            before.push(seq![s.last()])
        } else {
            before.update(before.len() - 1, before.last().push(s.last()))
        }
    }
}

/// The rows one after another.
pub open spec fn concat(parts: Seq<Seq<char>>) -> Seq<char>
    decreases parts.len(),
{
    if parts.len() == 0 {
        seq![]
    } else {
        concat(parts.drop_last()) + parts.last()
    }
}

/// The rows of `s`, in order.
pub fn rows_of(s: &str) -> (parts: Vec<String>)
    ensures
        views(parts@) == rows(s@),
{
    let v = chars_of(s);
    let mut done: Vec<String> = Vec::new();
    let mut current = String::new();
    let mut i: usize = 0;
    proof {
        assert(v@.take(0) == Seq::<char>::empty());
        assert(views(done@) == Seq::<Seq<char>>::empty());
    }
    while i < v.len()
        invariant
            i <= v.len(),
            current@.len() == 0 ==> views(done@) == rows(v@.take(i as int)) && (done@.len() > 0
                ==> done@.last()@.len() > 0 && done@.last()@.last() == '\n'),
            current@.len() > 0 ==> views(done@).push(current@) == rows(v@.take(i as int))
                && current@.last() != '\n',
        decreases v.len() - i,
    {
        let ghost before = rows(v@.take(i as int));
        let ghost piece = current@;
        let ghost done_before = done@;
        proof {
            assert(v@.take(i + 1).drop_last() == v@.take(i as int));
            assert(v@.take(i + 1).last() == v@[i as int]);
            if piece.len() == 0 {
                assert(done@.len() > 0 ==> before.last() == done@.last()@);
                assert(piece.push(v@[i as int]) == seq![v@[i as int]]);
            } else {
                assert(before.last() == piece);
            }
        }
        current.push(v[i]);
        proof {
            assert(rows(v@.take(i + 1)) == views(done_before).push(current@));
        }
        if v[i] == '\n' {
            done.push(current);
            current = String::new();
            proof {
                assert(views(done@) == views(done_before).push(done@.last()@));
            }
        }
        i = i + 1;
    }
    proof {
        assert(v@.take(v@.len() as int) == v@);
    }
    if !current.as_str().is_empty() {
        let ghost before = views(done@);
        done.push(current);
        proof {
            assert(views(done@) == before.push(done@.last()@));
        }
    }
    done
}

/// What rows look like: none is empty, a line feed stands only at a row's
/// end, and every row but the last has one.
pub proof fn lemma_rows_shape(s: Seq<char>)
    ensures
        forall|i: int| 0 <= i < rows(s).len() ==> (#[trigger] rows(s)[i]).len() > 0,
        forall|i: int, k: int|
            0 <= i < rows(s).len() && 0 <= k < rows(s)[i].len() - 1 ==> #[trigger] rows(s)[i][k]
                != '\n',
        forall|i: int| 0 <= i < rows(s).len() - 1 ==> (#[trigger] rows(s)[i]).last() == '\n',
        s.len() > 0 ==> rows(s).len() > 0 && rows(s).last().last() == s.last(),
    decreases s.len(),
{
    if s.len() > 0 {
        let t = s.drop_last();
        lemma_rows_shape(t);
        let before = rows(t);
        let after = rows(s);
        if before.len() == 0 || before.last().last() == '\n' {
            assert forall|i: int| 0 <= i < after.len() implies (#[trigger] after[i]).len() > 0 by {
                if i < before.len() {
                    assert(after[i] == before[i]);
                }
            }
            assert forall|i: int, k: int|
                0 <= i < after.len() && 0 <= k < after[i].len() - 1 implies #[trigger] after[i][k]
                != '\n' by {
                if i < before.len() {
                    assert(after[i] == before[i]);
                    assert(before[i][k] != '\n');
                }
            }
            assert forall|i: int| 0 <= i < after.len() - 1 implies (#[trigger] after[i]).last()
                == '\n' by {
                assert(after[i] == before[i]);
            }
        } else {
            let n = before.len() - 1;
            assert forall|i: int| 0 <= i < after.len() implies (#[trigger] after[i]).len() > 0 by {
                if i < n {
                    assert(after[i] == before[i]);
                }
            }
            assert forall|i: int, k: int|
                0 <= i < after.len() && 0 <= k < after[i].len() - 1 implies #[trigger] after[i][k]
                != '\n' by {
                if i < n {
                    assert(after[i] == before[i]);
                    assert(before[i][k] != '\n');
                } else {
                    assert(after[i] == before[n].push(s.last()));
                    assert(before[n].len() > 0);
                    assert(after[i][k] == before[n][k]);
                    if k < before[n].len() - 1 {
                        assert(before[n][k] != '\n');
                    }
                }
            }
            assert forall|i: int| 0 <= i < after.len() - 1 implies (#[trigger] after[i]).last()
                == '\n' by {
                assert(after[i] == before[i]);
            }
        }
    }
}

/// The rows of a text, one after another, are the text.
pub proof fn lemma_concat_rows(s: Seq<char>)
    ensures
        concat(rows(s)) == s,
    decreases s.len(),
{
    if s.len() > 0 {
        let t = s.drop_last();
        lemma_concat_rows(t);
        let before = rows(t);
        assert(t.push(s.last()) == s);
        if before.len() == 0 || before.last().last() == '\n' {
            assert(before.push(seq![s.last()]).drop_last() == before);
            assert(t + seq![s.last()] == s);
        } else {
            let after = rows(s);
            assert(after.drop_last() == before.drop_last());
            assert(concat(before.drop_last()) + before.last().push(s.last()) == (concat(
                before.drop_last(),
            ) + before.last()).push(s.last()));
        }
    }
}

/// The rows of a text cut after a line feed (or at its start) are those of the
/// first part followed by those of the second.
pub proof fn lemma_rows_concat(a: Seq<char>, b: Seq<char>)
    requires
        a.len() == 0 || a.last() == '\n',
    ensures
        rows(a + b) == rows(a) + rows(b),
    decreases b.len(),
{
    let whole = a + b;
    if b.len() == 0 {
        assert(whole == a);
        assert(rows(a) + rows(b) == rows(a));
    } else {
        let c = b.drop_last();
        lemma_rows_concat(a, c);
        lemma_rows_shape(a);
        lemma_rows_shape(c);
        assert(whole.drop_last() == a + c);
        assert(whole.last() == b.last());
        let left = rows(a);
        let right = rows(c);
        let both = left + right;
        if right.len() > 0 {
            assert(both.last() == right.last());
        } else {
            assert(both == left);
        }
        if both.len() == 0 || both.last().last() == '\n' {
            assert(both.push(seq![b.last()]) == left + right.push(seq![b.last()]));
        } else {
            assert(both.update(both.len() - 1, both.last().push(b.last())) == left + right.update(
                right.len() - 1,
                right.last().push(b.last()),
            ));
        }
    }
}

/// A text whose only line feed is its last character is one row.
pub proof fn lemma_rows_single(s: Seq<char>)
    requires
        s.len() > 0,
        forall|i: int| 0 <= i < s.len() - 1 ==> #[trigger] s[i] != '\n',
    ensures
        rows(s) == seq![s],
    decreases s.len(),
{
    let t = s.drop_last();
    assert(t.push(s.last()) == s);
    if t.len() > 0 {
        assert forall|i: int| 0 <= i < t.len() - 1 implies #[trigger] t[i] != '\n' by {
            assert(t[i] == s[i]);
        }
        lemma_rows_single(t);
        assert(t.last() == s[s.len() - 2]);
        assert(rows(s) == seq![s]);
    } else {
        assert(rows(t) == Seq::<Seq<char>>::empty());
        assert(seq![s.last()] == s);
        assert(rows(s) == Seq::<Seq<char>>::empty().push(s));
    }
}

/// Concatenation of pieces distributes over concatenation of lists.
pub proof fn lemma_concat_add(a: Seq<Seq<char>>, b: Seq<Seq<char>>)
    ensures
        concat(a + b) == concat(a) + concat(b),
    decreases b.len(),
{
    if b.len() == 0 {
        assert(a + b == a);
        assert(concat(a) + concat(b) == concat(a));
    } else {
        lemma_concat_add(a, b.drop_last());
        assert((a + b).drop_last() == a + b.drop_last());
        assert(concat(a) + (concat(b.drop_last()) + b.last()) == concat(a) + concat(b.drop_last())
            + b.last());
    }
}

/// The rows that are left when the empty ones go.
pub open spec fn without_empty(parts: Seq<Seq<char>>) -> Seq<Seq<char>>
    decreases parts.len(),
{
    if parts.len() == 0 {
        seq![]
    } else if parts.last().len() == 0 {
        without_empty(parts.drop_last())
    } else {
        without_empty(parts.drop_last()).push(parts.last())
    }
}

/// Read back, a list of rows of which all but the last end in a line feed (or
/// are empty) consists of exactly those that are not empty.
pub proof fn lemma_rows_of_concat(parts: Seq<Seq<char>>)
    requires
        forall|i: int, k: int|
            0 <= i < parts.len() && 0 <= k < parts[i].len() - 1 ==> #[trigger] parts[i][k] != '\n',
        forall|i: int|
            0 <= i < parts.len() - 1 ==> (#[trigger] parts[i]).len() == 0 || parts[i].last()
                == '\n',
    ensures
        rows(concat(parts)) == without_empty(parts),
        (forall|i: int|
            0 <= i < parts.len() ==> (#[trigger] parts[i]).len() == 0 || parts[i].last() == '\n')
            ==> concat(parts).len() == 0 || concat(parts).last() == '\n',
    decreases parts.len(),
{
    if parts.len() > 0 {
        let front = parts.drop_last();
        assert forall|i: int, k: int|
            0 <= i < front.len() && 0 <= k < front[i].len() - 1 implies #[trigger] front[i][k]
            != '\n' by {
            assert(front[i] == parts[i]);
            assert(parts[i][k] != '\n');
        }
        assert forall|i: int| 0 <= i < front.len() implies (#[trigger] front[i]).len() == 0
            || front[i].last() == '\n' by {
            assert(front[i] == parts[i]);
        }
        lemma_rows_of_concat(front);
        let last = parts.last();
        assert(last == parts[parts.len() - 1]);
        if last.len() == 0 {
            assert(concat(front) + last == concat(front));
        } else {
            lemma_rows_concat(concat(front), last);
            assert forall|i: int| 0 <= i < last.len() - 1 implies #[trigger] last[i] != '\n' by {
                assert(parts[parts.len() - 1][i] != '\n');
            }
            lemma_rows_single(last);
            assert(rows(concat(front)) + seq![last] == rows(concat(front)).push(last));
        }
    }
}

/// Joining puts the separator between each part and the next, and nowhere else.
pub proof fn law_join(parts: Seq<Seq<char>>, part: Seq<char>, sep: Seq<char>)
    ensures
        join(seq![], sep) == Seq::<char>::empty(),
        join(seq![part], sep) == part,
        parts.len() > 0 ==> join(parts.push(part), sep) == join(parts, sep) + sep + part,
{
    if parts.len() > 0 {
        assert(parts.push(part).drop_last() == parts);
    }
}

} // verus!
