//! Blocks of lines in a text file, fenced by marker lines: removing exactly the
//! block, and inserting or replacing it.

use crate::pieces::{
    concat, lemma_concat_add, lemma_concat_rows, lemma_rows_concat, lemma_rows_of_concat,
    lemma_rows_shape, lemma_rows_single, rows, rows_of, views, without_empty,
};
use crate::text::{
    drop_end, drop_start, is_white, law_drop_end, lemma_drop_end_shape, lemma_drop_start,
    lemma_drop_start_shape, same, trim, trim_end, trimmed, trimmed_end, white,
};
use vstd::prelude::*;
use vstd::string::*;

verus! {

/// Whether row `n` would be skipped for what came before it: a block has begun
/// and has not ended.
pub open spec fn within(all: Seq<Seq<char>>, n: int, begin: Seq<char>, end: Seq<char>) -> bool
    decreases n,
{
    if n <= 0 {
        false
    } else if trimmed(all[n - 1]) == begin {
        true
    } else {
        within(all, n - 1, begin, end) && trimmed(all[n - 1]) != end
    }
}

/// Whether row `i` belongs to a block: it is a begin marker, or follows one up to
/// and with the end marker. A block without an end marker reaches to the end.
pub open spec fn in_block(all: Seq<Seq<char>>, i: int, begin: Seq<char>, end: Seq<char>) -> bool {
    trimmed(all[i]) == begin || within(all, i, begin, end)
}

/// The rows with those of a block emptied.
pub open spec fn outside(all: Seq<Seq<char>>, begin: Seq<char>, end: Seq<char>) -> Seq<Seq<char>> {
    Seq::new(
        all.len(),
        |i: int|
            if in_block(all, i, begin, end) {
                seq![]
            } else {
                all[i]
            },
    )
}

/// `content` without its blocks; all else stands as it was.
pub open spec fn stripped(content: Seq<char>, begin: Seq<char>, end: Seq<char>) -> Seq<char> {
    concat(outside(rows(content), begin, end))
}

/// Strips the marker-fenced block, and only that block, if present. All other
/// lines stay as they are, with their line endings; content without a begin
/// marker is returned unchanged.
pub fn remove_marker_block(content: &str, begin: &str, end: &str) -> (r: String)
    ensures
        r@ == stripped(content@, begin@, end@),
{
    let all = rows_of(content);
    let ghost rs = rows(content@);
    let ghost kept = outside(rs, begin@, end@);
    let mut out = String::new();
    let mut skipping = false;
    let mut i: usize = 0;
    proof {
        assert(kept.take(0) == Seq::<Seq<char>>::empty());
    }
    while i < all.len()
        invariant
            i <= all.len(),
            rs == rows(content@),
            views(all@) == rs,
            kept == outside(rs, begin@, end@),
            skipping == within(rs, i as int, begin@, end@),
            out@ == concat(kept.take(i as int)),
        decreases all.len() - i,
    {
        proof {
            assert(rs[i as int] == all@[i as int]@);
            assert(kept.take(i + 1).drop_last() == kept.take(i as int));
            assert(kept.take(i + 1).last() == kept[i as int]);
            assert(out@ + Seq::<char>::empty() == out@);
        }
        let line = trim(all[i].as_str());
        if same(line, begin) {
            skipping = true;
        } else if skipping {
            if same(line, end) {
                skipping = false;
            }
        } else {
            out.append(all[i].as_str());
        }
        i = i + 1;
    }
    proof {
        assert(kept.take(kept.len() as int) == kept);
    }
    out
}

/// The block itself: the begin marker, the body and the end marker, each with
/// a line feed.
pub open spec fn block(begin: Seq<char>, end: Seq<char>, body: Seq<char>) -> Seq<char> {
    begin + "\n"@ + body + "\n"@ + end + "\n"@
}

/// What precedes an inserted block: the content without any block and without
/// trailing white space, then a line feed unless nothing is left.
pub open spec fn preamble(content: Seq<char>, begin: Seq<char>, end: Seq<char>) -> Seq<char> {
    let rest = trimmed_end(stripped(content, begin, end));
    if rest.len() == 0 {
        rest
    } else {
        rest + "\n"@
    }
}

/// `content` with its block, if any, replaced by one at the end.
pub open spec fn inserted(
    content: Seq<char>,
    begin: Seq<char>,
    end: Seq<char>,
    body: Seq<char>,
) -> Seq<char> {
    preamble(content, begin, end) + block(begin, end, body)
}

/// Inserts the marker-fenced block at the end, in place of an existing one.
pub fn insert_marker_block(content: &str, begin: &str, end: &str, body: &str) -> (r: String)
    ensures
        r@ == inserted(content@, begin@, end@, body@),
{
    let rest = remove_marker_block(content, begin, end);
    let mut out = trim_end(rest.as_str()).to_owned();
    if !out.as_str().is_empty() {
        out.append("\n");
    }
    let ghost before = out@;
    out.append(begin);
    out.append("\n");
    out.append(body);
    out.append("\n");
    out.append(end);
    out.append("\n");
    proof {
        assert(before + begin@ + "\n"@ + body@ + "\n"@ + end@ + "\n"@ == before + block(
            begin@,
            end@,
            body@,
        ));
    }
    out
}

// ---------------------------------------------------------------- laws
/// Whether no row of `content` is a begin marker.
pub open spec fn unmarked(content: Seq<char>, begin: Seq<char>) -> bool {
    forall|i: int| 0 <= i < rows(content).len() ==> trimmed(#[trigger] rows(content)[i]) != begin
}

/// Content without a begin marker comes back unchanged.
pub proof fn law_remove_absent_is_noop(content: Seq<char>, begin: Seq<char>, end: Seq<char>)
    requires
        unmarked(content, begin),
    ensures
        stripped(content, begin, end) == content,
{
    let all = rows(content);
    lemma_never_within(all, all.len() as int, begin, end);
    assert forall|i: int| 0 <= i < all.len() implies !#[trigger] in_block(all, i, begin, end) by {
        assert(trimmed(all[i]) != begin);
        lemma_never_within(all, i, begin, end);
    }
    assert(outside(all, begin, end) == all);
    lemma_concat_rows(content);
}

proof fn lemma_never_within(all: Seq<Seq<char>>, n: int, begin: Seq<char>, end: Seq<char>)
    requires
        n <= all.len(),
        forall|i: int| 0 <= i < n ==> trimmed(#[trigger] all[i]) != begin,
    ensures
        !within(all, n, begin, end),
    decreases n,
{
    if n > 0 {
        assert(trimmed(all[n - 1]) != begin);
        lemma_never_within(all, n - 1, begin, end);
    }
}

/// What is left after a removal holds no begin marker.
pub proof fn law_removed_is_unmarked(content: Seq<char>, begin: Seq<char>, end: Seq<char>)
    ensures
        unmarked(stripped(content, begin, end), begin),
{
    let all = rows(content);
    let kept = outside(all, begin, end);
    lemma_rows_shape(content);
    assert forall|i: int, k: int|
        0 <= i < kept.len() && 0 <= k < kept[i].len() - 1 implies #[trigger] kept[i][k]
        != '\n' by {
        assert(all[i][k] != '\n');
    }
    assert forall|i: int| 0 <= i < kept.len() - 1 implies (#[trigger] kept[i]).len() == 0
        || kept[i].last() == '\n' by {
        assert(all[i].last() == '\n');
    }
    lemma_rows_of_concat(kept);
    assert forall|i: int| 0 <= i < kept.len() && (#[trigger] kept[i]).len() > 0 implies trimmed(
        kept[i],
    ) != begin by {
        assert(kept[i] == all[i]);
    }
    lemma_without_empty(kept, begin);
}

proof fn lemma_without_empty(parts: Seq<Seq<char>>, begin: Seq<char>)
    requires
        forall|i: int|
            0 <= i < parts.len() && (#[trigger] parts[i]).len() > 0 ==> trimmed(parts[i]) != begin,
    ensures
        forall|i: int|
            0 <= i < without_empty(parts).len() ==> trimmed(#[trigger] without_empty(parts)[i])
                != begin,
    decreases parts.len(),
{
    if parts.len() > 0 {
        let front = parts.drop_last();
        assert forall|i: int| 0 <= i < front.len() && (#[trigger] front[i]).len() > 0 implies trimmed(
            front[i],
        ) != begin by {
            assert(front[i] == parts[i]);
        }
        lemma_without_empty(front, begin);
        assert(parts.last() == parts[parts.len() - 1]);
        let left = without_empty(front);
        let all = without_empty(parts);
        assert forall|i: int| 0 <= i < all.len() implies trimmed(#[trigger] all[i]) != begin by {
            if i < left.len() {
                assert(all[i] == left[i]);
            }
        }
    }
}

/// Removing a second time changes nothing more.
pub proof fn law_remove_is_idempotent(content: Seq<char>, begin: Seq<char>, end: Seq<char>)
    ensures
        stripped(stripped(content, begin, end), begin, end) == stripped(content, begin, end),
{
    law_removed_is_unmarked(content, begin, end);
    law_remove_absent_is_noop(stripped(content, begin, end), begin, end);
}

/// White space at the end of a text plays no part in its trimmed form.
proof fn lemma_trimmed_push(s: Seq<char>, c: char)
    requires
        is_white(c),
    ensures
        trimmed(s.push(c)) == trimmed(s),
{
    let t = s.push(c);
    lemma_drop_start_shape(s, white());
    let k = s.len() - drop_start(s, white()).len();
    assert forall|i: int| 0 <= i < k implies white()(#[trigger] t[i]) by {
        assert(t[i] == s[i]);
    }
    if k < s.len() {
        assert(s.skip(k)[0] == s[k]);
        assert(t[k] == s[k]);
        lemma_drop_start(t, white(), k);
        assert(t.skip(k) == s.skip(k).push(c));
        assert(s.skip(k).push(c).drop_last() == s.skip(k));
    } else {
        assert forall|i: int| 0 <= i < t.len() implies white()(#[trigger] t[i]) by {
            if i < s.len() {
                assert(t[i] == s[i]);
            }
        }
        lemma_drop_start(t, white(), t.len() as int);
        assert(t.skip(t.len() as int) == Seq::<char>::empty());
        assert(s.skip(k) == Seq::<char>::empty());
    }
}

/// White space behind a text leaves the trimmed form of each of its rows.
proof fn lemma_rows_white_tail(t: Seq<char>, w: Seq<char>)
    requires
        t.len() > 0,
        forall|i: int| 0 <= i < w.len() ==> is_white(#[trigger] w[i]),
    ensures
        rows(t + w).len() >= rows(t).len(),
        forall|i: int|
            0 <= i < rows(t).len() ==> trimmed(#[trigger] rows(t + w)[i]) == trimmed(rows(t)[i]),
    decreases w.len(),
{
    if w.len() == 0 {
        assert(t + w == t);
    } else {
        let v = w.drop_last();
        assert forall|i: int| 0 <= i < v.len() implies is_white(#[trigger] v[i]) by {
            assert(v[i] == w[i]);
        }
        lemma_rows_white_tail(t, v);
        assert((t + w).drop_last() == t + v);
        assert((t + w).last() == w.last());
        assert(w[w.len() - 1] == w.last());
        let before = rows(t + v);
        let after = rows(t + w);
        lemma_trimmed_push(before.last(), w.last());
        assert forall|i: int| 0 <= i < rows(t).len() implies trimmed(#[trigger] after[i])
            == trimmed(rows(t)[i]) by {
            assert(trimmed(before[i]) == trimmed(rows(t)[i]));
            if i < before.len() - 1 {
                assert(after[i] == before[i]);
            }
        }
    }
}

/// A text that ends in a line feed and has no begin marker stands untouched before
/// whatever follows it.
proof fn lemma_stripped_concat(a: Seq<char>, b: Seq<char>, begin: Seq<char>, end: Seq<char>)
    requires
        a.len() == 0 || a.last() == '\n',
        unmarked(a, begin),
    ensures
        stripped(a + b, begin, end) == a + stripped(b, begin, end),
{
    let left = rows(a);
    let right = rows(b);
    lemma_rows_concat(a, b);
    let both = left + right;
    assert forall|n: int| 0 <= n <= right.len() implies #[trigger] within(
        both,
        left.len() + n,
        begin,
        end,
    ) == within(right, n, begin, end) by {
        lemma_within_shift(left, right, n, begin, end);
    }
    assert forall|i: int| 0 <= i < left.len() implies !#[trigger] in_block(both, i, begin, end) by {
        assert(both[i] == left[i]);
        assert forall|j: int| 0 <= j < i implies trimmed(#[trigger] both[j]) != begin by {
            assert(both[j] == left[j]);
        }
        lemma_never_within(both, i, begin, end);
    }
    assert(outside(both, begin, end) == left + outside(right, begin, end)) by {
        assert forall|i: int| 0 <= i < both.len() implies #[trigger] outside(both, begin, end)[i]
            == (left + outside(right, begin, end))[i] by {
            if i >= left.len() {
                let n = i - left.len();
                assert(both[i] == right[n]);
                assert(within(both, left.len() + n, begin, end) == within(right, n, begin, end));
            } else {
                assert(!in_block(both, i, begin, end));
                assert(both[i] == left[i]);
            }
        }
    }
    lemma_concat_add(left, outside(right, begin, end));
    lemma_concat_rows(a);
}

proof fn lemma_within_shift(
    left: Seq<Seq<char>>,
    right: Seq<Seq<char>>,
    n: int,
    begin: Seq<char>,
    end: Seq<char>,
)
    requires
        0 <= n <= right.len(),
        forall|i: int| 0 <= i < left.len() ==> trimmed(#[trigger] left[i]) != begin,
    ensures
        within(left + right, left.len() + n, begin, end) == within(right, n, begin, end),
    decreases n,
{
    let both = left + right;
    if n == 0 {
        assert forall|i: int| 0 <= i < left.len() implies trimmed(#[trigger] both[i]) != begin by {
            assert(both[i] == left[i]);
        }
        lemma_never_within(both, left.len() as int, begin, end);
    } else {
        lemma_within_shift(left, right, n - 1, begin, end);
        assert(both[left.len() + n - 1] == right[n - 1]);
    }
}

/// Whether `body` can stand between the markers: none of its lines is an end
/// marker, which would close the block early.
pub open spec fn fits(body: Seq<char>, begin: Seq<char>, end: Seq<char>) -> bool {
    begin == end || forall|i: int|
        0 <= i < rows(body + "\n"@).len() ==> trimmed(#[trigger] rows(body + "\n"@)[i]) != end
}

/// Whether `begin` can be found again: one line, without surrounding white space.
pub open spec fn is_marker(begin: Seq<char>) -> bool {
    trimmed(begin) == begin && !begin.contains('\n')
}

/// A block is removed whole.
proof fn lemma_block_stripped(begin: Seq<char>, end: Seq<char>, body: Seq<char>)
    requires
        is_marker(begin),
        fits(body, begin, end),
    ensures
        stripped(block(begin, end, body), begin, end).len() == 0,
{
    reveal_strlit("\n");
    let nl = "\n"@;
    assert(nl == seq!['\n']);
    let first = begin + nl;
    let middle = body + nl;
    let close = end + nl;
    assert(block(begin, end, body) == first + (middle + close));
    // the rows of the three parts
    assert forall|i: int| 0 <= i < first.len() - 1 implies #[trigger] first[i] != '\n' by {
        assert(first[i] == begin[i]);
    }
    lemma_rows_single(first);
    lemma_rows_concat(first, middle + close);
    lemma_rows_concat(middle, close);
    let all = rows(block(begin, end, body));
    let mid = rows(middle);
    let last = rows(close);
    assert(all == seq![first] + (mid + last));
    assert(first == begin.push('\n'));
    lemma_trimmed_push(begin, '\n');
    assert(trimmed(all[0]) == begin);
    // no row before the last can close the block
    lemma_rows_shape(close);
    assert forall|j: int| 0 <= j < last.len() - 1 implies begin == end || trimmed(
        #[trigger] last[j],
    ) != end by {
        lemma_close_rows(end, j);
    }
    assert forall|i: int| 1 <= i < all.len() implies within(all, i, begin, end) by {
        lemma_stays_within(all, i, begin, end, mid, last, first);
    }
    let kept = outside(all, begin, end);
    assert forall|i: int| 0 <= i < kept.len() implies (#[trigger] kept[i]).len() == 0 by {
        if i >= 1 {
            assert(within(all, i, begin, end));
        }
    }
    lemma_concat_of_empty(kept);
}

proof fn lemma_stays_within(
    all: Seq<Seq<char>>,
    i: int,
    begin: Seq<char>,
    end: Seq<char>,
    mid: Seq<Seq<char>>,
    last: Seq<Seq<char>>,
    first: Seq<char>,
)
    requires
        all == seq![first] + (mid + last),
        1 <= i < all.len(),
        trimmed(all[0]) == begin,
        begin == end || forall|j: int| 0 <= j < mid.len() ==> trimmed(#[trigger] mid[j]) != end,
        forall|j: int|
            0 <= j < last.len() - 1 ==> begin == end || trimmed(#[trigger] last[j]) != end,
    ensures
        within(all, i, begin, end),
    decreases i,
{
    if i > 1 {
        lemma_stays_within(all, i - 1, begin, end, mid, last, first);
        if begin != end {
            if i - 2 < mid.len() {
                assert(all[i - 1] == mid[i - 2]);
            } else {
                let j = i - 2 - mid.len();
                assert(all[i - 1] == last[j]);
                assert(trimmed(last[j]) != end);
            }
        }
    }
}

/// Of the rows of an end marker and its line feed only the last can read as the
/// marker.
proof fn lemma_close_rows(end: Seq<char>, j: int)
    requires
        0 <= j < rows(end + "\n"@).len() - 1,
    ensures
        trimmed(rows(end + "\n"@)[j]) != end,
{
    reveal_strlit("\n");
    let close = end + "\n"@;
    let row = rows(close)[j];
    lemma_rows_shape(close);
    if !end.contains('\n') {
        assert forall|i: int| 0 <= i < close.len() - 1 implies #[trigger] close[i] != '\n' by {
            assert(close[i] == end[i]);
        }
        lemma_rows_single(close);
    } else {
        // a trimmed row holds no line feed
        let a = drop_start(row, white());
        let t = trimmed(row);
        lemma_drop_start_shape(row, white());
        lemma_drop_end_shape(a, white());
        let k = choose|k: int| 0 <= k < end.len() && end[k] == '\n';
        if t == end {
            let p = k + row.len() - a.len();
            assert(t[k] == a[k]);
            assert(a[k] == row[p]);
            assert(row[p] == '\n');
            assert(p == row.len() - 1);
            assert(k == a.len() - 1);
            assert(t.last() == '\n');
            assert(white()('\n'));
        }
    }
}

proof fn lemma_concat_of_empty(parts: Seq<Seq<char>>)
    requires
        forall|i: int| 0 <= i < parts.len() ==> (#[trigger] parts[i]).len() == 0,
    ensures
        concat(parts).len() == 0,
    decreases parts.len(),
{
    if parts.len() > 0 {
        let front = parts.drop_last();
        assert forall|i: int| 0 <= i < front.len() implies (#[trigger] front[i]).len() == 0 by {
            assert(front[i] == parts[i]);
        }
        lemma_concat_of_empty(front);
        assert(parts.last() == parts[parts.len() - 1]);
    }
}

/// Removing an inserted block leaves exactly what was put before it.
pub proof fn law_remove_undoes_insert(
    content: Seq<char>,
    begin: Seq<char>,
    end: Seq<char>,
    body: Seq<char>,
)
    requires
        is_marker(begin),
        fits(body, begin, end),
    ensures
        stripped(inserted(content, begin, end, body), begin, end) == preamble(content, begin, end),
{
    reveal_strlit("\n");
    assert("\n"@ == seq!['\n']);
    let rest = stripped(content, begin, end);
    let kept = trimmed_end(rest);
    let before = preamble(content, begin, end);
    law_removed_is_unmarked(content, begin, end);
    lemma_drop_end_shape(rest, white());
    if kept.len() > 0 {
        let tail = rest.skip(kept.len() as int);
        assert forall|i: int| 0 <= i < tail.len() implies is_white(#[trigger] tail[i]) by {
            assert(white()(rest[kept.len() + i]));
        }
        assert(kept + tail == rest);
        lemma_rows_white_tail(kept, tail);
        lemma_rows_white_tail(kept, seq!['\n']);
        lemma_rows_shape(kept);
        assert(before == kept + seq!['\n']);
        assert(before.drop_last() == kept);
        assert(kept.last() != '\n') by {
            assert(white()('\n'));
        }
        assert(rows(before).len() == rows(kept).len());
        assert forall|i: int| 0 <= i < rows(before).len() implies trimmed(
            #[trigger] rows(before)[i],
        ) != begin by {
            assert(trimmed(rows(before)[i]) == trimmed(rows(kept)[i]));
            assert(trimmed(rows(rest)[i]) == trimmed(rows(kept)[i]));
        }
    }
    lemma_stripped_concat(before, block(begin, end, body), begin, end);
    lemma_block_stripped(begin, end, body);
    assert(before + stripped(block(begin, end, body), begin, end) == before);
}

/// Inserting replaces: a block inserted earlier, with whatever body, leaves no
/// trace once a new one is inserted. With the same body twice, the second insertion
/// changes nothing.
pub proof fn law_insert_replaces(
    content: Seq<char>,
    begin: Seq<char>,
    end: Seq<char>,
    earlier: Seq<char>,
    body: Seq<char>,
)
    requires
        is_marker(begin),
        fits(earlier, begin, end),
    ensures
        inserted(inserted(content, begin, end, earlier), begin, end, body) == inserted(
            content,
            begin,
            end,
            body,
        ),
{
    reveal_strlit("\n");
    assert("\n"@ == seq!['\n']);
    law_remove_undoes_insert(content, begin, end, earlier);
    let rest = stripped(content, begin, end);
    let kept = trimmed_end(rest);
    lemma_drop_end_shape(rest, white());
    if kept.len() > 0 {
        let before = kept + seq!['\n'];
        assert(before.drop_last() == kept);
        assert(white()('\n'));
        assert(trimmed_end(before) == drop_end(kept, white()));
    }
}

/// Inserting a block and removing it restores the content, when that holds no
/// block and ends in one line feed behind its last line (or is empty).
pub proof fn law_round_trip_restores(
    content: Seq<char>,
    begin: Seq<char>,
    end: Seq<char>,
    body: Seq<char>,
)
    requires
        is_marker(begin),
        fits(body, begin, end),
        unmarked(content, begin),
        content.len() == 0 || (trimmed_end(content).len() > 0 && content == trimmed_end(content)
            + "\n"@),
    ensures
        stripped(inserted(content, begin, end, body), begin, end) == content,
{
    law_remove_undoes_insert(content, begin, end, body);
    law_remove_absent_is_noop(content, begin, end);
}

/// Where no block is open behind the rows on the left, those on the right are seen as if
/// they stood alone.
proof fn lemma_within_after(
    left: Seq<Seq<char>>,
    right: Seq<Seq<char>>,
    n: int,
    begin: Seq<char>,
    end: Seq<char>,
)
    requires
        0 <= n <= right.len(),
        !within(left + right, left.len() as int, begin, end),
    ensures
        within(left + right, left.len() + n, begin, end) == within(right, n, begin, end),
    decreases n,
{
    let both = left + right;
    if n > 0 {
        lemma_within_after(left, right, n - 1, begin, end);
        assert(both[left.len() + n - 1] == right[n - 1]);
    }
}

/// A block stays open up to a row that closes it.
proof fn lemma_open_until(
    all: Seq<Seq<char>>,
    i: int,
    begin: Seq<char>,
    end: Seq<char>,
)
    requires
        1 <= i <= all.len(),
        trimmed(all[0]) == begin,
        forall|j: int| 1 <= j < i ==> trimmed(#[trigger] all[j]) != end,
    ensures
        within(all, i, begin, end),
    decreases i,
{
    if i > 1 {
        lemma_open_until(all, i - 1, begin, end);
        assert(trimmed(all[i - 1]) != end);
    }
}

/// Whether no row of a text is this marker.
pub open spec fn no_row_is(text: Seq<char>, mark: Seq<char>) -> bool {
    forall|i: int| 0 <= i < rows(text).len() ==> trimmed(#[trigger] rows(text)[i]) != mark
}

/// A block is cut out of the text that it stands in: what is before it and what is behind
/// it stay as they are.
pub proof fn law_block_is_cut_out(
    before: Seq<char>,
    begin: Seq<char>,
    body: Seq<char>,
    end: Seq<char>,
    after: Seq<char>,
)
    requires
        is_marker(begin),
        is_marker(end),
        begin != end,
        before.len() == 0 || before.last() == '\n',
        no_row_is(before, begin),
        body.len() == 0 || body.last() == '\n',
        no_row_is(body, begin),
        no_row_is(body, end),
        no_row_is(after, begin),
    ensures
        stripped(
            before + (begin + seq!['\n'] + body + end + seq!['\n'] + after),
            begin,
            end,
        ) == before + after,
{
    let first = begin + seq!['\n'];
    let close = end + seq!['\n'];
    let rest = begin + seq!['\n'] + body + end + seq!['\n'] + after;
    assert(rest == first + (body + (close + after)));
    lemma_marker_row(begin);
    lemma_marker_row(end);
    lemma_rows_concat(first, body + (close + after));
    lemma_rows_concat(body, close + after);
    lemma_rows_concat(close, after);
    let mid = rows(body);
    let tail = rows(after);
    let left = seq![first] + mid + seq![close];
    let all = rows(rest);
    assert(all == left + tail);
    let k = left.len() as int;
    assert(all[0] == first);
    assert forall|j: int| 1 <= j < k - 1 implies trimmed(#[trigger] all[j]) != end by {
        assert(all[j] == mid[j - 1]);
    }
    assert forall|i: int| 0 <= i < k implies #[trigger] in_block(all, i, begin, end) by {
        if i > 0 {
            lemma_open_until(all, i, begin, end);
        }
    }
    assert(all[k - 1] == close);
    assert(!within(all, k, begin, end));
    let kept = outside(all, begin, end);
    let none = outside(all, begin, end).take(k);
    assert forall|i: int| 0 <= i < none.len() implies (#[trigger] none[i]).len() == 0 by {
        assert(in_block(all, i, begin, end));
    }
    lemma_concat_of_empty(none);
    assert forall|i: int| 0 <= i < tail.len() implies !#[trigger] in_block(tail, i, begin, end) by {
        assert(trimmed(tail[i]) != begin);
        lemma_never_within(tail, i, begin, end);
    }
    assert(kept == none + tail) by {
        assert forall|i: int| 0 <= i < all.len() implies #[trigger] kept[i] == (none + tail)[i] by {
            if i >= k {
                let n = i - k;
                lemma_within_after(left, tail, n, begin, end);
                assert(all[i] == tail[n]);
                assert(!in_block(tail, n, begin, end));
            }
        }
    }
    lemma_concat_add(none, tail);
    lemma_concat_rows(after);
    assert(stripped(rest, begin, end) == after);
    lemma_stripped_concat(before, rest, begin, end);
}

/// A marker and its line feed are one row, which reads as the marker.
proof fn lemma_marker_row(mark: Seq<char>)
    requires
        is_marker(mark),
    ensures
        rows(mark + seq!['\n']) == seq![mark + seq!['\n']],
        trimmed(mark + seq!['\n']) == mark,
{
    let row = mark + seq!['\n'];
    assert forall|i: int| 0 <= i < row.len() - 1 implies #[trigger] row[i] != '\n' by {
        assert(row[i] == mark[i]);
    }
    lemma_rows_single(row);
    assert(row == mark.push('\n'));
    lemma_trimmed_push(mark, '\n');
}

/// A block that is not closed reaches to the end of the text.
pub proof fn law_open_block_reaches_to_the_end(
    before: Seq<char>,
    begin: Seq<char>,
    end: Seq<char>,
    rest: Seq<char>,
)
    requires
        is_marker(begin),
        before.len() == 0 || before.last() == '\n',
        no_row_is(before, begin),
        no_row_is(rest, end),
    ensures
        stripped(before + (begin + seq!['\n'] + rest), begin, end) == before,
{
    let first = begin + seq!['\n'];
    lemma_marker_row(begin);
    lemma_rows_concat(first, rest);
    let all = rows(first + rest);
    assert(all == seq![first] + rows(rest));
    assert forall|j: int| 1 <= j < all.len() implies trimmed(#[trigger] all[j]) != end by {
        assert(all[j] == rows(rest)[j - 1]);
    }
    let kept = outside(all, begin, end);
    assert forall|i: int| 0 <= i < kept.len() implies (#[trigger] kept[i]).len() == 0 by {
        if i > 0 {
            lemma_open_until(all, i, begin, end);
        }
    }
    lemma_concat_of_empty(kept);
    lemma_stripped_concat(before, first + rest, begin, end);
    assert(before + stripped(first + rest, begin, end) == before);
}

/// What an insertion makes of a text without a block: the text without the white space at
/// its end, and the block on lines of its own behind it; the block alone where the text is
/// nothing but white space.
pub proof fn law_inserted_text(
    text: Seq<char>,
    space: Seq<char>,
    begin: Seq<char>,
    body: Seq<char>,
    end: Seq<char>,
)
    requires
        no_row_is(text + space, begin),
        forall|i: int| 0 <= i < space.len() ==> is_white(#[trigger] space[i]),
        text.len() > 0 ==> !is_white(text.last()),
    ensures
        inserted(text + space, begin, end, body) == (if text.len() > 0 {
            text + seq!['\n']
        } else {
            seq![]
        }) + (begin + seq!['\n'] + body + seq!['\n'] + end + seq!['\n']),
{
    reveal_strlit("\n");
    assert("\n"@ == seq!['\n']);
    law_remove_absent_is_noop(text + space, begin, end);
    assert forall|i: int| 0 <= i < space.len() implies white()(#[trigger] space[i]) by {}
    law_drop_end(text, space, white());
}

} // verus!
