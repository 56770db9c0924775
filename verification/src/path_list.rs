//! Lists of directories as they stand in a `Path` value: entries separated by
//! `;`, compared without regard to case, slash direction or trailing slashes,
//! and kept verbatim.

use crate::pieces::{
    join, join_with, lemma_join_split, lemma_split_concat, lemma_split_free, lemma_split_join,
    lemma_split_single, split, split_at_each, views,
};
use crate::text::{
    all_white, ascii_lower, chars_of, drop_end, drop_start, either, is_white, law_drop_end,
    law_trimmed, lower, lower_all, same, trim, trim_end_of, trimmed, white,
};
use vstd::prelude::*;
use vstd::string::*;

verus! {

/// A character as entries are compared: slashes turned, capitals lowered.
pub open spec fn fold(c: char) -> char {
    if c == '/' {
        '\\'
    } else {
        lower(c)
    }
}

/// A text as entries are compared, character by character.
pub open spec fn folded(s: Seq<char>) -> Seq<char> {
    s.map_values(|c: char| fold(c))
}

/// A path segment as entries are compared: the product's two directory names
/// count as one.
pub open spec fn canonical_segment(segment: Seq<char>) -> Seq<char> {
    if segment == "ghost ftp"@ {
        "ghostftp"@
    } else {
        segment
    }
}

/// The segments of a path as entries are compared.
pub open spec fn canonical_segments(segments: Seq<Seq<char>>) -> Seq<Seq<char>> {
    segments.map_values(|s: Seq<char>| canonical_segment(s))
}

/// What of an entry is compared: the text between surrounding white space,
/// without trailing slashes.
pub open spec fn core_of(e: Seq<char>) -> Seq<char> {
    drop_end(trimmed(e), either('\\', '/'))
}

/// An entry in the form in which entries are compared.
pub open spec fn normal(e: Seq<char>) -> Seq<char> {
    join(canonical_segments(split(folded(core_of(e)), '\\')), seq!['\\'])
}

fn fold_text(s: &str) -> (r: String)
    ensures
        r@ == folded(s@),
{
    let v = chars_of(s);
    let mut out = String::new();
    let mut i: usize = 0;
    while i < v.len()
        invariant
            i <= v.len(),
            out@ == folded(v@.take(i as int)),
        decreases v.len() - i,
    {
        if v[i] == '/' {
            out.push('\\');
        } else {
            out.push(ascii_lower(v[i]));
        }
        proof {
            assert(folded(v@.take(i + 1)) == folded(v@.take(i as int)).push(fold(v@[i as int])));
        }
        i = i + 1;
    }
    proof {
        assert(v@.take(v@.len() as int) == v@);
    }
    out
}

fn canonical_all(parts: &Vec<String>) -> (r: Vec<String>)
    ensures
        views(r@) == canonical_segments(views(parts@)),
{
    let mut out: Vec<String> = Vec::new();
    let mut i: usize = 0;
    while i < parts.len()
        invariant
            i <= parts.len(),
            views(out@) == canonical_segments(views(parts@)).take(i as int),
        decreases parts.len() - i,
    {
        let ghost before = views(out@);
        if same(parts[i].as_str(), "ghost ftp") {
            out.push("ghostftp".to_owned());
        } else {
            out.push(parts[i].clone());
        }
        proof {
            assert(views(out@) == before.push(out@.last()@));
            assert(canonical_segments(views(parts@)).take(i + 1) == before.push(
                canonical_segment(parts@[i as int]@),
            ));
        }
        i = i + 1;
    }
    proof {
        let all = canonical_segments(views(parts@));
        assert(all.take(all.len() as int) == all);
    }
    out
}

/// An entry in the form in which entries are compared. Only for comparison:
/// what is stored keeps its original characters.
pub fn normalize_entry(e: &str) -> (r: String)
    ensures
        r@ == normal(e@),
{
    let core = trim_end_of(trim(e), '\\', '/');
    let segments = split_at_each(fold_text(core).as_str(), '\\');
    let canonical = canonical_all(&segments);
    proof {
        reveal_strlit("\\");
        assert("\\"@ == seq!['\\']);
    }
    join_with(&canonical, "\\")
}

/// Whether `entry` stands for the same directory as `dir`.
pub open spec fn same_entry(entry: Seq<char>, dir: Seq<char>) -> bool {
    normal(entry) == normal(dir)
}

/// Whether one of the entries between the separators `sep` in `value` stands
/// for the directory `dir`.
pub open spec fn lists(value: Seq<char>, sep: char, dir: Seq<char>) -> bool {
    exists|i: int| 0 <= i < split(value, sep).len() && same_entry(#[trigger] split(value, sep)[i], dir)
}

/// Whether `dir` names a directory and is one of the entries in `value`.
pub open spec fn has_dir(value: Seq<char>, dir: Seq<char>) -> bool {
    normal(dir).len() > 0 && lists(value, ';', dir)
}

/// Whether one of the entries between the separators `sep` in `value` stands
/// for the directory `dir`.
pub fn lists_dir(value: &str, sep: char, dir: &str) -> (r: bool)
    ensures
        r == lists(value@, sep, dir@),
{
    let target = normalize_entry(dir);
    let entries = split_at_each(value, sep);
    let mut i: usize = 0;
    while i < entries.len()
        invariant
            i <= entries.len(),
            target@ == normal(dir@),
            views(entries@) == split(value@, sep),
            forall|j: int| 0 <= j < i ==> !same_entry(#[trigger] split(value@, sep)[j], dir@),
        decreases entries.len() - i,
    {
        proof {
            assert(split(value@, sep)[i as int] == entries@[i as int]@);
        }
        if normalize_entry(entries[i].as_str()) == target {
            return true;
        }
        i = i + 1;
    }
    false
}

/// Whether `dir` is already one of the `;`-separated entries in `value`.
pub fn contains_dir(value: &str, dir: &str) -> (r: bool)
    ensures
        r == has_dir(value@, dir@),
{
    let target = normalize_entry(dir);
    !target.as_str().is_empty() && lists_dir(value, ';', dir)
}

/// `value` with `dir` as a further last entry, unless it is there already.
pub open spec fn added(value: Seq<char>, dir: Seq<char>) -> Seq<char> {
    if has_dir(value, dir) {
        value
    } else if value.len() == 0 {
        dir
    } else {
        value + seq![';'] + dir
    }
}

/// Appends `dir` as a new entry unless it is already present. Every existing
/// entry, empty ones included, stays verbatim.
pub fn add_dir(value: &str, dir: &str) -> (r: String)
    ensures
        r@ == added(value@, dir@),
{
    if contains_dir(value, dir) {
        return value.to_owned();
    }
    if value.is_empty() {
        return dir.to_owned();
    }
    let mut r = value.to_owned();
    r.append(";");
    r.append(dir);
    proof {
        reveal_strlit(";");
        assert(";"@ == seq![';']);
    }
    r
}

/// The predicate "does not stand for `dir`", as a value.
pub open spec fn unlike(dir: Seq<char>) -> spec_fn(Seq<char>) -> bool {
    |e: Seq<char>| !same_entry(e, dir)
}

/// `value` without the entries that stand for `dir`.
pub open spec fn removed(value: Seq<char>, dir: Seq<char>) -> Seq<char> {
    join(split(value, ';').filter(unlike(dir)), seq![';'])
}

/// Removes every entry that stands for `dir` and leaves all others verbatim.
pub fn remove_dir(value: &str, dir: &str) -> (r: String)
    ensures
        r@ == removed(value@, dir@),
{
    let target = normalize_entry(dir);
    let entries = split_at_each(value, ';');
    let mut kept: Vec<String> = Vec::new();
    let ghost all = split(value@, ';');
    let mut i: usize = 0;
    proof {
        reveal(Seq::filter);
        assert(all.take(0).filter(unlike(dir@)) == Seq::<Seq<char>>::empty());
        assert(views(kept@) == Seq::<Seq<char>>::empty());
    }
    while i < entries.len()
        invariant
            i <= entries.len(),
            target@ == normal(dir@),
            all == split(value@, ';'),
            views(entries@) == all,
            views(kept@) == all.take(i as int).filter(unlike(dir@)),
        decreases entries.len() - i,
    {
        let ghost before = views(kept@);
        proof {
            reveal(Seq::filter);
            assert(all[i as int] == entries@[i as int]@);
            assert(all.take(i + 1).drop_last() == all.take(i as int));
            assert(all.take(i + 1).last() == all[i as int]);
        }
        if normalize_entry(entries[i].as_str()) != target {
            kept.push(entries[i].clone());
            proof {
                assert(views(kept@) == before.push(kept@.last()@));
            }
        }
        i = i + 1;
    }
    proof {
        assert(all.take(all.len() as int) == all);
        reveal_strlit(";");
        assert(";"@ == seq![';']);
    }
    join_with(&kept, ";")
}

// ---------------------------------------------------------------- laws
/// A new entry comes last and changes no other: the entries afterwards are those
/// from before and `dir`.
pub proof fn law_add_preserves_entries(value: Seq<char>, dir: Seq<char>)
    requires
        !has_dir(value, dir),
        value.len() > 0,
        !dir.contains(';'),
    ensures
        split(added(value, dir), ';') == split(value, ';').push(dir),
{
    lemma_split_concat(value, dir, ';');
    lemma_split_single(dir, ';');
    assert(split(value, ';') + seq![dir] == split(value, ';').push(dir));
}

/// Once added, a directory is listed.
pub proof fn law_added_is_listed(value: Seq<char>, dir: Seq<char>)
    requires
        !dir.contains(';'),
        normal(dir).len() > 0,
    ensures
        has_dir(added(value, dir), dir),
{
    if !has_dir(value, dir) {
        if value.len() == 0 {
            lemma_split_single(dir, ';');
            assert(split(dir, ';')[0] == dir);
        } else {
            law_add_preserves_entries(value, dir);
            let after = split(added(value, dir), ';');
            assert(after[after.len() - 1] == dir);
        }
    }
}

/// Adding a directory again, under any spelling that compares equal, changes
/// nothing.
pub proof fn law_add_is_idempotent(value: Seq<char>, dir: Seq<char>, again: Seq<char>)
    requires
        !dir.contains(';'),
        normal(dir).len() > 0,
        normal(again) == normal(dir),
    ensures
        added(added(value, dir), again) == added(value, dir),
{
    law_added_is_listed(value, dir);
    let after = added(value, dir);
    let i = choose|i: int|
        0 <= i < split(after, ';').len() && same_entry(#[trigger] split(after, ';')[i], dir);
    assert(same_entry(split(after, ';')[i], again));
}

/// Filtering keeps everything where every element meets the predicate.
proof fn lemma_filter_all(s: Seq<Seq<char>>, p: spec_fn(Seq<char>) -> bool)
    requires
        forall|i: int| 0 <= i < s.len() ==> p(#[trigger] s[i]),
    ensures
        s.filter(p) == s,
    decreases s.len(),
{
    reveal(Seq::filter);
    if s.len() > 0 {
        let t = s.drop_last();
        assert forall|i: int| 0 <= i < t.len() implies p(#[trigger] t[i]) by {
            assert(t[i] == s[i]);
        }
        lemma_filter_all(t, p);
        assert(p(s[s.len() - 1]));
        assert(t.push(s.last()) == s);
    }
}

/// Removing a directory that is not listed leaves the value untouched.
pub proof fn law_remove_absent_is_noop(value: Seq<char>, dir: Seq<char>)
    requires
        !lists(value, ';', dir),
    ensures
        removed(value, dir) == value,
{
    lemma_filter_all(split(value, ';'), unlike(dir));
    lemma_join_split(value, ';');
}

/// Removing a directory that was added to a value without it restores that
/// value character for character.
pub proof fn law_remove_undoes_add(value: Seq<char>, dir: Seq<char>)
    requires
        value.len() == 0 || !lists(value, ';', dir),
        !dir.contains(';'),
        !has_dir(value, dir),
    ensures
        removed(added(value, dir), dir) == value,
{
    reveal(Seq::filter);
    if value.len() == 0 {
        lemma_split_single(dir, ';');
        let none = Seq::<Seq<char>>::empty();
        assert(none.filter(unlike(dir)) == none);
        assert(seq![dir].drop_last() == none);
        assert(seq![dir].last() == dir);
        assert(seq![dir].filter(unlike(dir)) == Seq::<Seq<char>>::empty());
        assert(removed(dir, dir) == value);
    } else {
        law_add_preserves_entries(value, dir);
        let all = split(value, ';');
        assert(all.push(dir).drop_last() == all);
        lemma_filter_all(all, unlike(dir));
        lemma_join_split(value, ';');
    }
}

/// What is left after a removal are the other entries, verbatim and in order.
pub proof fn law_remove_is_surgical(value: Seq<char>, dir: Seq<char>)
    requires
        split(value, ';').filter(unlike(dir)).len() > 0,
    ensures
        split(removed(value, dir), ';') == split(value, ';').filter(unlike(dir)),
{
    let all = split(value, ';');
    let kept = all.filter(unlike(dir));
    lemma_split_free(value, ';');
    assert forall|i: int| 0 <= i < kept.len() implies !(#[trigger] kept[i]).contains(';') by {
        all.lemma_filter_contains_rev(unlike(dir), kept[i]);
        let j = choose|j: int| 0 <= j < all.len() && all[j] == kept[i];
        assert(!all[j].contains(';'));
    }
    lemma_split_join(kept, ';');
}

/// After a removal the directory is no longer listed.
pub proof fn law_removed_is_not_listed(value: Seq<char>, dir: Seq<char>)
    ensures
        !has_dir(removed(value, dir), dir),
{
    let kept = split(value, ';').filter(unlike(dir));
    if normal(dir).len() > 0 {
        if kept.len() > 0 {
            law_remove_is_surgical(value, dir);
            let after = split(removed(value, dir), ';');
            assert forall|i: int| 0 <= i < after.len() implies !same_entry(
                #[trigger] after[i],
                dir,
            ) by {
                split(value, ';').lemma_filter_pred(unlike(dir), i);
                assert(unlike(dir)(kept[i]));
            }
        } else {
            let after = removed(value, dir);
            assert(after == Seq::<char>::empty());
            lemma_split_single(after, ';');
            lemma_normal_empty();
        }
    }
}

proof fn lemma_normal_empty()
    ensures
        normal(seq![]).len() == 0,
{
    let e = Seq::<char>::empty();
    assert(folded(e) == e);
    lemma_split_single(e, '\\');
    reveal_strlit("ghost ftp");
    assert(canonical_segments(seq![e]) == seq![e]);
}

/// Dropping at the end commutes with changing characters in a way that the
/// predicate does not see.
proof fn lemma_drop_end_map(s: Seq<char>, p: spec_fn(char) -> bool, f: spec_fn(char) -> char)
    requires
        forall|c: char| p(#[trigger] f(c)) == p(c),
    ensures
        drop_end(s.map_values(f), p) == drop_end(s, p).map_values(f),
    decreases s.len(),
{
    let m = s.map_values(f);
    if s.len() > 0 {
        assert(m.last() == f(s.last()));
        if p(s.last()) {
            assert(m.drop_last() == s.drop_last().map_values(f));
            lemma_drop_end_map(s.drop_last(), p, f);
        }
    }
}

/// Dropping at the start commutes with changing characters in a way that the
/// predicate does not see.
proof fn lemma_drop_start_map(s: Seq<char>, p: spec_fn(char) -> bool, f: spec_fn(char) -> char)
    requires
        forall|c: char| p(#[trigger] f(c)) == p(c),
    ensures
        drop_start(s.map_values(f), p) == drop_start(s, p).map_values(f),
    decreases s.len(),
{
    let m = s.map_values(f);
    if s.len() > 0 {
        assert(m[0] == f(s[0]));
        if p(s[0]) {
            assert(m.drop_first() == s.drop_first().map_values(f));
            lemma_drop_start_map(s.drop_first(), p, f);
        }
    }
}

/// Changing characters in a way that neither trimming nor folding sees changes
/// nothing in the form in which entries are compared.
proof fn lemma_normal_map(e: Seq<char>, f: spec_fn(char) -> char)
    requires
        forall|c: char| is_white(#[trigger] f(c)) == is_white(c),
        forall|c: char| either('\\', '/')(#[trigger] f(c)) == either('\\', '/')(c),
        forall|c: char| fold(#[trigger] f(c)) == fold(c),
    ensures
        normal(e.map_values(f)) == normal(e),
{
    assert forall|c: char| white()(#[trigger] f(c)) == white()(c) by {}
    lemma_drop_start_map(e, white(), f);
    lemma_drop_end_map(drop_start(e, white()), white(), f);
    lemma_drop_end_map(trimmed(e), either('\\', '/'), f);
    assert(folded(core_of(e).map_values(f)) == folded(core_of(e)));
}

/// The case of ASCII letters plays no part in the comparison.
pub proof fn law_case_is_ignored(e: Seq<char>)
    ensures
        normal(lower_all(e)) == normal(e),
{
    lemma_normal_map(e, |c: char| lower(c));
}

/// `s` with every `/` turned into `\`.
pub open spec fn turned(s: Seq<char>) -> Seq<char> {
    s.map_values(|c: char| if c == '/' { '\\' } else { c })
}

/// The direction of slashes plays no part in the comparison.
pub proof fn law_slash_direction_is_ignored(e: Seq<char>)
    ensures
        normal(turned(e)) == normal(e),
{
    lemma_normal_map(e, |c: char| if c == '/' { '\\' } else { c });
}

/// A trailing slash, of either kind, plays no part in the comparison of an entry
/// that does not end in white space.
pub proof fn law_trailing_slash_is_ignored(e: Seq<char>, slash: char)
    requires
        slash == '/' || slash == '\\',
        e.len() > 0 ==> !is_white(e.last()),
    ensures
        normal(e.push(slash)) == normal(e),
{
    lemma_drop_start_append(e, seq![slash], white());
    assert(e + seq![slash] == e.push(slash));
    let left = drop_start(e, white());
    crate::text::lemma_drop_start_shape(e, white());
    assert(drop_start(e.push(slash), white()) == left + seq![slash]);
    assert((left + seq![slash]).last() == slash);
    assert(trimmed(e.push(slash)) == left + seq![slash]);
    if left.len() > 0 {
        assert(left.last() == e.last());
    }
    assert(trimmed(e) == left);
    assert((left + seq![slash]).drop_last() == left);
}

/// Dropping at the start of a text whose second part begins with a character
/// that stays affects the first part alone.
proof fn lemma_drop_start_append(a: Seq<char>, b: Seq<char>, p: spec_fn(char) -> bool)
    requires
        b.len() > 0,
        !p(b[0]),
    ensures
        drop_start(a + b, p) == drop_start(a, p) + b,
    decreases a.len(),
{
    if a.len() == 0 {
        assert(a + b == b);
        assert(drop_start(a, p) + b == b);
    } else {
        assert((a + b)[0] == a[0]);
        if p(a[0]) {
            assert((a + b).drop_first() == a.drop_first() + b);
            lemma_drop_start_append(a.drop_first(), b, p);
        }
    }
}

/// Dropping at the end of a text whose first part ends in a character that stays
/// affects the second part alone.
proof fn lemma_drop_end_append(a: Seq<char>, b: Seq<char>, p: spec_fn(char) -> bool)
    requires
        a.len() > 0,
        !p(a.last()),
    ensures
        drop_end(a + b, p) == a + drop_end(b, p),
    decreases b.len(),
{
    if b.len() == 0 {
        assert(a + b == a);
        assert(a + drop_end(b, p) == a);
    } else {
        assert((a + b).last() == b.last());
        if p(b.last()) {
            assert((a + b).drop_last() == a + b.drop_last());
            lemma_drop_end_append(a, b.drop_last(), p);
        }
    }
}

/// The two spellings of the product's directory compare equal: `Ghost FTP` and
/// `GhostFTP` as a whole segment, anywhere behind a backslash.
pub proof fn law_product_directories_compare_equal(left: Seq<char>, right: Seq<char>)
    requires
        right.len() == 0 || right[0] == '\\',
    ensures
        normal(left + "\\Ghost FTP"@ + right) == normal(left + "\\GhostFTP"@ + right),
{
    reveal_strlit("\\Ghost FTP");
    reveal_strlit("\\GhostFTP");
    reveal_strlit("ghost ftp");
    reveal_strlit("ghostftp");
    assert(folded("\\Ghost FTP"@.drop_first()) == "ghost ftp"@);
    assert(folded("\\GhostFTP"@.drop_first()) == "ghostftp"@);
    lemma_normal_of_segment(left, "\\Ghost FTP"@, "ghost ftp"@, right);
    lemma_normal_of_segment(left, "\\GhostFTP"@, "ghostftp"@, right);
    assert(canonical_segment("ghost ftp"@) == "ghostftp"@);
    assert("ghostftp"@ != "ghost ftp"@) by {
        assert("ghostftp"@.len() != "ghost ftp"@.len());
    }
}

/// The parts of an entry around one segment: what precedes it and what follows,
/// as far as they are compared.
pub open spec fn around(left: Seq<char>, segment: Seq<char>, right: Seq<char>) -> Seq<char> {
    let tail = drop_end(drop_end(right, white()), either('\\', '/'));
    let before = canonical_segments(split(folded(drop_start(left, white())), '\\'));
    let middle = seq![canonical_segment(segment)];
    join(
        if tail.len() == 0 {
            before + middle
        } else {
            before + middle + canonical_segments(split(folded(tail.drop_first()), '\\'))
        },
        seq!['\\'],
    )
}

proof fn lemma_normal_of_segment(
    left: Seq<char>,
    name: Seq<char>,
    segment: Seq<char>,
    right: Seq<char>,
)
    requires
        name.len() > 1,
        name[0] == '\\',
        name.last() == 'P',
        folded(name.drop_first()) == segment,
        !segment.contains('\\'),
        right.len() == 0 || right[0] == '\\',
    ensures
        normal(left + name + right) == around(left, segment, right),
{
    let slashes = either('\\', '/');
    let start = drop_start(left, white());
    let r1 = drop_end(right, white());
    let tail = drop_end(r1, slashes);
    // trimming works on `left` and `right` alone
    assert(left + name + right == left + (name + right));
    lemma_drop_start_append(left, name + right, white());
    assert(start + (name + right) == (start + name) + right);
    lemma_drop_end_append(start + name, right, white());
    lemma_drop_end_append(start + name, r1, slashes);
    assert(core_of(left + name + right) == start + name + tail);
    // the folded text, cut at the segment
    assert(folded(start + name + tail) == folded(start) + seq!['\\'] + (segment + folded(tail)))
        by {
        assert(folded(name) == seq!['\\'] + segment) by {
            assert(name == seq![name[0]] + name.drop_first());
            assert(folded(name)[0] == '\\');
            assert(folded(name).drop_first() == folded(name.drop_first()));
        }
        assert(folded(start + name + tail) == folded(start) + folded(name) + folded(tail));
        assert(folded(start) + (seq!['\\'] + segment) + folded(tail) == folded(start) + seq!['\\']
            + (segment + folded(tail)));
    }
    lemma_split_concat(folded(start), segment + folded(tail), '\\');
    lemma_split_single(segment, '\\');
    crate::text::lemma_drop_end_shape(right, white());
    crate::text::lemma_drop_end_shape(r1, slashes);
    let before = split(folded(start), '\\');
    if tail.len() == 0 {
        assert(segment + folded(tail) == segment);
        assert(canonical_segments(before + seq![segment]) == canonical_segments(before) + seq![
            canonical_segment(segment),
        ]);
    } else {
        assert(tail[0] == '\\');
        let rest = folded(tail.drop_first());
        assert(segment + folded(tail) == segment + seq!['\\'] + rest);
        lemma_split_concat(segment, rest, '\\');
        assert(canonical_segments(before + (seq![segment] + split(rest, '\\')))
            == canonical_segments(before) + seq![canonical_segment(segment)] + canonical_segments(
            split(rest, '\\'),
        ));
    }
}

/// A character as entries are compared, in words: a slash of either kind is a backslash,
/// an ASCII capital is its small letter, and any other character is itself.
pub proof fn law_fold_of_character(c: char)
    ensures
        c == '/' ==> fold(c) == '\\',
        'A' <= c <= 'Z' ==> fold(c) as u32 == c as u32 + 32,
        c != '/' && !('A' <= c <= 'Z') ==> fold(c) == c,
{
}

/// Whether `core` stands in `e` at `start`, with nothing but blanks before it and nothing
/// but blanks and slashes behind it.
pub open spec fn stands_bare(e: Seq<char>, core: Seq<char>, start: int) -> bool {
    &&& 0 <= start
    &&& start + core.len() <= e.len()
    &&& core == e.subrange(start, start + core.len())
    &&& forall|i: int| 0 <= i < start ==> is_white(#[trigger] e[i])
    &&& forall|i: int|
        start + core.len() <= i < e.len() ==> is_white(#[trigger] e[i]) || e[i] == '/' || e[i]
            == '\\'
}

/// What of an entry is compared: all of it but for blanks around it and slashes behind it.
pub proof fn law_core_of_entry(e: Seq<char>)
    ensures
        exists|start: int| #[trigger] stands_bare(e, core_of(e), start),
        core_of(e).len() > 0 ==> core_of(e).last() != '/' && core_of(e).last() != '\\',
        core_of(e).len() > 0 ==> !is_white(core_of(e)[0]),
{
    let left = drop_start(e, white());
    let mid = drop_end(left, white());
    let core = drop_end(mid, either('\\', '/'));
    crate::text::lemma_drop_start_shape(e, white());
    crate::text::lemma_drop_end_shape(left, white());
    crate::text::lemma_drop_end_shape(mid, either('\\', '/'));
    let start = e.len() - left.len();
    assert(core == e.subrange(start, start + core.len()));
    assert forall|i: int| 0 <= i < start implies is_white(#[trigger] e[i]) by {
        assert(white()(e[i]));
    }
    assert forall|i: int| start + core.len() <= i < e.len() implies is_white(#[trigger] e[i])
        || e[i] == '/' || e[i] == '\\' by {
        let k = i - start;
        assert(left[k] == e[i]);
        if k < mid.len() {
            assert(mid[k] == left[k]);
            assert(either('\\', '/')(mid[k]));
        } else {
            assert(white()(left[k]));
        }
    }
    assert(core_of(e) == core);
    assert(stands_bare(e, core_of(e), start));
    if core.len() > 0 {
        assert(core[0] == left[0]);
        assert(!either('\\', '/')(core.last()));
    }
}

/// Whether two segments name the same directory: they are equal, or are the two spellings
/// of the product's directory.
pub open spec fn same_segment(a: Seq<char>, b: Seq<char>) -> bool {
    ||| a == b
    ||| a == "ghost ftp"@ && b == "ghostftp"@
    ||| a == "ghostftp"@ && b == "ghost ftp"@
}

/// Entries compare equal only where they name the same directory: they have as many
/// segments, and each two of them are equal, or are the two spellings of the product's
/// directory.
pub proof fn law_equal_entries_name_the_same_directory(a: Seq<char>, b: Seq<char>)
    requires
        normal(a) == normal(b),
    ensures
        ({
            let x = split(folded(core_of(a)), '\\');
            let y = split(folded(core_of(b)), '\\');
            &&& x.len() == y.len()
            &&& forall|i: int| 0 <= i < x.len() ==> same_segment(#[trigger] x[i], y[i])
        }),
{
    let x = split(folded(core_of(a)), '\\');
    let y = split(folded(core_of(b)), '\\');
    lemma_canonical_free(folded(core_of(a)));
    lemma_canonical_free(folded(core_of(b)));
    lemma_split_join(canonical_segments(x), '\\');
    lemma_split_join(canonical_segments(y), '\\');
    assert(canonical_segments(x) == canonical_segments(y));
    assert(canonical_segments(x).len() == x.len() && canonical_segments(y).len() == y.len());
    assert forall|i: int| 0 <= i < x.len() implies same_segment(#[trigger] x[i], y[i]) by {
        assert(canonical_segments(x)[i] == canonical_segment(x[i]));
        assert(canonical_segments(y)[i] == canonical_segment(y[i]));
    }
}

/// Entries that name the same directory compare equal.
pub proof fn law_same_directory_compares_equal(a: Seq<char>, b: Seq<char>)
    requires
        ({
            let x = split(folded(core_of(a)), '\\');
            let y = split(folded(core_of(b)), '\\');
            &&& x.len() == y.len()
            &&& forall|i: int| 0 <= i < x.len() ==> same_segment(#[trigger] x[i], y[i])
        }),
    ensures
        normal(a) == normal(b),
{
    let x = split(folded(core_of(a)), '\\');
    let y = split(folded(core_of(b)), '\\');
    reveal_strlit("ghost ftp");
    reveal_strlit("ghostftp");
    assert("ghost ftp"@.len() != "ghostftp"@.len());
    assert forall|i: int| 0 <= i < x.len() implies canonical_segments(x)[i] == canonical_segments(
        y,
    )[i] by {
        assert(same_segment(x[i], y[i]));
    }
    assert(canonical_segments(x) == canonical_segments(y));
}

/// The segments of a text as they are compared hold no backslash, and there is at least
/// one.
proof fn lemma_canonical_free(s: Seq<char>)
    ensures
        canonical_segments(split(s, '\\')).len() > 0,
        forall|i: int|
            0 <= i < canonical_segments(split(s, '\\')).len() ==> !(#[trigger] canonical_segments(
                split(s, '\\'),
            )[i]).contains('\\'),
{
    crate::pieces::lemma_split_nonempty(s, '\\');
    lemma_split_free(s, '\\');
    reveal_strlit("ghostftp");
    let parts = split(s, '\\');
    assert forall|i: int| 0 <= i < canonical_segments(parts).len() implies !(
    #[trigger] canonical_segments(parts)[i]).contains('\\') by {
        assert(!parts[i].contains('\\'));
    }
}

/// A directory is listed exactly where an entry between the semicolons compares equal to
/// it; an empty one never is.
pub proof fn law_listed_iff_an_entry_is(value: Seq<char>, dir: Seq<char>)
    ensures
        has_dir(value, dir) <==> normal(dir).len() > 0 && exists|i: int|
            0 <= i < split(value, ';').len() && normal(#[trigger] split(value, ';')[i]) == normal(
                dir,
            ),
{
    if has_dir(value, dir) {
        let i = choose|i: int|
            0 <= i < split(value, ';').len() && same_entry(#[trigger] split(value, ';')[i], dir);
        assert(normal(split(value, ';')[i]) == normal(dir));
    }
    if exists|i: int|
        0 <= i < split(value, ';').len() && normal(#[trigger] split(value, ';')[i]) == normal(dir) {
        let i = choose|i: int|
            0 <= i < split(value, ';').len() && normal(#[trigger] split(value, ';')[i]) == normal(
                dir,
            );
        assert(same_entry(split(value, ';')[i], dir));
    }
}

/// A removal drops the entries that compare equal to the directory and keeps all others,
/// in their order.
pub proof fn law_remove_drops_only_equal_entries(value: Seq<char>, dir: Seq<char>)
    ensures
        ({
            let kept = split(value, ';').filter(|e: Seq<char>| normal(e) != normal(dir));
            &&& kept.len() > 0 ==> split(removed(value, dir), ';') == kept
            &&& kept.len() == 0 ==> removed(value, dir).len() == 0
        }),
{
    let keep = |e: Seq<char>| normal(e) != normal(dir);
    assert(keep =~= unlike(dir));
    let kept = split(value, ';').filter(keep);
    if kept.len() > 0 {
        law_remove_is_surgical(value, dir);
    }
}

/// An addition leaves a value that lists the directory as it is, gives the directory alone
/// for an empty value, and else appends it behind a semicolon.
pub proof fn law_add_appends_or_leaves(value: Seq<char>, dir: Seq<char>)
    ensures
        added(value, dir) == if has_dir(value, dir) {
            value
        } else if value.len() == 0 {
            dir
        } else {
            value + seq![';'] + dir
        },
{
}

/// A text is compared character by character.
pub proof fn law_fold_of_text(s: Seq<char>)
    ensures
        folded(s).len() == s.len(),
        forall|i: int| 0 <= i < s.len() ==> #[trigger] folded(s)[i] == fold(s[i]),
{
}

/// What of an entry is compared: the text between the white space at its ends, without the
/// slashes behind it. White space before those slashes belongs to it.
pub proof fn law_core_of_text(
    before: Seq<char>,
    text: Seq<char>,
    slashes: Seq<char>,
    after: Seq<char>,
)
    requires
        all_white(before),
        all_white(after),
        text.len() > 0 ==> !is_white(text[0]) && text.last() != '/' && text.last() != '\\',
        forall|i: int| 0 <= i < slashes.len() ==> #[trigger] slashes[i] == '/' || slashes[i]
            == '\\',
        text.len() > 0 && slashes.len() == 0 ==> !is_white(text.last()),
    ensures
        core_of(before + (text + slashes) + after) == text,
{
    let all = text + slashes;
    if all.len() > 0 {
        if slashes.len() > 0 {
            assert(all.last() == slashes[slashes.len() - 1]);
        } else {
            assert(all.last() == text.last());
        }
        if text.len() > 0 {
            assert(all[0] == text[0]);
        } else {
            assert(all[0] == slashes[0]);
        }
    }
    law_trimmed(before, all, after);
    law_drop_end(text, slashes, either('\\', '/'));
}

} // verus!
