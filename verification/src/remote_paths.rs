//! Names and paths of files: parents, names for copies, names for exports.

use crate::numerals::{decimal, lemma_decimal_injective, lemma_decimal_shape, to_decimal};
use crate::search::{last_index, lemma_last_index, lemma_last_index_is, rfind};
use crate::text::{all_white, chars_of, either, is_white, law_trimmed, trim, trimmed};
use vstd::prelude::*;
use vstd::string::*;

verus! {

/// The predicate "is `c`", as a value.
pub open spec fn is_char(c: char) -> spec_fn(char) -> bool {
    either(c, c)
}

/// The parent of a POSIX path: what stands before its last slash; `.` where there
/// is none. The parent of `/foo` is the empty text.
pub open spec fn parent_part(path: Seq<char>) -> Seq<char> {
    let i = last_index(path, is_char('/'));
    if i < 0 {
        "."@
    } else {
        path.take(i)
    }
}

/// The last component of a POSIX path: what stands behind its last slash.
pub open spec fn name_part(path: Seq<char>) -> Seq<char> {
    path.skip(last_index(path, is_char('/')) + 1)
}

/// Splits a POSIX path into its parent and its last component: `/foo` into the
/// empty text and `foo`, `/a/b` into `/a` and `b`, `rel` into `.` and `rel`.
pub fn split_remote(path: &str) -> (r: (&str, &str))
    ensures
        r.0@ == parent_part(path@),
        r.1@ == name_part(path@),
{
    let v = chars_of(path);
    let len: usize = v.len();
    match rfind(&v, '/', '/') {
        Some(i) => {
            proof {
                lemma_last_index(v@, either('/', '/'));
                assert(path@.subrange(0, i as int) == path@.take(i as int));
                assert(path@.subrange(i + 1, path@.len() as int) == path@.skip(i + 1));
            }
            (path.substring_char(0, i), path.substring_char(i + 1, len))
        },
        None => {
            assert(path@.skip(0) == path@);
            (".", path)
        },
    }
}

/// The directory of a local or remote path, whichever slashes it has.
pub open spec fn parent_dir(p: Seq<char>) -> Seq<char> {
    let i = last_index(p, either('/', '\\'));
    if i < 0 {
        "."@
    } else if i == 0 {
        "/"@
    } else {
        p.take(i)
    }
}

/// The directory of a local or remote path: `/` for a path whose only slash is its
/// first character, `.` for one without a slash.
pub fn parent_of(p: &str) -> (r: String)
    ensures
        r@ == parent_dir(p@),
{
    let v = chars_of(p);
    proof {
        lemma_last_index(p@, either('/', '\\'));
    }
    match rfind(&v, '/', '\\') {
        Some(i) => if i == 0 {
            "/".to_owned()
        } else {
            proof {
                assert(p@.subrange(0, i as int) == p@.take(i as int));
            }
            p.substring_char(0, i).to_owned()
        },
        None => ".".to_owned(),
    }
}

/// The mark of the `n`-th copy: ` copy` for the first, ` copy 2` for the second.
pub open spec fn copy_mark(n: nat) -> Seq<char> {
    if n <= 1 {
        " copy"@
    } else {
        " copy "@ + decimal(n)
    }
}

/// Where the extension of a file name begins: at its last dot, unless that is
/// its first character or there is none.
pub open spec fn extension_at(name: Seq<char>) -> int {
    let i = last_index(name, is_char('.'));
    if i > 0 {
        i
    } else {
        name.len() as int
    }
}

/// The name of the `n`-th copy of `name`: the mark goes before the extension.
pub open spec fn copied_name(name: Seq<char>, n: nat) -> Seq<char> {
    let at = extension_at(name);
    name.take(at) + copy_mark(n) + name.skip(at)
}

/// The name of the `n`-th copy: `foo copy.txt`, `foo copy 2.txt`. Names without
/// an extension, dot files among them, get the mark at the end.
pub fn copy_name(name: &str, n: usize) -> (r: String)
    ensures
        r@ == copied_name(name@, n as nat),
{
    let mark = if n <= 1 {
        " copy".to_owned()
    } else {
        let mut m = " copy ".to_owned();
        m.append(to_decimal(n as u64).as_str());
        m
    };
    let v = chars_of(name);
    proof {
        lemma_last_index(name@, is_char('.'));
    }
    let at: usize = match rfind(&v, '.', '.') {
        Some(i) => if i > 0 {
            i
        } else {
            v.len()
        },
        None => v.len(),
    };
    proof {
        assert(name@.subrange(0, at as int) == name@.take(at as int));
        assert(name@.subrange(at as int, name@.len() as int) == name@.skip(at as int));
    }
    let mut r = name.substring_char(0, at).to_owned();
    r.append(mark.as_str());
    r.append(name.substring_char(at, v.len()));
    r
}

/// `s` without path separators.
pub open spec fn without_separators(s: Seq<char>) -> Seq<char> {
    s.filter(|c: char| c != '/' && c != '\\')
}

/// The file name for an export: the suggested one without path separators, or a
/// default where nothing but white space is left.
pub open spec fn safe_name(name: Seq<char>) -> Seq<char> {
    let safe = without_separators(name);
    if trimmed(safe).len() == 0 {
        "ghostftp-agent-console.txt"@
    } else {
        safe
    }
}

/// The name under which an export is tried for the `n`-th time: first as it is,
/// then with a number before the extension.
pub open spec fn export_candidate(safe: Seq<char>, n: nat) -> Seq<char> {
    if n == 0 {
        safe
    } else {
        let i = last_index(safe, is_char('.'));
        let at = if i < 0 {
            safe.len() as int
        } else {
            i
        };
        safe.take(at) + " ("@ + decimal(n) + ")"@ + safe.skip(at)
    }
}

fn strip_separators(name: &str) -> (r: String)
    ensures
        r@ == without_separators(name@),
{
    let v = chars_of(name);
    let ghost keep = |c: char| c != '/' && c != '\\';
    let mut out = String::new();
    let mut i: usize = 0;
    proof {
        reveal(Seq::filter);
        assert(v@.take(0).filter(keep) == Seq::<char>::empty());
    }
    while i < v.len()
        invariant
            i <= v.len(),
            keep == (|c: char| c != '/' && c != '\\'),
            out@ == v@.take(i as int).filter(keep),
        decreases v.len() - i,
    {
        proof {
            reveal(Seq::filter);
            assert(v@.take(i + 1).drop_last() == v@.take(i as int));
            assert(v@.take(i + 1).last() == v@[i as int]);
        }
        if v[i] != '/' && v[i] != '\\' {
            out.push(v[i]);
        }
        i = i + 1;
    }
    proof {
        assert(v@.take(v@.len() as int) == v@);
    }
    out
}

/// The file name for an export, free of path separators.
pub fn export_name(name: &str) -> (r: String)
    ensures
        r@ == safe_name(name@),
{
    let safe = strip_separators(name);
    if trim(safe.as_str()).is_empty() {
        "ghostftp-agent-console.txt".to_owned()
    } else {
        safe
    }
}

/// The name under which an export is tried for the `n`-th time, so that it never
/// overwrites a file.
pub fn export_attempt(safe: &str, n: u64) -> (r: String)
    ensures
        r@ == export_candidate(safe@, n as nat),
{
    if n == 0 {
        return safe.to_owned();
    }
    let v = chars_of(safe);
    proof {
        lemma_last_index(safe@, is_char('.'));
    }
    let at: usize = match rfind(&v, '.', '.') {
        Some(i) => i,
        None => v.len(),
    };
    proof {
        assert(safe@.subrange(0, at as int) == safe@.take(at as int));
        assert(safe@.subrange(at as int, safe@.len() as int) == safe@.skip(at as int));
    }
    let mut r = safe.substring_char(0, at).to_owned();
    r.append(" (");
    r.append(to_decimal(n).as_str());
    r.append(")");
    r.append(safe.substring_char(at, v.len()));
    r
}

/// The search for a name under which an export overwrites nothing.
#[derive(Debug, PartialEq, Eq)]
pub struct ExportSearch {
    /// The file name, free of path separators.
    pub safe: String,
    /// How many names have been found taken.
    pub n: u64,
}

/// The search for a name for an export, from the name that was suggested.
pub fn export_agent_log(name: &str) -> (r: ExportSearch)
    ensures
        r.safe@ == safe_name(name@),
        r.n == 0,
{
    ExportSearch { safe: export_name(name), n: 0 }
}

impl ExportSearch {
    /// The name to try.
    pub fn candidate(&self) -> (r: String)
        ensures
            r@ == export_candidate(self.safe@, self.n as nat),
    {
        export_attempt(self.safe.as_str(), self.n)
    }

    /// Goes on after the name has been found taken.
    pub fn next(self) -> (r: Self)
        requires
            self.n < u64::MAX,
        ensures
            r == (ExportSearch { n: (self.n + 1) as u64, ..self }),
    {
        ExportSearch { n: self.n + 1, ..self }
    }
}

// ---------------------------------------------------------------- laws
/// A path with a slash is its parent, a slash and its last component; one without
/// is its last component alone. The last component holds no slash.
pub proof fn law_split_rejoins(path: Seq<char>)
    ensures
        path.contains('/') ==> path == parent_part(path) + seq!['/'] + name_part(path),
        !path.contains('/') ==> name_part(path) == path && parent_part(path) == "."@,
        !name_part(path).contains('/'),
{
    let p = is_char('/');
    lemma_last_index(path, p);
    let i = last_index(path, p);
    if path.contains('/') {
        let k = choose|k: int| 0 <= k < path.len() && path[k] == '/';
        assert(p(path[k]));
        assert(i >= 0);
        assert(path == path.take(i) + seq!['/'] + path.skip(i + 1));
    } else {
        if i >= 0 {
            assert(path[i] == '/');
        }
        assert(path.skip(0) == path);
    }
    let name = name_part(path);
    assert forall|k: int| 0 <= k < name.len() implies name[k] != '/' by {
        assert(name[k] == path[k + i + 1]);
        assert(!p(path[k + i + 1]));
    }
}

/// Marks of different copies differ.
proof fn lemma_marks_differ(m: nat, n: nat)
    requires
        1 <= m,
        1 <= n,
        m != n,
    ensures
        copy_mark(m) != copy_mark(n),
{
    reveal_strlit(" copy");
    reveal_strlit(" copy ");
    lemma_decimal_shape(m);
    lemma_decimal_shape(n);
    if m > 1 && n > 1 {
        if copy_mark(m) == copy_mark(n) {
            let k = " copy "@.len() as int;
            assert(copy_mark(m).skip(k) == decimal(m));
            assert(copy_mark(n).skip(k) == decimal(n));
            lemma_decimal_injective(m, n);
        }
    } else {
        assert(copy_mark(m).len() != copy_mark(n).len());
    }
}

/// Every copy has a name of its own, and none has the original's.
pub proof fn law_copies_have_their_own_names(name: Seq<char>, m: nat, n: nat)
    requires
        1 <= m,
        1 <= n,
        m != n,
    ensures
        copied_name(name, m) != copied_name(name, n),
        copied_name(name, n) != name,
{
    lemma_last_index(name, is_char('.'));
    let at = extension_at(name);
    let a = copied_name(name, m);
    let b = copied_name(name, n);
    lemma_marks_differ(m, n);
    reveal_strlit(" copy");
    reveal_strlit(" copy ");
    assert(b.len() == name.len() + copy_mark(n).len());
    if a == b {
        assert(a.len() == name.len() + copy_mark(m).len());
        assert(a.subrange(at, at + copy_mark(m).len()) == copy_mark(m));
        assert(b.subrange(at, at + copy_mark(n).len()) == copy_mark(n));
    }
}

/// An export's file name holds no path separator, and no attempt puts one in.
pub proof fn law_export_stays_in_its_directory(name: Seq<char>, n: nat)
    ensures
        !export_candidate(safe_name(name), n).contains('/'),
        !export_candidate(safe_name(name), n).contains('\\'),
{
    reveal_strlit("ghostftp-agent-console.txt");
    reveal_strlit(" (");
    reveal_strlit(")");
    let keep = |c: char| c != '/' && c != '\\';
    let safe = safe_name(name);
    assert forall|i: int| 0 <= i < safe.len() implies keep(#[trigger] safe[i]) by {
        if safe == without_separators(name) {
            name.lemma_filter_pred(keep, i);
        }
    }
    let c = export_candidate(safe, n);
    lemma_last_index(safe, is_char('.'));
    lemma_decimal_shape(n);
    if n > 0 {
        let j = last_index(safe, is_char('.'));
        let at = if j < 0 {
            safe.len() as int
        } else {
            j
        };
        let d = decimal(n);
        assert forall|i: int| 0 <= i < c.len() implies keep(#[trigger] c[i]) by {
            if i < at {
                assert(c[i] == safe[i]);
            } else if i < at + 2 {
                assert(c[i] == " ("@[i - at]);
            } else if i < at + 2 + d.len() {
                assert(c[i] == d[i - at - 2]);
            } else if i == at + 2 + d.len() {
                assert(c[i] == ')');
            } else {
                assert(c[i] == safe[i - 3 - d.len()]);
            }
        }
    }
}

/// Different attempts use different names, so that the search for a free one makes
/// progress.
pub proof fn law_export_attempts_differ(safe: Seq<char>, m: nat, n: nat)
    requires
        m != n,
    ensures
        export_candidate(safe, m) != export_candidate(safe, n),
{
    reveal_strlit(" (");
    reveal_strlit(")");
    lemma_last_index(safe, is_char('.'));
    let j = last_index(safe, is_char('.'));
    let at = if j < 0 {
        safe.len() as int
    } else {
        j
    };
    let a = export_candidate(safe, m);
    let b = export_candidate(safe, n);
    if a == b {
        if m > 0 && n > 0 {
            assert(a.len() == safe.len() + 3 + decimal(m).len());
            assert(b.len() == safe.len() + 3 + decimal(n).len());
            assert(a.subrange(at + 2, at + 2 + decimal(m).len()) == decimal(m));
            assert(b.subrange(at + 2, at + 2 + decimal(n).len()) == decimal(n));
            lemma_decimal_injective(m, n);
        } else {
            assert(m > 0 ==> a.len() > safe.len());
            assert(n > 0 ==> b.len() > safe.len());
        }
    }
}

/// The extension of a name, from a dot behind its first character on, is kept: the mark
/// goes before it, and before it goes all that stood there.
pub proof fn law_copy_keeps_extension(stem: Seq<char>, ext: Seq<char>, n: nat)
    requires
        stem.len() > 0,
        !ext.contains('.'),
    ensures
        copied_name(stem + seq!['.'] + ext, n) == stem + copy_mark(n) + seq!['.'] + ext,
{
    let name = stem + seq!['.'] + ext;
    let k = stem.len() as int;
    assert(name[k] == '.');
    assert forall|i: int| k < i < name.len() implies !is_char('.')(#[trigger] name[i]) by {
        assert(name[i] == ext[i - k - 1]);
        assert(ext.contains(ext[i - k - 1]));
    }
    lemma_last_index_is(name, is_char('.'), k);
    assert(name.take(k) == stem);
    assert(name.skip(k) == seq!['.'] + ext);
    assert(stem + copy_mark(n) + (seq!['.'] + ext) == stem + copy_mark(n) + seq!['.'] + ext);
}

/// A name whose only dot, if any, is its first character has no extension: the mark goes
/// behind it.
pub proof fn law_copy_of_plain_name(name: Seq<char>, n: nat)
    requires
        forall|i: int| 1 <= i < name.len() ==> #[trigger] name[i] != '.',
    ensures
        copied_name(name, n) == name + copy_mark(n),
{
    let p = is_char('.');
    if name.len() > 0 && name[0] == '.' {
        lemma_last_index_is(name, p, 0);
    } else {
        assert forall|i: int| -1 < i < name.len() implies !p(#[trigger] name[i]) by {}
        lemma_last_index_is(name, p, -1);
    }
    assert(name.take(name.len() as int) == name);
    assert(name.skip(name.len() as int) == Seq::<char>::empty());
    assert(name + copy_mark(n) + Seq::<char>::empty() == name + copy_mark(n));
}

/// The mark of a copy is ` copy`, and from the second on a blank and its number behind it.
pub proof fn law_copy_mark_text(n: nat)
    ensures
        n <= 1 ==> copy_mark(n) == seq![' ', 'c', 'o', 'p', 'y'],
        n > 1 ==> copy_mark(n) == seq![' ', 'c', 'o', 'p', 'y', ' '] + decimal(n),
{
    reveal_strlit(" copy");
    reveal_strlit(" copy ");
    assert(" copy"@ == seq![' ', 'c', 'o', 'p', 'y']);
    assert(" copy "@ == seq![' ', 'c', 'o', 'p', 'y', ' ']);
}

/// The directory of a path, whichever slashes it has: what stands before its last slash;
/// `/` where that is nothing, and `.` where there is no slash.
pub proof fn law_parent_dir(dir: Seq<char>, slash: char, name: Seq<char>)
    requires
        slash == '/' || slash == '\\',
        !name.contains('/'),
        !name.contains('\\'),
    ensures
        dir.len() > 0 ==> parent_dir(dir + seq![slash] + name) == dir,
        dir.len() == 0 ==> parent_dir(dir + seq![slash] + name) == seq!['/'],
        parent_dir(name) == seq!['.'],
{
    reveal_strlit("/");
    reveal_strlit(".");
    assert("/"@ == seq!['/']);
    assert("."@ == seq!['.']);
    let p = either('/', '\\');
    let path = dir + seq![slash] + name;
    let k = dir.len() as int;
    assert(path[k] == slash);
    assert forall|i: int| k < i < path.len() implies !p(#[trigger] path[i]) by {
        assert(path[i] == name[i - k - 1]);
        assert(name.contains(name[i - k - 1]));
    }
    lemma_last_index_is(path, p, k);
    assert(path.take(k) == dir);
    assert forall|i: int| -1 < i < name.len() implies !p(#[trigger] name[i]) by {
        assert(name.contains(name[i]));
    }
    lemma_last_index_is(name, p, -1);
}

/// An export keeps every character of the name that was suggested but for path separators;
/// only a name of which nothing but blanks is left is replaced.
pub proof fn law_export_keeps_the_name(name: Seq<char>)
    requires
        !name.contains('/'),
        !name.contains('\\'),
        trimmed(name).len() > 0,
    ensures
        safe_name(name) == name,
{
    lemma_no_separators(name);
}

/// Path separators in the name that was suggested play no part.
pub proof fn law_export_drops_separators(a: Seq<char>, slash: char, b: Seq<char>)
    requires
        slash == '/' || slash == '\\',
    ensures
        safe_name(a + seq![slash] + b) == safe_name(a + b),
{
    let keep = |c: char| c != '/' && c != '\\';
    Seq::filter_distributes_over_add(a, b, keep);
    Seq::filter_distributes_over_add(a, seq![slash] + b, keep);
    Seq::filter_distributes_over_add(seq![slash], b, keep);
    reveal(Seq::filter);
    assert(seq![slash].drop_last() == Seq::<char>::empty());
    assert(seq![slash].last() == slash);
    assert(Seq::<char>::empty().filter(keep) == Seq::<char>::empty());
    assert(seq![slash].filter(keep) == Seq::<char>::empty());
    assert(a + (seq![slash] + b) == a + seq![slash] + b);
    assert(Seq::<char>::empty() + b.filter(keep) == b.filter(keep));
}

proof fn lemma_no_separators(name: Seq<char>)
    requires
        !name.contains('/'),
        !name.contains('\\'),
    ensures
        without_separators(name) == name,
    decreases name.len(),
{
    reveal(Seq::filter);
    if name.len() > 0 {
        let rest = name.drop_last();
        assert forall|c: char| rest.contains(c) implies name.contains(c) by {
            let i = choose|i: int| 0 <= i < rest.len() && rest[i] == c;
            assert(name[i] == c);
        }
        lemma_no_separators(rest);
        assert(name.contains(name.last()));
        assert(rest.push(name.last()) == name);
    }
}

/// A further attempt puts its number in brackets before the extension, or at the end where
/// there is none; the first attempt is the name itself.
pub proof fn law_export_attempt_keeps_extension(stem: Seq<char>, ext: Seq<char>, n: nat)
    requires
        !ext.contains('.'),
    ensures
        export_candidate(stem + seq!['.'] + ext, 0) == stem + seq!['.'] + ext,
        n > 0 ==> export_candidate(stem + seq!['.'] + ext, n) == stem + seq![' ', '('] + decimal(n)
            + seq![')'] + seq!['.'] + ext,
        n > 0 ==> export_candidate(ext, n) == ext + seq![' ', '('] + decimal(n) + seq![')'],
{
    reveal_strlit(" (");
    reveal_strlit(")");
    assert(" ("@ == seq![' ', '(']);
    assert(")"@ == seq![')']);
    let p = is_char('.');
    let name = stem + seq!['.'] + ext;
    let k = stem.len() as int;
    assert(name[k] == '.');
    assert forall|i: int| k < i < name.len() implies !p(#[trigger] name[i]) by {
        assert(name[i] == ext[i - k - 1]);
        assert(ext.contains(ext[i - k - 1]));
    }
    lemma_last_index_is(name, p, k);
    assert(name.take(k) == stem);
    assert(name.skip(k) == seq!['.'] + ext);
    assert forall|i: int| -1 < i < ext.len() implies !p(#[trigger] ext[i]) by {
        assert(ext.contains(ext[i]));
    }
    lemma_last_index_is(ext, p, -1);
    assert(ext.take(ext.len() as int) == ext);
    assert(ext.skip(ext.len() as int) == Seq::<char>::empty());
}

/// A name of nothing but white space gives way to the default, and so does one without any
/// character.
pub proof fn law_export_default(white: Seq<char>)
    requires
        all_white(white),
    ensures
        safe_name(white) == "ghostftp-agent-console.txt"@,
{
    assert forall|i: int| 0 <= i < white.len() implies #[trigger] white[i] != '/' && white[i]
        != '\\' by {
        assert(is_white(white[i]));
    }
    assert(!white.contains('/'));
    assert(!white.contains('\\'));
    lemma_no_separators(white);
    let none = Seq::<char>::empty();
    law_trimmed(none, none, white);
    assert(none + none + white == white);
}

/// The directory and the name of a path: what stands before its last slash and what stands
/// behind it. A path without a slash is a name, in the directory where one is.
pub proof fn law_split_path(dir: Seq<char>, name: Seq<char>)
    requires
        !name.contains('/'),
    ensures
        parent_part(dir + seq!['/'] + name) == dir,
        name_part(dir + seq!['/'] + name) == name,
        parent_part(name) == seq!['.'],
        name_part(name) == name,
{
    let path = dir + seq!['/'] + name;
    let k = dir.len() as int;
    assert(path[k] == '/');
    assert forall|i: int| k < i < path.len() implies !is_char('/')(#[trigger] path[i]) by {
        assert(path[i] == name[i - k - 1]);
        assert(name.contains(name[i - k - 1]));
    }
    lemma_last_index_is(path, is_char('/'), k);
    assert(path.take(k) == dir);
    assert(path.skip(k + 1) == name);
    law_split_rejoins(name);
    reveal_strlit(".");
    assert("."@ == seq!['.']);
}

} // verus!
