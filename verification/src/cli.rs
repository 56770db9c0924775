//! Rules of the command-line tool: version numbers and remote paths that a
//! local shell has damaged.

use crate::numerals::numeral_value;
use crate::pieces::{
    lemma_split_concat, lemma_split_nonempty, lemma_split_single, split, split_at_each,
};
use crate::search::{law_occurs, occurs, parts_round};
use crate::text::{
    all_white, before_first, chars_of, drop_end, drop_start, either, is_white, law_trimmed,
    lemma_drop_end_shape, lemma_drop_start_shape, lemma_until, trim, trimmed, until, white,
};
use vstd::prelude::*;
use vstd::string::*;

verus! {

// ---------------------------------------------------------------- versions
/// Whether `s` is made of decimal digits.
pub open spec fn all_digits(s: Seq<char>) -> bool {
    forall|i: int| 0 <= i < s.len() ==> '0' <= #[trigger] s[i] <= '9'
}

/// The number that a sequence of decimal digits stands for.
pub open spec fn digits_value(s: Seq<char>) -> nat
    decreases s.len(),
{
    if s.len() == 0 {
        0
    } else {
        digits_value(s.drop_last()) * 10 + (s.last() as u32 - '0' as u32) as nat
    }
}

/// The number that one component of a version stands for: digits, at least
/// one, whose value fits in 64 bits.
pub open spec fn component(s: Seq<char>) -> Option<u64> {
    if s.len() > 0 && all_digits(s) && digits_value(s) <= u64::MAX {
        Some(digits_value(s) as u64)
    } else {
        None
    }
}

/// The part of a version before its pre-release and build metadata.
pub open spec fn version_core(s: Seq<char>) -> Seq<char> {
    until(trimmed(s), either('-', '+'))
}

/// The component at position `i`; a missing minor or patch component is zero.
pub open spec fn component_at(parts: Seq<Seq<char>>, i: int) -> Option<u64> {
    if i < parts.len() {
        component(parts[i])
    } else {
        Some(0)
    }
}

/// The version that `s` stands for.
pub open spec fn version(s: Seq<char>) -> Option<(u64, u64, u64)> {
    let parts = split(version_core(s), '.');
    match (component_at(parts, 0), component_at(parts, 1), component_at(parts, 2)) {
        (Some(major), Some(minor), Some(patch)) => Some((major, minor, patch)),
        _ => None,
    }
}

/// Digits in front only add to the value.
proof fn lemma_digits_value_grows(s: Seq<char>, n: int)
    requires
        all_digits(s),
        0 <= n <= s.len(),
    ensures
        digits_value(s.take(n)) <= digits_value(s),
    decreases s.len(),
{
    if n == s.len() {
        assert(s.take(n) == s);
    } else {
        let t = s.drop_last();
        assert forall|i: int| 0 <= i < t.len() implies '0' <= #[trigger] t[i] <= '9' by {
            assert(t[i] == s[i]);
        }
        lemma_digits_value_grows(t, n);
        assert(t.take(n) == s.take(n));
        assert('0' <= s[s.len() - 1] <= '9');
    }
}

fn parse_component(s: &str) -> (r: Option<u64>)
    ensures
        r == component(s@),
{
    let v = chars_of(s);
    if v.len() == 0 {
        return None;
    }
    let mut value: u64 = 0;
    let mut fits = true;
    let mut i: usize = 0;
    proof {
        assert(v@.take(0) == Seq::<char>::empty());
    }
    while i < v.len()
        invariant
            i <= v.len(),
            v@ == s@,
            all_digits(v@.take(i as int)),
            fits ==> value == digits_value(v@.take(i as int)),
            !fits ==> digits_value(v@.take(i as int)) > u64::MAX,
        decreases v.len() - i,
    {
        let c = v[i];
        if c < '0' || c > '9' {
            return None;
        }
        proof {
            let next = v@.take(i + 1);
            assert(next.drop_last() == v@.take(i as int));
            assert(next.last() == c);
            assert forall|k: int| 0 <= k < next.len() implies '0' <= #[trigger] next[k] <= '9' by {
                if k < i {
                    assert(next[k] == v@.take(i as int)[k]);
                }
            }
        }
        let d: u64 = (c as u32 - '0' as u32) as u64;
        if fits {
            if value <= (u64::MAX - d) / 10 {
                value = value * 10 + d;
            } else {
                fits = false;
            }
        }
        i = i + 1;
    }
    proof {
        assert(v@.take(v@.len() as int) == v@);
    }
    if fits {
        Some(value)
    } else {
        None
    }
}

/// Parses the core of a semantic version into a comparable triple. Pre-release
/// and build metadata are ignored; missing minor and patch components are zero.
pub fn parse_semver(s: &str) -> (r: Option<(u64, u64, u64)>)
    ensures
        r == version(s@),
{
    let core = before_first(trim(s), '-', '+');
    let parts = split_at_each(core, '.');
    proof {
        lemma_split_nonempty(core@, '.');
        assert(split(core@, '.').len() == parts@.len());
        assert(split(core@, '.')[0] == parts@[0]@);
        assert(parts@.len() > 1 ==> split(core@, '.')[1] == parts@[1]@);
        assert(parts@.len() > 2 ==> split(core@, '.')[2] == parts@[2]@);
    }
    let major = parse_component(parts[0].as_str());
    let minor = if parts.len() > 1 {
        parse_component(parts[1].as_str())
    } else {
        Some(0)
    };
    let patch = if parts.len() > 2 {
        parse_component(parts[2].as_str())
    } else {
        Some(0)
    };
    match (major, minor, patch) {
        (Some(a), Some(b), Some(c)) => Some((a, b, c)),
        _ => None,
    }
}

// ---------------------------------------------------------------- remote paths
/// Whether `c` is an ASCII letter.
pub open spec fn is_ascii_letter(c: char) -> bool {
    ('a' <= c <= 'z') || ('A' <= c <= 'Z')
}

/// Whether a path begins with a drive letter and a colon and goes on.
pub open spec fn has_drive(p: Seq<char>) -> bool {
    p.len() >= 3 && is_ascii_letter(p[0]) && p[1] == ':'
}

/// Whether a path begins with a drive prefix such as `C:\` or `C:/`.
pub open spec fn is_drive_path(p: Seq<char>) -> bool {
    has_drive(p) && (p[2] == '/' || p[2] == '\\')
}

/// Whether a path begins with a drive letter and a colon that no separator
/// follows.
pub open spec fn is_collapsed(p: Seq<char>) -> bool {
    has_drive(p) && p[2] != '/' && p[2] != '\\'
}

/// Whether a path begins with a Windows drive prefix such as `C:\` or `C:/`.
pub fn is_windows_drive_path(p: &str) -> (r: bool)
    ensures
        r == is_drive_path(p@),
{
    let v = chars_of(p);
    v.len() >= 3 && (('a' <= v[0] && v[0] <= 'z') || ('A' <= v[0] && v[0] <= 'Z')) && v[1] == ':'
        && (v[2] == '/' || v[2] == '\\')
}

/// Whether a path is a Windows path that has lost its separators.
pub fn is_collapsed_windows_path(p: &str) -> (r: bool)
    ensures
        r == is_collapsed(p@),
{
    let v = chars_of(p);
    v.len() >= 3 && (('a' <= v[0] && v[0] <= 'z') || ('A' <= v[0] && v[0] <= 'Z')) && v[1] == ':'
        && v[2] != '/' && v[2] != '\\'
}

/// How a local shell damaged a remote path.
#[derive(Debug, PartialEq, Eq)]
pub enum MangledPath {
    /// Its backslashes are gone.
    Collapsed { path: String },
    /// A POSIX path was turned into a Windows one.
    Converted { path: String },
}

impl MangledPath {
    /// The message for the user.
    pub open spec fn text(self) -> Seq<char> {
        match self {
            MangledPath::Collapsed { path } => "`"@ + path@
                + "` is missing its path separators — your shell ate the backslashes (in bash, `C:\\Users\\User` collapses to `C:UsersUser`). Windows would resolve that against the server's current directory and put the file somewhere you didn't mean. Use forward slashes (`C:/Users/User`) or single-quote the path ('C:\\Users\\User')."@,
            MangledPath::Converted { path } =>
                "that remote path looks like Git Bash rewrote it (MSYS path conversion turned a POSIX path such as /var/www into `"@
                + path@
                + "`). Re-run with `MSYS_NO_PATHCONV=1`, prefix the path with `//` (e.g. `//var/www`), or drop text straight in with `ghostftp-cli agent write`."@,
        }
    }

    /// The message for the user.
    pub fn to_string(&self) -> (r: String)
        ensures
            r@ == self.text(),
    {
        match self {
            MangledPath::Collapsed { path } => {
                let mut r = "`".to_owned();
                r.append(path.as_str());
                r.append(
                    "` is missing its path separators — your shell ate the backslashes (in bash, `C:\\Users\\User` collapses to `C:UsersUser`). Windows would resolve that against the server's current directory and put the file somewhere you didn't mean. Use forward slashes (`C:/Users/User`) or single-quote the path ('C:\\Users\\User').",
                );
                r
            },
            MangledPath::Converted { path } => {
                let mut r =
                    "that remote path looks like Git Bash rewrote it (MSYS path conversion turned a POSIX path such as /var/www into `".to_owned();
                r.append(path.as_str());
                r.append(
                    "`). Re-run with `MSYS_NO_PATHCONV=1`, prefix the path with `//` (e.g. `//var/www`), or drop text straight in with `ghostftp-cli agent write`.",
                );
                r
            },
        }
    }
}

/// Refuses a remote path that a local shell has damaged: a collapsed Windows path
/// on any target, a Windows path on a target that does not run Windows.
pub fn check_mangled_remote_path(remote_path: &str, is_windows_target: bool) -> (r: Result<
    (),
    MangledPath,
>)
    ensures
        match r {
            Err(MangledPath::Collapsed { path }) => is_collapsed(remote_path@) && path@
                == remote_path@,
            Err(MangledPath::Converted { path }) => is_drive_path(remote_path@)
                && !is_windows_target && path@ == remote_path@,
            Ok(_) => !is_collapsed(remote_path@) && (is_windows_target || !is_drive_path(
                remote_path@,
            )),
        },
{
    if is_collapsed_windows_path(remote_path) {
        return Err(MangledPath::Collapsed { path: remote_path.to_owned() });
    }
    if !is_windows_drive_path(remote_path) || is_windows_target {
        return Ok(());
    }
    Err(MangledPath::Converted { path: remote_path.to_owned() })
}

// ---------------------------------------------------------------- laws
/// Pre-release and build metadata are ignored: whatever follows the first `-` or
/// `+` behind a version core plays no part. The core must not end in white space,
/// which would stand inside the text once metadata follows it.
pub proof fn law_metadata_is_ignored(core: Seq<char>, mark: char, rest: Seq<char>)
    requires
        mark == '-' || mark == '+',
        core.len() > 0 ==> !is_white(core.last()),
    ensures
        version(core + seq![mark] + rest) == version(core),
{
    let p = either('-', '+');
    let whole = core + seq![mark] + rest;
    lemma_core_of_marked(core, mark, rest);
    lemma_drop_start_shape(core, white());
    let a = drop_start(core, white());
    if a.len() > 0 {
        assert(a.last() == core.last());
    }
    assert(trimmed(core) == a);
}

/// The core of a version with metadata is found in the part before the mark.
proof fn lemma_core_of_marked(core: Seq<char>, mark: char, rest: Seq<char>)
    requires
        mark == '-' || mark == '+',
    ensures
        version_core(core + seq![mark] + rest) == until(drop_start(core, white()), either('-', '+')),
{
    let p = either('-', '+');
    let whole = core + seq![mark] + rest;
    // leading white space lies within `core`
    lemma_drop_start_shape(core, white());
    let a = drop_start(core, white());
    let k = core.len() - a.len();
    assert forall|i: int| 0 <= i < k implies white()(#[trigger] whole[i]) by {
        assert(whole[i] == core[i]);
    }
    assert(whole[k] == if k < core.len() {
        a[0]
    } else {
        mark
    });
    crate::text::lemma_drop_start(whole, white(), k);
    let left = whole.skip(k);
    assert(left == a + seq![mark] + rest);
    // trailing white space lies within `rest`
    lemma_drop_end_shape(left, white());
    let t = drop_end(left, white());
    assert(t.len() > a.len()) by {
        if t.len() <= a.len() {
            assert(white()(left[a.len() as int]));
        }
    }
    assert(t[a.len() as int] == mark);
    // the first mark lies at or before the end of `a`
    lemma_until_split(a, t, p);
}

/// `until` finds its end in the first part of a text, where the character behind
/// that part meets the predicate.
proof fn lemma_until_split(a: Seq<char>, t: Seq<char>, p: spec_fn(char) -> bool)
    requires
        a.len() < t.len(),
        forall|i: int| 0 <= i < a.len() ==> #[trigger] t[i] == a[i],
        p(t[a.len() as int]),
    ensures
        until(t, p) == until(a, p),
    decreases a.len(),
{
    if a.len() > 0 {
        assert(t[0] == a[0]);
        if !p(a[0]) {
            let b = a.drop_first();
            let u = t.drop_first();
            assert forall|i: int| 0 <= i < b.len() implies #[trigger] u[i] == b[i] by {
                assert(t[i + 1] == a[i + 1]);
            }
            assert(u[b.len() as int] == t[a.len() as int]);
            lemma_until_split(b, u, p);
        }
    }
}

/// Short forms stand for their full forms: a lone major component for `.0.0`
/// behind it. The component is written without white space or metadata.
pub proof fn law_short_forms(major: Seq<char>)
    requires
        all_digits(major),
        major.len() > 0,
    ensures
        version(major) == version(major + ".0"@),
        version(major) == version(major + ".0.0"@),
{
    reveal_strlit(".0");
    reveal_strlit(".0.0");
    let zero = seq!['0'];
    assert(component(zero) == Some(0u64)) by {
        assert(digits_value(zero.drop_last()) == 0);
        assert(zero.last() == '0');
    }
    lemma_plain_core(major);
    assert forall|i: int| 0 <= i < major.len() implies major[i] != '.' by {
        assert('0' <= major[i] <= '9');
    }
    lemma_split_single(major, '.');
    let two = major + ".0"@;
    let three = major + ".0.0"@;
    assert forall|i: int| 0 <= i < three.len() implies plain(#[trigger] three[i]) by {
        if i < major.len() {
            assert(three[i] == major[i]);
        }
    }
    assert forall|i: int| 0 <= i < two.len() implies plain(#[trigger] two[i]) by {
        if i < major.len() {
            assert(two[i] == major[i]);
        }
    }
    lemma_plain_core(two);
    lemma_plain_core(three);
    lemma_split_single(zero, '.');
    assert(two == major + seq!['.'] + zero);
    lemma_split_concat(major, zero, '.');
    assert(three == two + seq!['.'] + zero);
    lemma_split_concat(two, zero, '.');
    assert(split(two, '.') == seq![major, zero]);
    assert(split(three, '.') == seq![major, zero, zero]);
}

/// A character that neither trimming nor the search for metadata sees.
spec fn plain(c: char) -> bool {
    !is_white(c) && c != '-' && c != '+'
}

proof fn lemma_plain_core(s: Seq<char>)
    requires
        forall|i: int| 0 <= i < s.len() ==> plain(#[trigger] s[i]),
    ensures
        version_core(s) == s,
{
    if s.len() > 0 {
        assert(plain(s[0]));
        assert(plain(s[s.len() - 1]));
    }
    assert(trimmed(s) == s);
    lemma_until(s, either('-', '+'), s.len() as int);
    assert(s.take(s.len() as int) == s);
}

/// A drive path is refused on a POSIX target and accepted on Windows; a collapsed
/// path is neither, and refused everywhere.
pub proof fn law_drive_and_collapsed_exclude(p: Seq<char>)
    ensures
        !(is_drive_path(p) && is_collapsed(p)),
        has_drive(p) <==> is_drive_path(p) || is_collapsed(p),
{
}

/// A character that is part of a component of a version, good or bad.
pub open spec fn in_component(c: char) -> bool {
    !is_white(c) && c != '-' && c != '+' && c != '.'
}

/// Whether every character of a text is part of a component.
pub open spec fn one_component(s: Seq<char>) -> bool {
    forall|i: int| 0 <= i < s.len() ==> in_component(#[trigger] s[i])
}

/// Whether a text is a number that fits in 64 bits.
pub open spec fn fits(s: Seq<char>) -> bool {
    &&& s.len() > 0
    &&& forall|i: int| 0 <= i < s.len() ==> '0' <= #[trigger] s[i] <= '9'
    &&& numeral_value(s, 10) <= u64::MAX
}

proof fn lemma_digits_value(s: Seq<char>)
    requires
        all_digits(s),
    ensures
        digits_value(s) == numeral_value(s, 10),
    decreases s.len(),
{
    if s.len() > 0 {
        let t = s.drop_last();
        assert forall|i: int| 0 <= i < t.len() implies '0' <= #[trigger] t[i] <= '9' by {
            assert(t[i] == s[i]);
        }
        lemma_digits_value(t);
        assert('0' <= s[s.len() - 1] <= '9');
    }
}

proof fn lemma_component(s: Seq<char>)
    ensures
        component(s) is Some <==> fits(s),
        component(s) matches Some(n) ==> n == numeral_value(s, 10),
{
    if all_digits(s) {
        lemma_digits_value(s);
    }
}

proof fn lemma_components(a: Seq<char>, b: Seq<char>)
    requires
        one_component(b),
        forall|i: int| 0 <= i < a.len() ==> plain(#[trigger] a[i]),
    ensures
        split(b, '.') == seq![b],
        split(a + seq!['.'] + b, '.') == split(a, '.') + seq![b],
        forall|i: int| 0 <= i < b.len() ==> plain(#[trigger] b[i]),
        forall|i: int|
            0 <= i < (a + seq!['.'] + b).len() ==> plain(#[trigger] (a + seq!['.'] + b)[i]),
{
    assert forall|i: int| 0 <= i < b.len() implies plain(#[trigger] b[i]) && b[i] != '.' by {
        assert(in_component(b[i]));
    }
    lemma_split_single(b, '.');
    lemma_split_concat(a, b, '.');
    let s = a + seq!['.'] + b;
    assert forall|i: int| 0 <= i < s.len() implies plain(#[trigger] s[i]) by {
        if i < a.len() {
            assert(s[i] == a[i]);
        } else if i > a.len() {
            assert(s[i] == b[i - a.len() - 1]);
        } else {
            assert(s[i] == '.');
        }
    }
}

/// A version of three components is read exactly where each is a number that fits, and
/// each number is the one that its digits stand for. Two components stand for a version
/// whose last number is zero, and one for a version whose last two are.
pub proof fn law_version_of_components(a: Seq<char>, b: Seq<char>, c: Seq<char>)
    requires
        one_component(a),
        one_component(b),
        one_component(c),
    ensures
        version(a + seq!['.'] + b + seq!['.'] + c) is Some <==> fits(a) && fits(b) && fits(c),
        version(a + seq!['.'] + b + seq!['.'] + c) matches Some(v) ==> v.0 == numeral_value(a, 10)
            && v.1 == numeral_value(b, 10) && v.2 == numeral_value(c, 10),
        version(a + seq!['.'] + b) is Some <==> fits(a) && fits(b),
        version(a + seq!['.'] + b) matches Some(v) ==> v.0 == numeral_value(a, 10) && v.1
            == numeral_value(b, 10) && v.2 == 0,
        version(a) is Some <==> fits(a),
        version(a) matches Some(v) ==> v.0 == numeral_value(a, 10) && v.1 == 0 && v.2 == 0,
{
    let two = a + seq!['.'] + b;
    let three = two + seq!['.'] + c;
    lemma_components(seq![], a);
    lemma_components(a, b);
    lemma_components(two, c);
    lemma_plain_core(a);
    lemma_plain_core(two);
    lemma_plain_core(three);
    lemma_component(a);
    lemma_component(b);
    lemma_component(c);
    assert(split(two, '.') == seq![a, b]);
    assert(split(three, '.') == seq![a, b, c]);
}

/// White space round a version plays no part.
pub proof fn law_version_ignores_white_space(before: Seq<char>, s: Seq<char>, after: Seq<char>)
    requires
        all_white(before),
        all_white(after),
        s.len() > 0 ==> !is_white(s[0]) && !is_white(s.last()),
    ensures
        version(before + s + after) == version(s),
{
    let none = Seq::<char>::empty();
    law_trimmed(before, s, after);
    law_trimmed(none, s, none);
    assert(none + s + none == s);
}

/// A path of at least three characters is a drive path, or one that lost its separators,
/// by its first three: a letter, a colon, and a separator or none. Nothing else is either.
pub proof fn law_drive_paths(p: Seq<char>, letter: char, colon: char, third: char, rest: Seq<char>)
    ensures
        ({
            let path = seq![letter, colon, third] + rest;
            let drive = ('a' <= letter <= 'z' || 'A' <= letter <= 'Z') && colon == ':';
            &&& is_drive_path(path) <==> drive && (third == '/' || third == '\\')
            &&& is_collapsed(path) <==> drive && third != '/' && third != '\\'
        }),
        p.len() < 3 ==> !is_drive_path(p) && !is_collapsed(p),
{
    let path = seq![letter, colon, third] + rest;
    assert(path[0] == letter);
    assert(path[1] == colon);
    assert(path[2] == third);
}

/// The message about a damaged path shows the path.
pub proof fn law_mangled_path_is_shown(path: String)
    ensures
        occurs((MangledPath::Collapsed { path }).text(), path@),
        occurs((MangledPath::Converted { path }).text(), path@),
{
    let a = (MangledPath::Collapsed { path }).text();
    let b = (MangledPath::Converted { path }).text();
    law_occurs(a, path@);
    law_occurs(b, path@);
    assert(parts_round(
        a,
        "`"@,
        path@,
        "` is missing its path separators — your shell ate the backslashes (in bash, `C:\\Users\\User` collapses to `C:UsersUser`). Windows would resolve that against the server's current directory and put the file somewhere you didn't mean. Use forward slashes (`C:/Users/User`) or single-quote the path ('C:\\Users\\User')."@,
    ));
    assert(parts_round(
        b,
        "that remote path looks like Git Bash rewrote it (MSYS path conversion turned a POSIX path such as /var/www into `"@,
        path@,
        "`). Re-run with `MSYS_NO_PATHCONV=1`, prefix the path with `//` (e.g. `//var/www`), or drop text straight in with `ghostftp-cli agent write`."@,
    ));
}

} // verus!
