//! The `known_hosts` file: entries for trusted host keys, their fingerprints,
//! and the rewrite that puts a newly trusted key in place of an old one.

use crate::digest::{
    base64_no_pad, base64_no_pad_text, lemma_base64_letters, sha256, Checksum,
};
use crate::numerals::{decimal, lemma_decimal_shape, to_decimal};
use crate::pieces::{
    concat, lemma_rows_of_concat, lemma_rows_shape, lemma_rows_single, rows, rows_of, views, without_empty,
};
use crate::search::{ends, law_begins_and_ends, law_occurs, occurs, parts_round};
use crate::text::same;
use std::collections::BTreeSet;
use vstd::prelude::*;
use vstd::string::*;

verus! {

/// A public host key: its algorithm name, its wire encoding, and the Base64 text
/// of that encoding as it stands in a `known_hosts` entry.
#[derive(Debug, PartialEq, Eq)]
pub struct HostKey {
    pub algorithm: String,
    pub base64: String,
    pub blob: Vec<u8>,
}

/// What is on record for a host and port.
#[derive(Debug, PartialEq, Eq)]
pub enum HostKeyStatus {
    /// Nothing is recorded: the user has to be asked.
    Unknown,
    /// The presented key is recorded.
    Match,
    /// Other keys are recorded, but not this one: the connection is to be refused.
    Mismatch { stored_fingerprint: String },
}

/// The OpenSSH form of a fingerprint: `SHA256:` and the unpadded Base64 text of
/// the digest of the key's wire encoding.
pub open spec fn fingerprint_text(blob: Seq<u8>) -> Seq<char> {
    "SHA256:"@ + base64_no_pad_text(sha256(blob))
}

/// The fingerprint whose Base64 part is `digest`.
pub fn fingerprint_line(digest: &str) -> (r: String)
    ensures
        r@ == "SHA256:"@ + digest@,
{
    let mut r = "SHA256:".to_owned();
    r.append(digest);
    r
}

/// A fingerprint is `SHA256:` and 43 letters of Base64, without padding.
proof fn lemma_fingerprint_shape(blob: Seq<u8>)
    requires
        sha256(blob).len() == 32,
    ensures
        fingerprint_text(blob).len() == 50,
        !fingerprint_text(blob).contains('='),
{
    reveal_strlit("SHA256:");
    let digest = sha256(blob);
    let text = fingerprint_text(blob);
    assert forall|i: int| 0 <= i < text.len() implies #[trigger] text[i] != '=' by {
        if i >= 7 {
            lemma_base64_letters(digest, i - 7);
            assert(text[i] == base64_no_pad_text(digest)[i - 7]);
        }
    }
}

/// The SHA-256 fingerprint of a key in OpenSSH form.
pub fn fingerprint(key: &HostKey) -> (r: String)
    ensures
        r@ == fingerprint_text(key.blob@),
        r@.len() == 50,
        !r@.contains('='),
{
    let mut sum = Checksum::new();
    sum.update(key.blob.as_slice());
    proof {
        assert(sum@ == key.blob@);
    }
    let digest = sum.digest();
    proof {
        lemma_fingerprint_shape(key.blob@);
    }
    let text = base64_no_pad(digest.as_slice());
    fingerprint_line(text.as_str())
}

/// Whether a key with this Base64 text is among `recorded`.
pub open spec fn is_recorded(recorded: Seq<HostKey>, base64: Seq<char>) -> bool {
    exists|i: int| 0 <= i < recorded.len() && (#[trigger] recorded[i]).base64@ == base64
}

/// Holds the presented key against the keys recorded for its host and port. A
/// mismatch names the fingerprint of the last recorded key.
pub fn check(recorded: &Vec<HostKey>, presented: &HostKey) -> (r: HostKeyStatus)
    ensures
        r is Match <==> is_recorded(recorded@, presented.base64@),
        r is Unknown <==> recorded@.len() == 0,
        r matches HostKeyStatus::Mismatch { stored_fingerprint } ==> stored_fingerprint@
            == fingerprint_text(recorded@.last().blob@),
{
    let mut i: usize = 0;
    while i < recorded.len()
        invariant
            i <= recorded.len(),
            forall|j: int| 0 <= j < i ==> (#[trigger] recorded@[j]).base64@ != presented.base64@,
        decreases recorded.len() - i,
    {
        if same(recorded[i].base64.as_str(), presented.base64.as_str()) {
            return HostKeyStatus::Match;
        }
        i = i + 1;
    }
    if recorded.len() == 0 {
        HostKeyStatus::Unknown
    } else {
        HostKeyStatus::Mismatch { stored_fingerprint: fingerprint(&recorded[recorded.len() - 1]) }
    }
}

/// The host field of an entry: the bare host on port 22, else `[host]:port`.
pub open spec fn host_field(host: Seq<char>, port: u16) -> Seq<char> {
    if port == 22 {
        host
    } else {
        "["@ + host + "]:"@ + decimal(port as nat)
    }
}

/// A whole entry, with its line feed.
pub open spec fn entry(host: Seq<char>, port: u16, key: HostKey) -> Seq<char> {
    host_field(host, port) + " "@ + key.algorithm@ + " "@ + key.base64@ + "\n"@
}

/// The entry to append for a newly trusted key.
pub fn append(host: &str, port: u16, key: &HostKey) -> (line: String)
    ensures
        line@ == entry(host@, port, *key),
{
    let mut line = if port == 22 {
        host.to_owned()
    } else {
        let mut field = "[".to_owned();
        field.append(host);
        field.append("]:");
        field.append(to_decimal(port as u64).as_str());
        field
    };
    line.append(" ");
    line.append(key.algorithm.as_str());
    line.append(" ");
    line.append(key.base64.as_str());
    line.append("\n");
    line
}

/// Whether row `i`, counted from zero, is among the line numbers `lines`,
/// counted from one.
pub open spec fn listed(lines: Set<usize>, i: int) -> bool {
    exists|n: usize| #[trigger] lines.contains(n) && n == i + 1
}

/// What becomes of row `i`: an unlisted row stays, the first listed row gives
/// way to `replacement`, every later listed row goes.
pub open spec fn rewritten_row(
    all: Seq<Seq<char>>,
    lines: Set<usize>,
    replacement: Seq<char>,
    i: int,
) -> Seq<char> {
    if !listed(lines, i) {
        all[i]
    } else if exists|j: int| 0 <= j < i && #[trigger] listed(lines, j) {
        seq![]
    } else {
        replacement
    }
}

/// The rows after a rewrite, in order.
pub open spec fn rewritten_rows(
    all: Seq<Seq<char>>,
    lines: Set<usize>,
    replacement: Seq<char>,
) -> Seq<Seq<char>> {
    Seq::new(all.len(), |i: int| rewritten_row(all, lines, replacement, i))
}

/// Whether any of `n` rows is listed.
pub open spec fn any_listed(lines: Set<usize>, n: int) -> bool {
    exists|i: int| 0 <= i < n && #[trigger] listed(lines, i)
}

fn has_line(lines: &BTreeSet<usize>, n: usize) -> (r: bool)
    ensures
        r == lines@.contains(n),
{
    broadcast use vstd::laws_cmp::group_laws_cmp;
    lines.contains(&n)
}

/// `contents` with the rows whose numbers stand in `matching_lines` replaced,
/// all together, by one `replacement`; `None` when no row has such a number.
pub fn rewrite_matching_lines(
    contents: &str,
    matching_lines: &BTreeSet<usize>,
    replacement: &str,
) -> (r: Option<String>)
    ensures
        r is Some <==> any_listed(matching_lines@, rows(contents@).len() as int),
        r matches Some(t) ==> t@ == concat(
            rewritten_rows(rows(contents@), matching_lines@, replacement@),
        ),
{
    let all = rows_of(contents);
    let ghost goal = rewritten_rows(rows(contents@), matching_lines@, replacement@);
    let mut rewritten = String::new();
    let mut replaced = false;
    let mut i: usize = 0;
    proof {
        assert(goal.take(0) == Seq::<Seq<char>>::empty());
    }
    while i < all.len()
        invariant
            i <= all.len(),
            views(all@) == rows(contents@),
            goal == rewritten_rows(rows(contents@), matching_lines@, replacement@),
            replaced == any_listed(matching_lines@, i as int),
            rewritten@ == concat(goal.take(i as int)),
        decreases all.len() - i,
    {
        proof {
            assert(goal.take(i + 1).drop_last() == goal.take(i as int));
            assert(goal.take(i + 1).last() == goal[i as int]);
            assert(rows(contents@)[i as int] == all@[i as int]@);
        }
        let number: usize = i + 1;
        if has_line(matching_lines, number) {
            proof {
                assert(listed(matching_lines@, i as int));
            }
            if !replaced {
                rewritten.append(replacement);
                replaced = true;
            } else {
                assert(rewritten@ + Seq::<char>::empty() == rewritten@);
            }
        } else {
            proof {
                assert(!listed(matching_lines@, i as int));
            }
            rewritten.append(all[i].as_str());
        }
        i = i + 1;
    }
    proof {
        assert(goal.take(goal.len() as int) == goal);
    }
    if replaced {
        Some(rewritten)
    } else {
        None
    }
}

/// Whether a row is a comment.
pub open spec fn is_comment(row: Seq<char>) -> bool {
    row.len() > 0 && row[0] == '#'
}

/// How many of the first `n` rows are not comments.
pub open spec fn entries_before(all: Seq<Seq<char>>, n: int) -> int
    decreases n,
{
    if n <= 0 {
        0
    } else {
        entries_before(all, n - 1) + if is_comment(all[n - 1]) {
            0int
        } else {
            1int
        }
    }
}

/// The line numbers, counted from one over all rows, of the entries whose
/// numbers, counted from one over the rows that are not comments, are `counted`.
pub open spec fn line_numbers(all: Seq<Seq<char>>, counted: Seq<usize>) -> Set<usize> {
    Set::new(
        |n: usize|
            1 <= n <= all.len() && !is_comment(all[n - 1]) && exists|k: int|
                0 <= k < counted.len() && #[trigger] counted[k] == entries_before(all, n as int),
    )
}

fn counts(counted: &Vec<usize>, n: usize) -> (r: bool)
    ensures
        r == exists|k: int| 0 <= k < counted@.len() && #[trigger] counted@[k] == n,
{
    let mut i: usize = 0;
    while i < counted.len()
        invariant
            i <= counted.len(),
            forall|k: int| 0 <= k < i ==> #[trigger] counted@[k] != n,
        decreases counted.len() - i,
    {
        if counted[i] == n {
            return true;
        }
        i = i + 1;
    }
    false
}

fn add_line(lines: &mut BTreeSet<usize>, n: usize)
    ensures
        final(lines)@ == old(lines)@.insert(n),
{
    broadcast use vstd::laws_cmp::group_laws_cmp;
    lines.insert(n);
}

/// Turns entry numbers, which pass over comments, into line numbers.
pub fn matching_lines(contents: &str, counted: &Vec<usize>) -> (lines: BTreeSet<usize>)
    ensures
        lines@ == line_numbers(rows(contents@), counted@),
{
    let all = rows_of(contents);
    let ghost rs = rows(contents@);
    let mut lines: BTreeSet<usize> = BTreeSet::new();
    let mut entries: usize = 0;
    let mut i: usize = 0;
    proof {
        assert(lines@ == line_numbers(rs, counted@).filter(|n: usize| n <= 0));
    }
    while i < all.len()
        invariant
            i <= all.len(),
            rs == rows(contents@),
            views(all@) == rs,
            0 <= entries <= i,
            entries == entries_before(rs, i as int),
            lines@ == line_numbers(rs, counted@).filter(|n: usize| n <= i),
        decreases all.len() - i,
    {
        let row = crate::text::chars_of(all[i].as_str());
        let ghost before = lines@;
        proof {
            assert(rs[i as int] == all@[i as int]@);
        }
        let comment = row.len() > 0 && row[0] == '#';
        if !comment {
            entries = entries + 1;
            if counts(counted, entries) {
                add_line(&mut lines, i + 1);
            }
        }
        i = i + 1;
        proof {
            assert forall|n: usize|
                lines@.contains(n) <==> line_numbers(rs, counted@).filter(
                    |n: usize| n <= i,
                ).contains(n) by {
                if n == i {
                    assert(entries_before(rs, i as int) == entries);
                } else {
                    assert(lines@.contains(n) == before.contains(n));
                }
            }
            assert(lines@ == line_numbers(rs, counted@).filter(|n: usize| n <= i));
        }
    }
    proof {
        assert(lines@ == line_numbers(rs, counted@));
    }
    lines
}

/// What is read of a file to see whether another program changed it: its
/// length and its modification time in nanoseconds, where there is one.
#[derive(Debug, Clone, Copy, PartialEq, Eq)]
pub struct FileStamp {
    pub len: u64,
    pub modified: Option<i128>,
}

/// Why an entry was not replaced.
#[derive(Debug, Clone, Copy, PartialEq, Eq)]
pub enum ReplaceError {
    /// The file holds no entry for the host and port.
    NoEntry,
    /// The file changed while the replacement was prepared.
    Changed,
    /// The entry was on record, but the contents read hold no such line.
    Disappeared,
}

/// `host:port`.
pub open spec fn host_and_port(host: Seq<char>, port: u16) -> Seq<char> {
    host + ":"@ + decimal(port as nat)
}

impl ReplaceError {
    /// The message for the user.
    pub open spec fn text(self, host: Seq<char>, port: u16) -> Seq<char> {
        match self {
            ReplaceError::NoEntry => "no existing host key entry to replace for "@ + host_and_port(
                host,
                port,
            ),
            ReplaceError::Changed => "known_hosts changed while replacing "@ + host_and_port(
                host,
                port,
            ) + "; retry the connection"@,
            ReplaceError::Disappeared =>
                "matching known_hosts entry disappeared during replacement"@,
        }
    }

    /// The message for the user.
    pub fn message(&self, host: &str, port: u16) -> (r: String)
        ensures
            r@ == self.text(host@, port),
    {
        let mut place = host.to_owned();
        place.append(":");
        place.append(to_decimal(port as u64).as_str());
        match self {
            ReplaceError::NoEntry => {
                let mut r = "no existing host key entry to replace for ".to_owned();
                r.append(place.as_str());
                r
            },
            ReplaceError::Changed => {
                let mut r = "known_hosts changed while replacing ".to_owned();
                r.append(place.as_str());
                r.append("; retry the connection");
                r
            },
            ReplaceError::Disappeared => "matching known_hosts entry disappeared during replacement".to_owned(),
        }
    }
}

/// The contents with which `contents` is to be overwritten so that the entries
/// numbered `counted`, all those for `host` and `port`, give way to one for
/// `key`. The entry numbers pass over comments. `before` and `after` are the
/// file's stamps from before and after it was read.
pub fn replace(
    host: &str,
    port: u16,
    key: &HostKey,
    contents: &str,
    counted: &Vec<usize>,
    before: FileStamp,
    after: FileStamp,
) -> (r: Result<String, ReplaceError>)
    ensures
        ({
            let all = rows(contents@);
            let lines = line_numbers(all, counted@);
            match r {
                Err(ReplaceError::NoEntry) => counted@.len() == 0,
                Err(ReplaceError::Changed) => counted@.len() > 0 && before != after,
                Err(ReplaceError::Disappeared) => counted@.len() > 0 && before == after
                    && !any_listed(lines, all.len() as int),
                Ok(t) => {
                    &&& counted@.len() > 0
                    &&& before == after
                    &&& any_listed(lines, all.len() as int)
                    &&& t@ == concat(rewritten_rows(all, lines, entry(host@, port, *key)))
                },
            }
        }),
{
    if counted.len() == 0 {
        return Err(ReplaceError::NoEntry);
    }
    let same_time = match (before.modified, after.modified) {
        (Some(a), Some(b)) => a == b,
        (None, None) => true,
        _ => false,
    };
    if before.len != after.len || !same_time {
        return Err(ReplaceError::Changed);
    }
    let lines = matching_lines(contents, counted);
    let line = append(host, port, key);
    match rewrite_matching_lines(contents, &lines, line.as_str()) {
        Some(t) => Ok(t),
        None => Err(ReplaceError::Disappeared),
    }
}

// ---------------------------------------------------------------- laws
/// A rewrite replaces once and keeps every unrelated row: of the listed rows
/// the first becomes the replacement and the others vanish, and each row that is
/// not listed stays as it was.
pub proof fn law_rewrite_replaces_once(all: Seq<Seq<char>>, lines: Set<usize>, replacement: Seq<char>)
    requires
        any_listed(lines, all.len() as int),
    ensures
        exists|f: int|
            #![trigger listed(lines, f)]
            {
                &&& 0 <= f < all.len()
                &&& listed(lines, f)
                &&& rewritten_rows(all, lines, replacement)[f] == replacement
                &&& forall|i: int|
                    0 <= i < all.len() && i != f && #[trigger] listed(lines, i)
                        ==> rewritten_rows(all, lines, replacement)[i].len() == 0
            },
        forall|i: int|
            0 <= i < all.len() && !listed(lines, i) ==> #[trigger] rewritten_rows(
                all,
                lines,
                replacement,
            )[i] == all[i],
{
    let f = first_listed(lines, all.len() as int);
    assert(listed(lines, f));
    assert(rewritten_rows(all, lines, replacement)[f] == replacement);
    assert forall|i: int| 0 <= i < all.len() && i != f && #[trigger] listed(lines, i) implies
        rewritten_rows(all, lines, replacement)[i].len() == 0 by {
        assert(f < i);
    }
}

/// The least listed row among the first `n`.
proof fn first_listed(lines: Set<usize>, n: int) -> (f: int)
    requires
        any_listed(lines, n),
    ensures
        0 <= f < n,
        listed(lines, f),
        forall|j: int| 0 <= j < f ==> !#[trigger] listed(lines, j),
    decreases n,
{
    if any_listed(lines, n - 1) {
        first_listed(lines, n - 1)
    } else {
        n - 1
    }
}

/// Read back, the rewritten contents consist of the rewritten rows and nothing
/// else, when the replacement is itself one terminated row.
pub proof fn law_rewrite_reads_back(contents: Seq<char>, lines: Set<usize>, replacement: Seq<char>)
    requires
        replacement.len() > 0,
        replacement.last() == '\n',
        forall|k: int| 0 <= k < replacement.len() - 1 ==> #[trigger] replacement[k] != '\n',
    ensures
        rows(concat(rewritten_rows(rows(contents), lines, replacement))) == without_empty(
            rewritten_rows(rows(contents), lines, replacement),
        ),
{
    let all = rows(contents);
    let after = rewritten_rows(all, lines, replacement);
    lemma_rows_shape(contents);
    assert forall|i: int, k: int|
        0 <= i < after.len() && 0 <= k < after[i].len() - 1 implies #[trigger] after[i][k]
        != '\n' by {
        if !listed(lines, i) {
            assert(all[i][k] != '\n');
        }
    }
    assert forall|i: int| 0 <= i < after.len() - 1 implies (#[trigger] after[i]).len() == 0
        || after[i].last() == '\n' by {
        if !listed(lines, i) {
            assert(all[i].last() == '\n');
        }
    }
    lemma_rows_of_concat(after);
}

/// An entry is one terminated row, where its parts hold no line feed: appended behind
/// terminated rows, or put in the place of others, it stands on a line of its own.
pub proof fn law_entry_is_one_row(host: Seq<char>, port: u16, key: HostKey)
    requires
        !host.contains('\n'),
        !key.algorithm@.contains('\n'),
        !key.base64@.contains('\n'),
    ensures
        rows(entry(host, port, key)) == seq![entry(host, port, key)],
        entry(host, port, key).last() == '\n',
{
    reveal_strlit("[");
    reveal_strlit("]:");
    reveal_strlit(" ");
    reveal_strlit("\n");
    lemma_decimal_shape(port as nat);
    let field = host_field(host, port);
    let number = decimal(port as nat);
    assert forall|i: int| 0 <= i < field.len() implies #[trigger] field[i] != '\n' by {
        if port == 22 {
            assert(host.contains(field[i]));
        } else if 1 <= i < host.len() + 1 {
            assert(field[i] == host[i - 1]);
            assert(host.contains(host[i - 1]));
        } else if i >= host.len() + 3 {
            assert(field[i] == number[i - host.len() - 3]);
        }
    }
    let algorithm = key.algorithm@;
    let base64 = key.base64@;
    let line = entry(host, port, key);
    let a = field.len() as int;
    let b = a + 1 + algorithm.len();
    assert forall|i: int| 0 <= i < line.len() - 1 implies #[trigger] line[i] != '\n' by {
        if i < a {
            assert(line[i] == field[i]);
        } else if a < i < b {
            assert(line[i] == algorithm[i - a - 1]);
            assert(algorithm.contains(algorithm[i - a - 1]));
        } else if i > b {
            assert(line[i] == base64[i - b - 1]);
            assert(base64.contains(base64[i - b - 1]));
        }
    }
    lemma_rows_single(line);
}

/// How many of the first `n` rows begin with `#`.
pub open spec fn hash_rows(all: Seq<Seq<char>>, n: int) -> nat {
    all.take(n).filter(|row: Seq<char>| row.len() > 0 && row[0] == '#').len()
}

/// Whether row `i` is an entry whose number, counted from one over the rows that do not
/// begin with `#`, is among `counted`.
pub open spec fn is_counted(all: Seq<Seq<char>>, counted: Seq<usize>, i: int) -> bool {
    &&& 0 <= i < all.len()
    &&& !(all[i].len() > 0 && all[i][0] == '#')
    &&& exists|k: int| 0 <= k < counted.len() && #[trigger] counted[k] == i + 1 - hash_rows(all, i + 1)
}

proof fn lemma_hash_rows(all: Seq<Seq<char>>, n: int)
    requires
        0 <= n <= all.len(),
    ensures
        entries_before(all, n) == n - hash_rows(all, n),
    decreases n,
{
    reveal(Seq::filter);
    if n > 0 {
        lemma_hash_rows(all, n - 1);
        assert(all.take(n).drop_last() == all.take(n - 1));
        assert(all.take(n).last() == all[n - 1]);
    } else {
        assert(all.take(0) == Seq::<Seq<char>>::empty());
    }
}

/// A row is a matching line exactly where it does not begin with `#` and its line number,
/// less the rows up to it that do, is counted. Nothing else in a row plays a part.
pub proof fn law_matching_lines_are_the_counted_entries(
    all: Seq<Seq<char>>,
    counted: Seq<usize>,
    n: usize,
)
    ensures
        line_numbers(all, counted).contains(n) <==> n >= 1 && is_counted(all, counted, n - 1),
{
    if 1 <= n <= all.len() {
        lemma_hash_rows(all, n as int);
    }
}

/// Where no row begins with `#`, the matching lines are exactly the counted numbers that
/// are line numbers.
pub proof fn law_without_comments_numbers_are_lines(all: Seq<Seq<char>>, counted: Seq<usize>)
    requires
        forall|i: int| 0 <= i < all.len() ==> !((#[trigger] all[i]).len() > 0 && all[i][0] == '#'),
    ensures
        forall|n: usize|
            #[trigger] line_numbers(all, counted).contains(n) <==> 1 <= n <= all.len()
                && counted.contains(n),
{
    assert forall|n: usize|
        #[trigger] line_numbers(all, counted).contains(n) <==> 1 <= n <= all.len()
            && counted.contains(n) by {
        if 1 <= n <= all.len() {
            lemma_all_entries(all, n as int);
        }
    }
}

proof fn lemma_all_entries(all: Seq<Seq<char>>, n: int)
    requires
        0 <= n <= all.len(),
        forall|i: int| 0 <= i < all.len() ==> !((#[trigger] all[i]).len() > 0 && all[i][0] == '#'),
    ensures
        entries_before(all, n) == n,
    decreases n,
{
    if n > 0 {
        lemma_all_entries(all, n - 1);
        assert(!(all[n - 1].len() > 0 && all[n - 1][0] == '#'));
    }
}

/// A replacement changes the counted entries and nothing else: the first of them gives way
/// to the new row, the others go, and every other row, comments among them, stays as it was.
pub proof fn law_replace_changes_only_counted_entries(
    all: Seq<Seq<char>>,
    counted: Seq<usize>,
    replacement: Seq<char>,
    i: int,
)
    requires
        all.len() <= usize::MAX,
        0 <= i < all.len(),
    ensures
        ({
            let after = rewritten_rows(all, line_numbers(all, counted), replacement);
            &&& after.len() == all.len()
            &&& !is_counted(all, counted, i) ==> after[i] == all[i]
            &&& is_counted(all, counted, i) && (forall|j: int|
                0 <= j < i ==> !#[trigger] is_counted(all, counted, j)) ==> after[i] == replacement
            &&& is_counted(all, counted, i) && (exists|j: int|
                0 <= j < i && #[trigger] is_counted(all, counted, j)) ==> after[i].len() == 0
        }),
{
    let lines = line_numbers(all, counted);
    assert forall|j: int| 0 <= j < all.len() implies #[trigger] listed(lines, j) == is_counted(
        all,
        counted,
        j,
    ) by {
        let n = (j + 1) as usize;
        law_matching_lines_are_the_counted_entries(all, counted, n);
    }
    assert forall|j: int| 0 <= j < all.len() implies #[trigger] is_counted(all, counted, j)
        == listed(lines, j) by {}
}

/// The row for a key: the host, or on another port than 22 the host in brackets with the
/// port behind it; then the algorithm and the key; one blank between each two.
pub proof fn law_entry_names_host_and_key(host: Seq<char>, port: u16, key: HostKey)
    ensures
        port == 22 ==> entry(host, port, key) == host + seq![' '] + key.algorithm@ + seq![' ']
            + key.base64@ + seq!['\n'],
        port != 22 ==> entry(host, port, key) == seq!['['] + host + seq![']', ':'] + decimal(
            port as nat,
        ) + seq![' '] + key.algorithm@ + seq![' '] + key.base64@ + seq!['\n'],
{
    reveal_strlit("[");
    reveal_strlit("]:");
    reveal_strlit(" ");
    reveal_strlit("\n");
    assert("["@ == seq!['[']);
    assert("]:"@ == seq![']', ':']);
    assert(" "@ == seq![' ']);
    assert("\n"@ == seq!['\n']);
}

/// A key counts as recorded exactly where a recorded key has the same Base64 text.
pub proof fn law_recorded_by_base64(recorded: Seq<HostKey>, base64: Seq<char>)
    ensures
        is_recorded(recorded, base64) <==> recorded.map_values(
            |k: HostKey| k.base64@,
        ).contains(base64),
{
    let texts = recorded.map_values(|k: HostKey| k.base64@);
    if is_recorded(recorded, base64) {
        let i = choose|i: int| 0 <= i < recorded.len() && (#[trigger] recorded[i]).base64@ == base64;
        assert(texts[i] == base64);
    }
    if texts.contains(base64) {
        let i = choose|i: int| 0 <= i < texts.len() && texts[i] == base64;
        assert(recorded[i].base64@ == base64);
    }
}

/// The messages name the host and the port.
pub proof fn law_replace_messages(host: Seq<char>, port: u16)
    ensures
        host_and_port(host, port) == host + seq![':'] + decimal(port as nat),
        ends(ReplaceError::NoEntry.text(host, port), host_and_port(host, port)),
        occurs(ReplaceError::Changed.text(host, port), host_and_port(host, port)),
{
    reveal_strlit(":");
    assert(":"@ == seq![':']);
    let place = host_and_port(host, port);
    law_begins_and_ends("no existing host key entry to replace for "@, place);
    let changed = ReplaceError::Changed.text(host, port);
    law_occurs(changed, place);
    assert(parts_round(
        changed,
        "known_hosts changed while replacing "@,
        place,
        "; retry the connection"@,
    ));
}

/// A fingerprint is `SHA256:` and the digest of the key's encoding in Base64.
pub proof fn law_fingerprint_text(blob: Seq<u8>)
    ensures
        fingerprint_text(blob).take(7) == seq!['S', 'H', 'A', '2', '5', '6', ':'],
        fingerprint_text(blob).skip(7) == base64_no_pad_text(sha256(blob)),
{
    reveal_strlit("SHA256:");
    assert("SHA256:"@ == seq!['S', 'H', 'A', '2', '5', '6', ':']);
}

} // verus!
