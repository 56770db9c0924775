//! Setting a broken database aside, so that a fresh one can be opened in its place.

use crate::numerals::{decimal, lemma_decimal_injective, lemma_decimal_shape, to_decimal};
use crate::search::{begins, ends, law_begins_and_ends, law_occurs, occurs, parts_round};
use vstd::prelude::*;
use vstd::string::*;

verus! {

/// A file to move, where it is there.
#[derive(Debug, PartialEq, Eq)]
pub struct Quarantine {
    pub from: String,
    pub to: String,
}

/// What the names of a database's files end in: the store and its sidecars.
pub open spec fn suffixes() -> Seq<Seq<char>> {
    seq![""@, "-wal"@, "-shm"@]
}

/// One of a database's files.
pub open spec fn store_file(path: Seq<char>, suffix: Seq<char>) -> Seq<char> {
    path + suffix
}

/// Where it is moved to.
pub open spec fn quarantined(path: Seq<char>, stamp: nat, suffix: Seq<char>) -> Seq<char> {
    path + ".corrupt."@ + decimal(stamp) + suffix
}

fn quarantine_one(path: &str, stamp: u64, suffix: &str) -> (r: Quarantine)
    ensures
        r.from@ == store_file(path@, suffix@),
        r.to@ == quarantined(path@, stamp as nat, suffix@),
{
    let mut from = path.to_owned();
    from.append(suffix);
    let mut to = path.to_owned();
    to.append(".corrupt.");
    to.append(to_decimal(stamp).as_str());
    to.append(suffix);
    Quarantine { from, to }
}

/// The moves that set the files of the database at `path` aside, in seconds since 1970
/// or at no known time. They are kept, for support or manual recovery.
pub fn quarantine_files(path: &str, now: Option<u64>) -> (r: Vec<Quarantine>)
    ensures
        ({
            let stamp = match now {
                Some(secs) => secs as nat,
                None => 0,
            };
            &&& r@.len() == suffixes().len()
            &&& forall|i: int|
                0 <= i < r@.len() ==> {
                    &&& (#[trigger] r@[i]).from@ == store_file(path@, suffixes()[i])
                    &&& r@[i].to@ == quarantined(path@, stamp, suffixes()[i])
                }
        }),
{
    let stamp: u64 = match now {
        Some(secs) => secs,
        None => 0,
    };
    let mut moves: Vec<Quarantine> = Vec::new();
    moves.push(quarantine_one(path, stamp, ""));
    moves.push(quarantine_one(path, stamp, "-wal"));
    moves.push(quarantine_one(path, stamp, "-shm"));
    moves
}

/// Opening the database.
#[derive(Debug, PartialEq, Eq)]
pub enum DbOpening {
    /// Open it.
    First,
    /// Set its files aside and open it once more; this was the first error.
    Retry(String),
    /// It is open.
    Opened,
    /// It cannot be opened.
    Failed(String),
}

/// Opening the database, as its texts.
pub enum DbOpeningView {
    First,
    Retry(Seq<char>),
    Opened,
    Failed(Seq<char>),
}

impl View for DbOpening {
    type V = DbOpeningView;

    open spec fn view(&self) -> DbOpeningView {
        match self {
            DbOpening::First => DbOpeningView::First,
            DbOpening::Retry(e) => DbOpeningView::Retry(e@),
            DbOpening::Opened => DbOpeningView::Opened,
            DbOpening::Failed(e) => DbOpeningView::Failed(e@),
        }
    }
}

/// The message where a fresh database could not be opened either.
pub open spec fn failure(first: Seq<char>, second: Seq<char>) -> Seq<char> {
    "ghostftp.db recovery failed after initial error: "@ + first + "; retry: "@ + second
}

impl DbOpening {
    /// Goes on after an attempt to open the database: a broken one is tried once more
    /// after its files have been set aside.
    pub fn next(self, outcome: Result<(), String>) -> (r: Self)
        ensures
            r@ == match self@ {
                DbOpeningView::First => match outcome {
                    Ok(_) => DbOpeningView::Opened,
                    Err(e) => DbOpeningView::Retry(e@),
                },
                DbOpeningView::Retry(first) => match outcome {
                    Ok(_) => DbOpeningView::Opened,
                    Err(second) => DbOpeningView::Failed(failure(first, second@)),
                },
                other => other,
            },
    {
        match (self, outcome) {
            (DbOpening::First, Ok(_)) => DbOpening::Opened,
            (DbOpening::First, Err(e)) => DbOpening::Retry(e),
            (DbOpening::Retry(_), Ok(_)) => DbOpening::Opened,
            (DbOpening::Retry(first), Err(second)) => {
                let mut text = "ghostftp.db recovery failed after initial error: ".to_owned();
                text.append(first.as_str());
                text.append("; retry: ");
                text.append(second.as_str());
                DbOpening::Failed(text)
            },
            (other, _) => other,
        }
    }
}

/// No file is moved over one of the database's own files, so the moves leave the place
/// free and lose nothing.
pub proof fn law_quarantine_is_elsewhere(path: Seq<char>, stamp: nat, i: int, j: int)
    requires
        0 <= i < suffixes().len(),
        0 <= j < suffixes().len(),
    ensures
        quarantined(path, stamp, suffixes()[i]) != store_file(path, suffixes()[j]),
        i != j ==> quarantined(path, stamp, suffixes()[i]) != quarantined(
            path,
            stamp,
            suffixes()[j],
        ),
{
    reveal_strlit("");
    reveal_strlit("-wal");
    reveal_strlit("-shm");
    reveal_strlit(".corrupt.");
    lemma_decimal_shape(stamp);
    let a = quarantined(path, stamp, suffixes()[i]);
    let b = quarantined(path, stamp, suffixes()[j]);
    assert(a.len() >= path.len() + 9 + decimal(stamp).len());
    assert(store_file(path, suffixes()[j]).len() <= path.len() + 4);
    let k = path.len() + 9 + decimal(stamp).len();
    assert(a.skip(k as int) == suffixes()[i]);
    assert(b.skip(k as int) == suffixes()[j]);
    if i != j && suffixes()[i] == suffixes()[j] {
        assert("-wal"@[1] == 'w' && "-shm"@[1] == 's');
        assert(""@.len() == 0 && "-wal"@.len() == 4 && "-shm"@.len() == 4);
    }
}

/// A second recovery, at another time, leaves the files of the first alone.
pub proof fn law_recoveries_do_not_collide(path: Seq<char>, a: nat, b: nat, i: int)
    requires
        a != b,
        0 <= i < suffixes().len(),
    ensures
        quarantined(path, a, suffixes()[i]) != quarantined(path, b, suffixes()[i]),
{
    reveal_strlit(".corrupt.");
    let suffix = suffixes()[i];
    let x = quarantined(path, a, suffix);
    let y = quarantined(path, b, suffix);
    let k = path.len() as int + 9;
    if x == y {
        assert(x.len() == k + decimal(a).len() + suffix.len());
        assert(y.len() == k + decimal(b).len() + suffix.len());
        assert(x.subrange(k, k + decimal(a).len()) == decimal(a));
        assert(y.subrange(k, k + decimal(b).len()) == decimal(b));
        lemma_decimal_injective(a, b);
    }
}

/// What is set aside keeps the path and the ending of its name, with the time between
/// them; the store itself and its two sidecars are set aside.
pub proof fn law_quarantined_name(path: Seq<char>, stamp: nat, suffix: Seq<char>)
    ensures
        begins(quarantined(path, stamp, suffix), path),
        ends(quarantined(path, stamp, suffix), suffix),
        quarantined(path, stamp, suffix) == path + seq![
            '.',
            'c',
            'o',
            'r',
            'r',
            'u',
            'p',
            't',
            '.',
        ] + decimal(stamp) + suffix,
        store_file(path, suffix) == path + suffix,
        suffixes().len() == 3,
        suffixes()[0].len() == 0,
        suffixes()[1] == seq!['-', 'w', 'a', 'l'],
        suffixes()[2] == seq!['-', 's', 'h', 'm'],
{
    reveal_strlit("");
    reveal_strlit("-wal");
    reveal_strlit("-shm");
    let q = quarantined(path, stamp, suffix);
    law_begins_and_ends(".corrupt."@ + decimal(stamp) + suffix, path);
    assert(q == path + (".corrupt."@ + decimal(stamp) + suffix));
    law_begins_and_ends(path + ".corrupt."@ + decimal(stamp), suffix);
    reveal_strlit(".corrupt.");
    assert(".corrupt."@ == seq!['.', 'c', 'o', 'r', 'r', 'u', 'p', 't', '.']);
    assert("-wal"@ == seq!['-', 'w', 'a', 'l']);
    assert("-shm"@ == seq!['-', 's', 'h', 'm']);
}

/// The message tells the first error and ends in the second.
pub proof fn law_recovery_failure_tells_both(first: Seq<char>, second: Seq<char>)
    ensures
        occurs(failure(first, second), first),
        ends(failure(first, second), second),
{
    let a = "ghostftp.db recovery failed after initial error: "@;
    let f = failure(first, second);
    law_occurs(f, first);
    assert(f == a + first + ("; retry: "@ + second));
    assert(parts_round(f, a, first, "; retry: "@ + second));
    law_begins_and_ends(a + first + "; retry: "@, second);
}

} // verus!
