//! Copying a file or directory next to itself, under a free name.

use crate::error::missing;
use crate::local_paths::{
    file_name, file_name_of, final_component, has_parent, is_portable, is_slashes,
};
use crate::numerals::{decimal, lemma_decimal_shape};
use crate::remote_commands::{succeeded, ExecOutput};
use crate::remote_paths::{
    copied_name, copy_mark, copy_name, extension_at, is_char, law_copies_have_their_own_names,
    law_split_path, law_split_rejoins, name_part, parent_part, split_remote,
};
use crate::search::{lemma_last_index, lemma_last_index_is};
use crate::sessions::{find_session, is_local, Session, LOCAL_SESSION};
use crate::shell::{quoted, sh_quote};
use crate::text::{
    all_white, drop_end, either, is_white, law_drop_end, law_trimmed, same, trim, trim_end_of, trimmed,
};
use vstd::prelude::*;
use vstd::string::*;

verus! {

/// The most copies of one file that are looked for.
pub const MAX_COPIES: usize = 1000;

/// The search for a free name for a copy.
#[derive(Debug, Clone, Copy, PartialEq, Eq, Structural)]
pub enum CopySearch {
    /// See whether the name of this copy is taken.
    Try(usize),
    /// The name of this copy is free.
    Found(usize),
    /// All names are taken.
    TooMany,
}

impl CopySearch {
    /// The search begins with the first copy.
    pub fn start() -> (r: Self)
        ensures
            r == CopySearch::Try(1),
    {
        CopySearch::Try(1)
    }

    /// The search after it has been seen whether the name is taken.
    pub open spec fn after(self, taken: bool) -> CopySearch {
        match self {
            CopySearch::Try(n) => if !taken {
                CopySearch::Found(n)
            } else if n >= MAX_COPIES {
                CopySearch::TooMany
            } else {
                CopySearch::Try((n + 1) as usize)
            },
            other => other,
        }
    }

    /// Goes on after it has been seen whether the name is taken.
    pub fn next(self, taken: bool) -> (r: Self)
        ensures
            r == self.after(taken),
    {
        match self {
            CopySearch::Try(n) => if !taken {
                CopySearch::Found(n)
            } else if n >= MAX_COPIES {
                CopySearch::TooMany
            } else {
                CopySearch::Try(n + 1)
            },
            other => other,
        }
    }
}

/// The message where all names are taken.
pub fn too_many_copies() -> (r: String)
    ensures
        r@ == "too many copies already exist"@,
{
    "too many copies already exist".to_owned()
}

// ---------------------------------------------------------------- local
/// The name of the local file to copy, from what is known of its path: whether it is
/// there, whether it has a parent, and its file name, where it has one.
pub fn local_source(path: &str, present: bool, has_parent: bool, name: Option<String>) -> (r:
    Result<String, String>)
    ensures
        if !present {
            r matches Err(e) && e@ == path@ + " does not exist"@
        } else if !has_parent {
            r matches Err(e) && e@ == "can't duplicate this path"@
        } else {
            match name {
                None => r matches Err(e) && e@ == "invalid file name"@,
                Some(n) => r == Ok::<String, String>(n),
            }
        },
{
    if !present {
        let mut e = path.to_owned();
        e.append(" does not exist");
        return Err(e);
    }
    if !has_parent {
        return Err("can't duplicate this path".to_owned());
    }
    match name {
        None => Err("invalid file name".to_owned()),
        Some(n) => Ok(n),
    }
}

/// The name of the local file to copy, of which `present` says whether it is there.
pub fn duplicate_local(path: &str, present: bool) -> (r: Result<String, String>)
    ensures
        !present ==> (r matches Err(e) && e@ == path@ + " does not exist"@),
        present ==> (r matches Err(e) ==> e@ == "can't duplicate this path"@ || e@
            == "invalid file name"@),
        present && (path@.len() == 0 || is_slashes(path@)) ==> (r matches Err(e) && e@
            == "can't duplicate this path"@),
        present && is_portable(path@) ==> match final_component(path@) {
            None => r matches Err(e) && e@ == "can't duplicate this path"@,
            Some(_) => match file_name_of(path@) {
                None => r matches Err(e) && e@ == "invalid file name"@,
                Some(name) => r matches Ok(n) && n@ == name,
            },
        },
{
    local_source(path, present, has_parent(path), file_name(path))
}

// ---------------------------------------------------------------- remote
/// A remote file or directory to copy.
#[derive(Debug, PartialEq, Eq)]
pub struct RemoteSource {
    /// Its path, without slashes behind it.
    pub path: String,
    /// The directory it is in.
    pub parent: String,
    /// Its name.
    pub name: String,
}

/// Whether a text names nothing: it is empty or a dot path.
pub open spec fn is_nameless(s: Seq<char>) -> bool {
    s.len() == 0 || s == "."@ || s == ".."@
}

/// Whether a text names nothing.
pub fn names_nothing(s: &str) -> (r: bool)
    ensures
        r == is_nameless(s@),
{
    s.is_empty() || same(s, ".") || same(s, "..")
}

/// A path without slashes behind it.
pub open spec fn bare(path: Seq<char>) -> Seq<char> {
    drop_end(path, either('/', '/'))
}

/// Whether a path names a remote file or directory.
pub open spec fn can_duplicate(path: Seq<char>) -> bool {
    !is_nameless(bare(path)) && !is_nameless(name_part(bare(path)))
}

/// The remote file or directory at `path`.
pub fn duplicate_ssh(path: &str) -> (r: Result<RemoteSource, String>)
    ensures
        r is Ok <==> can_duplicate(path@),
        r matches Ok(s) ==> {
            &&& s.path@ == bare(path@)
            &&& s.parent@ == parent_part(bare(path@))
            &&& s.name@ == name_part(bare(path@))
        },
        r matches Err(e) ==> e@ == "Duplicate requires a named remote file or directory"@,
{
    let path = trim_end_of(path, '/', '/');
    if names_nothing(path) {
        return Err("Duplicate requires a named remote file or directory".to_owned());
    }
    let (parent, name) = split_remote(path);
    if names_nothing(name) {
        return Err("Duplicate requires a named remote file or directory".to_owned());
    }
    Ok(RemoteSource { path: path.to_owned(), parent: parent.to_owned(), name: name.to_owned() })
}

/// The path of the `n`-th copy of the remote file or directory at `path`.
pub open spec fn remote_copy(path: Seq<char>, n: nat) -> Seq<char> {
    parent_part(path) + "/"@ + copied_name(name_part(path), n)
}

impl RemoteSource {
    /// Whether the parts are those of the path.
    pub open spec fn wf(self) -> bool {
        &&& self.parent@ == parent_part(self.path@)
        &&& self.name@ == name_part(self.path@)
    }

    /// The path of the `n`-th copy.
    pub fn copy(&self, n: usize) -> (r: String)
        requires
            self.wf(),
        ensures
            r@ == remote_copy(self.path@, n as nat),
    {
        let mut r = self.parent.clone();
        r.append("/");
        r.append(copy_name(self.name.as_str(), n).as_str());
        r
    }

    /// The command that sees whether the name of the `n`-th copy is taken.
    pub fn probe_command(&self, n: usize) -> (r: String)
        requires
            self.wf(),
        ensures
            r@ == "test -e "@ + quoted(remote_copy(self.path@, n as nat)),
    {
        let mut r = "test -e ".to_owned();
        r.append(sh_quote(self.copy(n).as_str()).as_str());
        r
    }

    /// The command that makes the `n`-th copy.
    pub fn copy_command(&self, n: usize) -> (r: String)
        requires
            self.wf(),
        ensures
            r@ == "cp -a -- "@ + quoted(self.path@) + " "@ + quoted(
                remote_copy(self.path@, n as nat),
            ),
    {
        let mut r = "cp -a -- ".to_owned();
        r.append(sh_quote(self.path.as_str()).as_str());
        r.append(" ");
        r.append(sh_quote(self.copy(n).as_str()).as_str());
        r
    }
}

/// The message where the copy could not be made.
pub open spec fn copy_failed(stderr: Seq<char>) -> Seq<char> {
    if trimmed(stderr).len() == 0 {
        "copy failed"@
    } else {
        "copy failed: "@ + trimmed(stderr)
    }
}

/// What came of making the copy.
pub fn copy_outcome(out: &ExecOutput) -> (r: Result<(), String>)
    ensures
        r is Ok <==> succeeded(*out),
        r matches Err(e) ==> e@ == copy_failed(out.stderr@),
{
    if out.success() {
        return Ok(());
    }
    let said = trim(out.stderr.as_str());
    if said.is_empty() {
        Err("copy failed".to_owned())
    } else {
        let mut e = "copy failed: ".to_owned();
        e.append(said);
        Err(e)
    }
}

/// How far the copying of a remote file or directory has come.
#[derive(Debug, PartialEq, Eq)]
pub enum CopyRun {
    /// See whether the name of this copy is taken.
    Probe(usize),
    /// Make this copy.
    Copy(usize),
    /// The copy is made.
    Done,
    /// The command fails with this error.
    Failed(String),
}

/// How far the copying has come, as its texts.
pub enum CopyRunView {
    Probe(usize),
    Copy(usize),
    Done,
    Failed(Seq<char>),
}

impl View for CopyRun {
    type V = CopyRunView;

    open spec fn view(&self) -> CopyRunView {
        match self {
            CopyRun::Probe(n) => CopyRunView::Probe(*n),
            CopyRun::Copy(n) => CopyRunView::Copy(*n),
            CopyRun::Done => CopyRunView::Done,
            CopyRun::Failed(e) => CopyRunView::Failed(e@),
        }
    }
}

impl CopyRunView {
    /// How far it has come after the next command, from what that gave back or why it
    /// could not be run. A name is taken where the probe succeeds.
    pub open spec fn after(self, reply: Result<ExecOutput, String>) -> CopyRunView {
        match (self, reply) {
            (CopyRunView::Probe(n), Ok(out)) => match CopySearch::Try(n).after(succeeded(out)) {
                CopySearch::Try(k) => CopyRunView::Probe(k),
                CopySearch::Found(k) => CopyRunView::Copy(k),
                CopySearch::TooMany => CopyRunView::Failed("too many copies already exist"@),
            },
            (CopyRunView::Probe(_), Err(e)) => CopyRunView::Failed(e@),
            (CopyRunView::Copy(_), Ok(out)) => if succeeded(out) {
                CopyRunView::Done
            } else {
                CopyRunView::Failed(copy_failed(out.stderr@))
            },
            (CopyRunView::Copy(_), Err(e)) => CopyRunView::Failed(e@),
            (other, _) => other,
        }
    }
}

impl CopyRun {
    /// The first copy's name is looked at first.
    pub fn start() -> (r: Self)
        ensures
            r@ == CopyRunView::Probe(1),
    {
        CopyRun::Probe(1)
    }

    /// The command to run next, while there is one.
    pub fn action(&self, source: &RemoteSource) -> (r: Option<String>)
        requires
            source.wf(),
        ensures
            match self@ {
                CopyRunView::Probe(n) => r matches Some(c) && c@ == "test -e "@ + quoted(
                    remote_copy(source.path@, n as nat),
                ),
                CopyRunView::Copy(n) => r matches Some(c) && c@ == "cp -a -- "@ + quoted(
                    source.path@,
                ) + " "@ + quoted(remote_copy(source.path@, n as nat)),
                _ => r is None,
            },
    {
        match self {
            CopyRun::Probe(n) => Some(source.probe_command(*n)),
            CopyRun::Copy(n) => Some(source.copy_command(*n)),
            _ => None,
        }
    }

    /// Goes on after the command has been run.
    pub fn next(self, reply: Result<ExecOutput, String>) -> (r: Self)
        ensures
            r@ == self@.after(reply),
    {
        match (self, reply) {
            (CopyRun::Probe(n), Ok(out)) => match CopySearch::Try(n).next(out.success()) {
                CopySearch::Try(k) => CopyRun::Probe(k),
                CopySearch::Found(k) => CopyRun::Copy(k),
                CopySearch::TooMany => CopyRun::Failed(too_many_copies()),
            },
            (CopyRun::Probe(_), Err(e)) => CopyRun::Failed(e),
            (CopyRun::Copy(_), Ok(out)) => match copy_outcome(&out) {
                Ok(_) => CopyRun::Done,
                Err(e) => CopyRun::Failed(e),
            },
            (CopyRun::Copy(_), Err(e)) => CopyRun::Failed(e),
            (other, _) => other,
        }
    }
}

/// How a file or directory is duplicated.
#[derive(Debug, PartialEq, Eq)]
pub enum Duplicate {
    /// By a local copy.
    Local,
    /// By a copy on the server.
    Remote(RemoteSource),
}

/// How the file or directory at `path` can be duplicated on this session, given the
/// session that was looked up. A transport without a copy command is refused.
pub fn duplicate_path(session_id: &str, path: &str, found: Option<Session>) -> (r: Result<
    Duplicate,
    String,
>)
    ensures
        if session_id@ == LOCAL_SESSION@ {
            r == Ok::<Duplicate, String>(Duplicate::Local)
        } else {
            match found {
                None => r matches Err(e) && e@ == missing("session"@, session_id@),
                Some(Session::Ssh) => if can_duplicate(path@) {
                    r matches Ok(Duplicate::Remote(s)) && s.wf() && s.path@ == bare(path@)
                } else {
                    r matches Err(e) && e@ == "Duplicate requires a named remote file or directory"@
                },
                Some(_) => r matches Err(e) && e@
                    == "Duplicate isn't supported on this connection yet"@,
            }
        },
{
    if is_local(session_id) {
        return Ok(Duplicate::Local);
    }
    match find_session(session_id, found) {
        Err(e) => Err(e),
        Ok(session) => match session {
            Session::Ssh => match duplicate_ssh(path) {
                Ok(source) => Ok(Duplicate::Remote(source)),
                Err(e) => Err(e),
            },
            _ => Err("Duplicate isn't supported on this connection yet".to_owned()),
        },
    }
}

// ---------------------------------------------------------------- laws
/// The search after `n` names have been looked at, where `taken` tells which copies
/// there are.
pub open spec fn searched(taken: spec_fn(nat) -> bool, n: nat) -> CopySearch
    decreases n,
{
    if n == 0 {
        CopySearch::Try(1)
    } else {
        let before = searched(taken, (n - 1) as nat);
        match before {
            CopySearch::Try(k) => before.after(taken(k as nat)),
            other => other,
        }
    }
}

/// The search finds the first copy whose name is free, gives up only where the names
/// of all thousand are taken, and ends.
pub proof fn law_search_finds_first_free(taken: spec_fn(nat) -> bool, n: nat)
    ensures
        match searched(taken, n) {
            CopySearch::Try(k) => k == n + 1 && k <= MAX_COPIES && forall|m: nat|
                1 <= m < k ==> #[trigger] taken(m),
            CopySearch::Found(k) => 1 <= k <= MAX_COPIES && !taken(k as nat) && forall|m: nat|
                1 <= m < k ==> #[trigger] taken(m),
            CopySearch::TooMany => forall|m: nat| 1 <= m <= MAX_COPIES ==> #[trigger] taken(m),
        },
        n >= MAX_COPIES ==> !(searched(taken, n) is Try),
    decreases n,
{
    if n > 0 {
        law_search_finds_first_free(taken, (n - 1) as nat);
    }
}

/// A remote copy stands in the directory of its source, under another name than it
/// and than every other copy.
pub proof fn law_remote_copy_is_beside_its_source(path: Seq<char>, m: nat, n: nat)
    requires
        1 <= m,
        1 <= n,
        m != n,
    ensures
        parent_part(remote_copy(path, n)) == parent_part(path),
        name_part(remote_copy(path, n)) == copied_name(name_part(path), n),
        name_part(remote_copy(path, n)) != name_part(path),
        remote_copy(path, m) != remote_copy(path, n),
{
    let name = name_part(path);
    let parent = parent_part(path);
    let copy = copied_name(name, n);
    let whole = remote_copy(path, n);
    reveal_strlit("/");
    reveal_strlit(" copy");
    reveal_strlit(" copy ");
    law_split_rejoins(path);
    lemma_decimal_shape(n);
    lemma_last_index(name, is_char('.'));
    law_copies_have_their_own_names(name, m, n);
    let at = extension_at(name);
    assert forall|i: int| 0 <= i < copy.len() implies #[trigger] copy[i] != '/' by {
        if i < at {
            assert(copy[i] == name[i]);
        } else if i < at + copy_mark(n).len() {
            let mark = copy_mark(n);
            assert(copy[i] == mark[i - at]);
            if n > 1 && i - at >= 6 {
                assert(mark[i - at] == decimal(n)[i - at - 6]);
            }
        } else {
            let k = i - copy_mark(n).len();
            assert(copy[i] == name[k]);
        }
    }
    let k = parent.len() as int;
    assert(whole[k] == '/');
    assert forall|i: int| k < i < whole.len() implies !is_char('/')(#[trigger] whole[i]) by {
        assert(whole[i] == copy[i - k - 1]);
    }
    lemma_last_index_is(whole, is_char('/'), k);
    assert(whole.take(k) == parent);
    assert(whole.skip(k + 1) == copy);
    let other = remote_copy(path, m);
    assert(other.skip(k + 1) == copied_name(name, m));
}

/// How far the copying has come after some commands.
pub open spec fn copied_so_far(replies: Seq<Result<ExecOutput, String>>) -> CopyRunView
    decreases replies.len(),
{
    if replies.len() == 0 {
        CopyRunView::Probe(1)
    } else {
        copied_so_far(replies.drop_last()).after(replies.last())
    }
}

/// Whether the first `n` probes found their names taken.
pub open spec fn all_taken(replies: Seq<Result<ExecOutput, String>>, n: int) -> bool {
    forall|i: int| 0 <= i < n ==> (#[trigger] replies[i] matches Ok(out) && succeeded(out))
}

/// Whether the `n`-th probe found its name free, after all before it were taken.
pub open spec fn found_free(replies: Seq<Result<ExecOutput, String>>, n: int) -> bool {
    &&& 1 <= n <= replies.len()
    &&& n <= MAX_COPIES
    &&& all_taken(replies, n - 1)
    &&& replies[n - 1] matches Ok(out) && !succeeded(out)
}

/// A copy is made only under the first name that a probe has found free, so that nothing
/// is overwritten; and the command succeeds only where that copy was made.
pub proof fn law_copy_goes_to_first_free_name(replies: Seq<Result<ExecOutput, String>>)
    ensures
        match copied_so_far(replies) {
            CopyRunView::Probe(n) => n == replies.len() + 1 && n <= MAX_COPIES && all_taken(
                replies,
                n - 1,
            ),
            CopyRunView::Copy(n) => n == replies.len() && found_free(replies, n as int),
            CopyRunView::Done => exists|n: int|
                #[trigger] found_free(replies, n) && n < replies.len() && (replies[n] matches Ok(
                    out,
                ) && succeeded(out)),
            CopyRunView::Failed(_) => true,
        },
    decreases replies.len(),
{
    if replies.len() > 0 {
        let before = replies.drop_last();
        law_copy_goes_to_first_free_name(before);
        let last = replies.len() - 1;
        assert(replies[last] == replies.last());
        assert forall|i: int| 0 <= i < before.len() implies #[trigger] replies[i] == before[i] by {}
        match copied_so_far(before) {
            CopyRunView::Copy(n) => {
                assert(found_free(replies, n as int));
            },
            CopyRunView::Done => {
                let n = choose|n: int|
                    #[trigger] found_free(before, n) && n < before.len() && (before[n] matches Ok(
                        out,
                    ) && succeeded(out));
                assert(found_free(replies, n));
            },
            _ => {},
        }
    }
}

/// A text names nothing where it is at most two dots, and nothing else.
pub proof fn law_nameless(s: Seq<char>)
    ensures
        is_nameless(s) <==> s.len() <= 2 && forall|i: int| 0 <= i < s.len() ==> #[trigger] s[i]
            == '.',
{
    reveal_strlit(".");
    reveal_strlit("..");
    if s.len() == 1 && s[0] == '.' {
        assert(s == "."@);
    }
    if s.len() == 2 && s[0] == '.' && s[1] == '.' {
        assert(s == ".."@);
    }
}

/// Whether a text is made of slashes.
pub open spec fn all_slashes(s: Seq<char>) -> bool {
    forall|i: int| 0 <= i < s.len() ==> #[trigger] s[i] == '/'
}

/// All slashes behind a path are taken off, and nothing else.
pub proof fn law_bare(path: Seq<char>, slashes: Seq<char>)
    requires
        path.len() > 0 ==> path.last() != '/',
        all_slashes(slashes),
    ensures
        bare(path + slashes) == path,
{
    law_drop_end(path, slashes, either('/', '/'));
}

/// What is in a directory is copied into the same directory, whatever slashes stand behind
/// its path; it can be copied unless its name is a dot or two.
pub proof fn law_copy_of_path(dir: Seq<char>, name: Seq<char>, slashes: Seq<char>, n: nat)
    requires
        name.len() > 0,
        !name.contains('/'),
        all_slashes(slashes),
    ensures
        can_duplicate(dir + seq!['/'] + name + slashes) <==> name.len() > 2 || exists|i: int|
            0 <= i < name.len() && #[trigger] name[i] != '.',
        remote_copy(bare(dir + seq!['/'] + name + slashes), n) == dir + seq!['/'] + copied_name(
            name,
            n,
        ),
        !can_duplicate(slashes),
{
    let path = dir + seq!['/'] + name;
    assert(path.last() == name.last());
    assert(name.contains(name.last()));
    law_bare(path, slashes);
    law_split_path(dir, name);
    law_nameless(name);
    law_nameless(path);
    assert(path[dir.len() as int] == '/');
    reveal_strlit("/");
    assert("/"@ == seq!['/']);
    law_bare(seq![], slashes);
    assert(Seq::<char>::empty() + slashes == slashes);
}

/// A path without a slash is its own name.
pub proof fn law_copy_of_lone_name(name: Seq<char>, slashes: Seq<char>)
    requires
        name.len() > 0,
        !name.contains('/'),
        all_slashes(slashes),
    ensures
        can_duplicate(name + slashes) <==> name.len() > 2 || exists|i: int|
            0 <= i < name.len() && #[trigger] name[i] != '.',
{
    assert(name.contains(name.last()));
    law_bare(name, slashes);
    law_nameless(name);
    law_split_rejoins(name);
}

/// The search goes through the names of a thousand copies: where the first free one is
/// among them it is found, and where none is free the search gives up.
pub proof fn law_search_ends(taken: spec_fn(nat) -> bool, k: nat)
    requires
        1 <= k <= 1000,
        forall|m: nat| 1 <= m < k ==> #[trigger] taken(m),
    ensures
        !taken(k) ==> searched(taken, k) == CopySearch::Found(k as usize),
        taken(k) && k == 1000 ==> searched(taken, k) == CopySearch::TooMany,
        taken(k) && k < 1000 ==> searched(taken, k) == CopySearch::Try((k + 1) as usize),
    decreases k,
{
    if k > 1 {
        law_search_ends(taken, (k - 1) as nat);
        assert(taken((k - 1) as nat));
    } else {
        assert(searched(taken, 0) == CopySearch::Try(1));
    }
}

/// A command that cannot be run ends the copying with its error. A copy is made where the
/// command that makes it succeeds; else the copying fails and tells what it printed.
pub proof fn law_copy_run_step(n: usize, out: ExecOutput, error: String)
    ensures
        CopyRunView::Probe(n).after(Err(error)) == CopyRunView::Failed(error@),
        CopyRunView::Copy(n).after(Err(error)) == CopyRunView::Failed(error@),
        out.exit_code == Some(0u32) ==> CopyRunView::Copy(n).after(Ok(out)) is Done,
        out.exit_code != Some(0u32) ==> CopyRunView::Copy(n).after(Ok(out)) == CopyRunView::Failed(
            copy_failed(out.stderr@),
        ),
        out.exit_code == Some(0u32) && n < 1000 ==> CopyRunView::Probe(n).after(Ok(out))
            == CopyRunView::Probe((n + 1) as usize),
        out.exit_code == Some(0u32) && n >= 1000 ==> CopyRunView::Probe(n).after(Ok(out))
            == CopyRunView::Failed("too many copies already exist"@),
        out.exit_code != Some(0u32) ==> CopyRunView::Probe(n).after(Ok(out)) == CopyRunView::Copy(
            n,
        ),
{
}

/// What is told of a failed copy ends in what the command printed, without the white space
/// round it; where it printed nothing else, nothing is added.
pub proof fn law_copy_failed(before: Seq<char>, text: Seq<char>, after: Seq<char>)
    requires
        all_white(before),
        all_white(after),
        text.len() > 0 ==> !is_white(text[0]) && !is_white(text.last()),
    ensures
        copy_failed(before + text + after) == if text.len() > 0 {
            "copy failed"@ + seq![':', ' '] + text
        } else {
            "copy failed"@
        },
{
    law_trimmed(before, text, after);
    reveal_strlit("copy failed");
    reveal_strlit("copy failed: ");
    assert("copy failed: "@ == "copy failed"@ + seq![':', ' ']);
}

} // verus!
