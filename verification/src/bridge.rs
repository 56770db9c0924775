//! The Agent Bridge: what came of a skill, and registering the bridge as an MCP server.

use crate::json::{read_text_member, text_member};
use crate::pieces::views;
use crate::search::{begins, ends, law_begins_and_ends, law_occurs, occurs, parts_round};
use vstd::prelude::*;
use vstd::string::*;

verus! {

/// What came of running a skill, from the status of the reply and the error that its
/// body names, if any.
pub fn skill_outcome(status: u16, error: Option<String>) -> (r: Result<(), String>)
    ensures
        if status == 200 {
            r is Ok
        } else {
            match error {
                Some(text) => r == Err::<(), String>(text),
                None => r matches Err(e) && e@ == "skill run failed"@,
            }
        },
{
    if status == 200 {
        return Ok(());
    }
    match error {
        Some(text) => Err(text),
        None => Err("skill run failed".to_owned()),
    }
}

/// What came of running a skill, from the status of the reply and its body, a JSON text.
pub fn bridge_run_skill(status: u16, body: &str) -> (r: Result<(), String>)
    ensures
        if status == 200 {
            r is Ok
        } else {
            match text_member(body@, "error"@) {
                Some(text) => r matches Err(e) && e@ == text,
                None => r matches Err(e) && e@ == "skill run failed"@,
            }
        },
{
    skill_outcome(status, read_text_member(body, "error"))
}

// ---------------------------------------------------------------- registering
/// What the client program is given to register the bridge at `url`, which takes `token`.
pub open spec fn register_args(url: Seq<char>, token: Seq<char>) -> Seq<Seq<char>> {
    seq![
        "mcp"@,
        "add"@,
        "--transport"@,
        "http"@,
        "ghostftp"@,
        url,
        "--header"@,
        "Authorization: Bearer "@ + token,
    ]
}

/// What the client program is given to register the bridge.
pub fn bridge_register_mcp(url: &str, token: &str) -> (r: Vec<String>)
    ensures
        views(r@) == register_args(url@, token@),
{
    let mut header = "Authorization: Bearer ".to_owned();
    header.append(token);
    let mut args: Vec<String> = Vec::new();
    args.push("mcp".to_owned());
    args.push("add".to_owned());
    args.push("--transport".to_owned());
    args.push("http".to_owned());
    args.push("ghostftp".to_owned());
    args.push(url.to_owned());
    args.push("--header".to_owned());
    args.push(header);
    assert(views(args@) == register_args(url@, token@));
    args
}

/// An agent program with which the bridge can be registered.
#[derive(Debug, PartialEq, Eq)]
pub struct McpClient {
    /// What it is called.
    pub product: String,
    /// The names under which it is looked for, the likeliest first.
    pub programs: Vec<String>,
}

/// The names under which a program is looked for: on Windows first the name of its
/// executable file, then the bare name; elsewhere the bare name.
pub open spec fn program_names(program: Seq<char>, windows: bool) -> Seq<Seq<char>> {
    if windows {
        seq![program + ".exe"@, program]
    } else {
        seq![program]
    }
}

/// The client that is called `product` and whose program is `program`, on Windows or
/// elsewhere.
pub fn mcp_client(product: &str, program: &str, windows: bool) -> (r: McpClient)
    ensures
        r.product@ == product@,
        views(r.programs@) == program_names(program@, windows),
{
    let mut programs: Vec<String> = Vec::new();
    if windows {
        let mut file = program.to_owned();
        file.append(".exe");
        programs.push(file);
    }
    programs.push(program.to_owned());
    assert(views(programs@) == program_names(program@, windows));
    McpClient { product: product.to_owned(), programs }
}

/// What came of running a program.
#[derive(Debug, PartialEq, Eq)]
pub enum RunOutcome {
    /// It could not be started.
    NotRun(String),
    Succeeded,
    /// It ended with another status than success.
    Exited { status: String, stderr: String },
}

/// Registering the bridge.
#[derive(Debug, PartialEq, Eq)]
pub enum Registration {
    /// Run the program with this number.
    Try(usize),
    /// The command succeeds with this message.
    Registered(String),
    /// The command fails with this message.
    Failed(String),
}

/// A registration as its texts.
pub enum RegistrationView {
    Try(usize),
    Registered(Seq<char>),
    Failed(Seq<char>),
}

impl View for Registration {
    type V = RegistrationView;

    open spec fn view(&self) -> RegistrationView {
        match self {
            Registration::Try(i) => RegistrationView::Try(*i),
            Registration::Registered(text) => RegistrationView::Registered(text@),
            Registration::Failed(text) => RegistrationView::Failed(text@),
        }
    }
}

/// The message where a program succeeded.
pub open spec fn registered(product: Seq<char>) -> Seq<char> {
    "Ghost FTP MCP server registered as 'ghostftp'. "@ + product + " can now use it."@
}

/// What is told of a program that could not be started.
pub open spec fn not_run(bin: Seq<char>, error: Seq<char>) -> Seq<char> {
    "couldn't run "@ + bin + ": "@ + error
}

/// What is told of a program that failed.
pub open spec fn exited(bin: Seq<char>, status: Seq<char>, stderr: Seq<char>) -> Seq<char> {
    bin + " exited with "@ + status + ": "@ + stderr
}

/// What is told of a program that did not succeed.
pub open spec fn told(bin: Seq<char>, outcome: RunOutcome) -> Seq<char> {
    match outcome {
        RunOutcome::NotRun(e) => not_run(bin, e@),
        RunOutcome::Succeeded => ""@,
        RunOutcome::Exited { status, stderr } => exited(bin, status@, stderr@),
    }
}

fn tell(bin: &str, outcome: &RunOutcome) -> (r: String)
    ensures
        r@ == told(bin@, *outcome),
{
    match outcome {
        RunOutcome::NotRun(e) => {
            let mut text = "couldn't run ".to_owned();
            text.append(bin);
            text.append(": ");
            text.append(e.as_str());
            text
        },
        RunOutcome::Succeeded => "".to_owned(),
        RunOutcome::Exited { status, stderr } => {
            let mut text = bin.to_owned();
            text.append(" exited with ");
            text.append(status.as_str());
            text.append(": ");
            text.append(stderr.as_str());
            text
        },
    }
}

/// The advice to install the client, with what is told of the last program.
pub open spec fn not_registered(product: Seq<char>, last: Seq<char>) -> Seq<char> {
    "Couldn't register the MCP server automatically. Make sure "@ + product
        + " is installed and on your PATH. "@ + last
}

/// The message where the last program did not succeed: what is told of one that could not
/// be started, or where it failed the advice to install the client.
pub open spec fn gave_up(product: Seq<char>, bin: Seq<char>, outcome: RunOutcome) -> Seq<char> {
    if outcome is NotRun {
        told(bin, outcome)
    } else {
        not_registered(product, told(bin, outcome))
    }
}

fn write_not_registered(product: &str, last: &str) -> (r: String)
    ensures
        r@ == not_registered(product@, last@),
{
    let mut text = "Couldn't register the MCP server automatically. Make sure ".to_owned();
    text.append(product);
    text.append(" is installed and on your PATH. ");
    text.append(last);
    text
}

/// Where a registration begins: with the first program; where there is none, it fails.
pub open spec fn first_try(client: McpClient) -> RegistrationView {
    if client.programs@.len() > 0 {
        RegistrationView::Try(0)
    } else {
        RegistrationView::Failed(not_registered(client.product@, ""@))
    }
}

impl RegistrationView {
    /// The registration after the program has been run. One that cannot be started, or
    /// that fails, gives way to the next; the last one's trouble is what is told.
    pub open spec fn after(self, client: McpClient, outcome: RunOutcome) -> RegistrationView {
        match self {
            RegistrationView::Try(i) => if outcome is Succeeded {
                RegistrationView::Registered(registered(client.product@))
            } else if i + 1 < client.programs@.len() {
                RegistrationView::Try((i + 1) as usize)
            } else {
                RegistrationView::Failed(
                    gave_up(client.product@, client.programs@[i as int]@, outcome),
                )
            },
            other => other,
        }
    }
}

impl Registration {
    /// The first program is tried first; where there is none, that fails.
    pub fn start(client: &McpClient) -> (r: Self)
        ensures
            r.wf(*client),
            r@ == first_try(*client),
    {
        if client.programs.len() > 0 {
            Registration::Try(0)
        } else {
            Registration::Failed(write_not_registered(client.product.as_str(), ""))
        }
    }

    /// Whether the program to try is one of the client's.
    pub open spec fn wf(self, client: McpClient) -> bool {
        self@ matches RegistrationView::Try(i) ==> i < client.programs@.len()
    }

    /// Goes on after the program has been run.
    pub fn next(self, client: &McpClient, outcome: &RunOutcome) -> (r: Self)
        requires
            self.wf(*client),
        ensures
            r.wf(*client),
            r@ == self@.after(*client, *outcome),
    {
        let i: usize = match self {
            Registration::Try(i) => i,
            other => {
                return other;
            },
        };
        if let RunOutcome::Succeeded = outcome {
            let mut text = "Ghost FTP MCP server registered as 'ghostftp'. ".to_owned();
            text.append(client.product.as_str());
            text.append(" can now use it.");
            return Registration::Registered(text);
        }
        if i < client.programs.len() - 1 {
            return Registration::Try(i + 1);
        }
        let last = tell(client.programs[i].as_str(), outcome);
        if let RunOutcome::NotRun(_) = outcome {
            return Registration::Failed(last);
        }
        Registration::Failed(write_not_registered(client.product.as_str(), last.as_str()))
    }
}

// ---------------------------------------------------------------- laws
/// The registration after some programs have been run.
pub open spec fn tried(client: McpClient, outcomes: Seq<RunOutcome>) -> RegistrationView
    decreases outcomes.len(),
{
    if outcomes.len() == 0 {
        first_try(client)
    } else {
        tried(client, outcomes.drop_last()).after(client, outcomes.last())
    }
}

/// Whether none of the first `n` programs succeeded.
pub open spec fn none_succeeded(outcomes: Seq<RunOutcome>, n: int) -> bool {
    forall|i: int| 0 <= i < n ==> !(#[trigger] outcomes[i] is Succeeded)
}

/// Every program is tried before the registration gives up, whether the others could not
/// be started or failed; then the last one's trouble is told. The first that succeeds
/// registers the bridge, and no other is run.
pub proof fn law_every_program_is_tried(client: McpClient, outcomes: Seq<RunOutcome>)
    ensures
        ({
            let n = client.programs@.len() as int;
            match tried(client, outcomes) {
                RegistrationView::Try(k) => {
                    &&& k == outcomes.len()
                    &&& k < n
                    &&& none_succeeded(outcomes, k as int)
                },
                RegistrationView::Registered(text) => {
                    &&& text == registered(client.product@)
                    &&& exists|k: int|
                        {
                            &&& 0 <= k < n
                            &&& k < outcomes.len()
                            &&& #[trigger] outcomes[k] is Succeeded
                            &&& none_succeeded(outcomes, k)
                        }
                },
                RegistrationView::Failed(text) => {
                    &&& outcomes.len() >= n
                    &&& none_succeeded(outcomes, n)
                    &&& n > 0 ==> text == gave_up(
                        client.product@,
                        client.programs@[n - 1]@,
                        outcomes[n - 1],
                    )
                },
            }
        }),
    decreases outcomes.len(),
{
    let n = client.programs@.len() as int;
    assert(n == client.programs.len());
    if outcomes.len() > 0 {
        let before = outcomes.drop_last();
        law_every_program_is_tried(client, before);
        assert forall|i: int| 0 <= i < before.len() implies #[trigger] outcomes[i] == before[i] by {}
        match tried(client, before) {
            RegistrationView::Try(k) => {
                assert(none_succeeded(outcomes, k as int));
                assert(outcomes[k as int] == outcomes.last());
            },
            RegistrationView::Registered(_) => {
                let k = choose|k: int|
                    {
                        &&& 0 <= k < n
                        &&& k < before.len()
                        &&& #[trigger] before[k] is Succeeded
                        &&& none_succeeded(before, k)
                    };
                assert(outcomes[k] is Succeeded);
                assert(none_succeeded(outcomes, k));
            },
            RegistrationView::Failed(_) => {
                assert(none_succeeded(outcomes, n));
            },
        }
    }
}

/// What is told of a program names the program, and why it did not run or how it ended;
/// where it failed, the client that is to be installed is named too.
pub proof fn law_messages_name_the_trouble(
    product: Seq<char>,
    bin: Seq<char>,
    error: String,
    status: String,
    stderr: String,
)
    ensures
        occurs(registered(product), product),
        occurs(gave_up(product, bin, RunOutcome::NotRun(error)), bin),
        ends(gave_up(product, bin, RunOutcome::NotRun(error)), error@),
        occurs(gave_up(product, bin, RunOutcome::Exited { status, stderr }), product),
        occurs(gave_up(product, bin, RunOutcome::Exited { status, stderr }), bin),
        occurs(gave_up(product, bin, RunOutcome::Exited { status, stderr }), status@),
        ends(gave_up(product, bin, RunOutcome::Exited { status, stderr }), stderr@),
{
    let a = "Ghost FTP MCP server registered as 'ghostftp'. "@;
    lemma_stands_between(a, product, " can now use it."@);
    let b = gave_up(product, bin, RunOutcome::NotRun(error));
    lemma_stands_between("couldn't run "@, bin, ": "@ + error@);
    assert(b == "couldn't run "@ + bin + (": "@ + error@));
    law_begins_and_ends("couldn't run "@ + bin + ": "@, error@);
    let c = gave_up(product, bin, RunOutcome::Exited { status, stderr });
    let start = "Couldn't register the MCP server automatically. Make sure "@;
    let middle = " is installed and on your PATH. "@;
    let last = bin + " exited with "@ + status@ + ": "@ + stderr@;
    assert(c == start + product + middle + last);
    lemma_stands_between(start, product, middle + last);
    assert(c == start + product + (middle + last));
    lemma_stands_between(
        start + product + middle,
        bin,
        " exited with "@ + status@ + ": "@ + stderr@,
    );
    assert(c == start + product + middle + bin + (" exited with "@ + status@ + ": "@ + stderr@));
    lemma_stands_between(
        start + product + middle + bin + " exited with "@,
        status@,
        ": "@ + stderr@,
    );
    assert(c == start + product + middle + bin + " exited with "@ + status@ + (": "@ + stderr@));
    law_begins_and_ends(
        start + product + middle + bin + " exited with "@ + status@ + ": "@,
        stderr@,
    );
    assert(c == start + product + middle + bin + " exited with "@ + status@ + ": "@ + stderr@);
}

/// Where the client has no program, the registration fails at once, and names the client.
pub proof fn law_nothing_to_try(client: McpClient)
    ensures
        first_try(client) is Failed <==> client.programs@.len() == 0,
        first_try(client) matches RegistrationView::Failed(text) ==> occurs(text, client.product@),
{
    let start = "Couldn't register the MCP server automatically. Make sure "@;
    let middle = " is installed and on your PATH. "@;
    lemma_stands_between(start, client.product@, middle + ""@);
    assert(start + client.product@ + (middle + ""@) == start + client.product@ + middle + ""@);
}

/// A text stands between what is before it and what is behind it.
proof fn lemma_stands_between(a: Seq<char>, t: Seq<char>, b: Seq<char>)
    ensures
        occurs(a + t + b, t),
{
    law_occurs(a + t + b, t);
    assert(parts_round(a + t + b, a, t, b));
}

/// The program is given the URL and the token where it looks for them, and otherwise the
/// same words whatever these are.
pub proof fn law_register_args(
    url: Seq<char>,
    token: Seq<char>,
    other_url: Seq<char>,
    other_token: Seq<char>,
    i: int,
)
    ensures
        ({
            let args = register_args(url, token);
            let others = register_args(other_url, other_token);
            &&& args.len() == 8
            &&& args[5] == url
            &&& begins(args[7], "Authorization: Bearer "@)
            &&& args[7].skip("Authorization: Bearer "@.len() as int) == token
            &&& 0 <= i < 8 && i != 5 && i != 7 ==> args[i] == others[i]
        }),
{
    let args = register_args(url, token);
    assert(args[7].skip("Authorization: Bearer "@.len() as int) == token);
    assert(args[7].take("Authorization: Bearer "@.len() as int) == "Authorization: Bearer "@);
}

/// The bare name is looked for last; on Windows the name of the executable file is looked
/// for before it, and elsewhere nothing is.
pub proof fn law_program_names(program: Seq<char>)
    ensures
        program_names(program, false) == seq![program],
        program_names(program, true).len() == 2,
        program_names(program, true)[0] == program + seq!['.', 'e', 'x', 'e'],
        program_names(program, true)[1] == program,
{
    reveal_strlit(".exe");
    assert(".exe"@ == seq!['.', 'e', 'x', 'e']);
}

} // verus!
