//! The sandbox service: what is sent to it, how its answers are read, and what its failures
//! mean. Nothing here sends anything.

use vstd::prelude::*;
use vstd::string::*;

use crate::runner::{opt_text, CASE_TIMEOUT_SECS};
use crate::text::{
    blank, contains, lemma_trimmed_blank, lines, lines_of, lowered, occurs_in, same, texts,
    to_ascii_lowercase, trim, trimmed,
};

verus! {

/// How long a sandbox lives, in milliseconds. The script limits itself; this is a safeguard.
pub const SANDBOX_TIMEOUT_MS: u64 = (CASE_TIMEOUT_SECS + 40) * 1000;

/// How long one command may take, in milliseconds: a little longer than the script allows.
pub const COMMAND_TIMEOUT_MS: u64 = (CASE_TIMEOUT_SECS + 25) * 1000;

/// Processors for one submission.
pub const VCPUS: u32 = 1;

/// The network policy that lets nothing out.
pub const DENY_ALL: &'static str = "deny-all";

#[derive(Debug, Clone, PartialEq, Eq)]
pub struct Resources {
    pub vcpus: u32,
}

#[derive(Debug, Clone, PartialEq, Eq)]
pub struct NetworkPolicy {
    pub mode: &'static str,
}

/// The request for a new sandbox.
#[derive(Debug, Clone, PartialEq, Eq)]
pub struct CreateSandboxRequest {
    pub image: String,
    pub resources: Resources,
    /// In milliseconds.
    pub timeout: u64,
    /// Always false: a persistent sandbox leaves a snapshot behind whenever it stops, and
    /// snapshots use up a quota that never resets.
    pub persistent: bool,
    /// Submissions are other people's code, so they get no network.
    pub network_policy: NetworkPolicy,
}

impl CreateSandboxRequest {
    /// The sandbox for one submission.
    pub fn for_submission(image: &str) -> (req: Self)
        ensures
            req.image@ == image@,
            req.resources.vcpus == VCPUS,
            req.timeout == SANDBOX_TIMEOUT_MS,
            !req.persistent,
            req.network_policy.mode@ == DENY_ALL@,
    {
        Self {
            image: image.to_string(),
            resources: Resources { vcpus: VCPUS },
            timeout: SANDBOX_TIMEOUT_MS,
            persistent: false,
            network_policy: NetworkPolicy { mode: DENY_ALL },
        }
    }
}

#[derive(Debug, Clone, PartialEq, Eq)]
pub struct SessionRef {
    pub id: String,
}

/// The answer to [`CreateSandboxRequest`].
#[derive(Debug, Clone, PartialEq, Eq)]
pub struct CreateSandboxResponse {
    pub session: SessionRef,
}

/// The request to run a command.
#[derive(Debug, Clone, PartialEq, Eq)]
pub struct ExecCommandRequest {
    pub command: String,
    pub args: Vec<String>,
    /// Whether the answer waits until the command has ended.
    pub wait: bool,
    /// Whether the answer holds what the command prints.
    pub logs: bool,
    /// In milliseconds.
    pub timeout: u64,
}

impl ExecCommandRequest {
    /// The request to run `script`. There is no standard input to send it through, so the
    /// whole script is an argument.
    pub fn shell_script(script: &str) -> (req: Self)
        ensures
            req.command@ == "sh"@,
            texts(req.args@) == seq!["-c"@, script@],
            req.wait,
            req.logs,
            req.timeout == COMMAND_TIMEOUT_MS,
    {
        let args: Vec<String> = vec!["-c".to_string(), script.to_string()];
        assert(texts(args@) =~= seq!["-c"@, script@]);
        Self {
            command: "sh".to_string(),
            args,
            wait: true,
            logs: true,
            timeout: COMMAND_TIMEOUT_MS,
        }
    }
}

// ---- The answer to a command ----

/// What a command has printed and how it ended.
#[derive(Debug, Clone, PartialEq, Eq)]
pub struct CommandResult {
    pub stdout: String,
    pub stderr: String,
    /// The exit code, if the answer got as far as naming it.
    pub exit_code: Option<i32>,
}

impl Default for CommandResult {
    fn default() -> (result: Self)
        ensures
            result.stdout@.len() == 0,
            result.stderr@.len() == 0,
            result.exit_code is None,
    {
        CommandResult { stdout: String::new(), stderr: String::new(), exit_code: None }
    }
}

/// One event of an answer: a chunk of output, the state of the command, or something else.
#[derive(Debug, Clone, PartialEq, Eq)]
pub struct StreamLine {
    pub data: Option<String>,
    pub stream: Option<String>,
    pub command: Option<StreamCommand>,
}

#[derive(Debug, Clone, PartialEq, Eq)]
pub struct StreamCommand {
    pub exit_code: Option<i32>,
}

/// The lines of an answer that hold an event.
pub open spec fn event_lines(ndjson: Seq<char>) -> Seq<Seq<char>> {
    lines_of(ndjson).map_values(|line: Seq<char>| trimmed(line)).filter(
        |line: Seq<char>| line.len() > 0,
    )
}

/// What an event adds to the stream called `name`.
pub open spec fn chunk(event: Option<StreamLine>, name: Seq<char>) -> Seq<char> {
    match event {
        Some(StreamLine { data: Some(data), stream: Some(stream), .. }) if stream@ == name => data@,
        _ => Seq::empty(),
    }
}

/// What the events add to the stream called `name`.
pub open spec fn chunks(events: Seq<Option<StreamLine>>, name: Seq<char>) -> Seq<char>
    decreases events.len(),
{
    if events.len() == 0 {
        Seq::empty()
    } else {
        chunks(events.drop_last(), name) + chunk(events.last(), name)
    }
}

/// The exit code that an event names.
pub open spec fn exit_of(event: Option<StreamLine>) -> Option<i32> {
    match event {
        Some(StreamLine { command: Some(StreamCommand { exit_code }), .. }) => exit_code,
        _ => None,
    }
}

/// The exit code that the last event names that names one.
pub open spec fn last_exit(events: Seq<Option<StreamLine>>) -> Option<i32>
    decreases events.len(),
{
    if events.len() == 0 {
        None
    } else if exit_of(events.last()) is Some {
        exit_of(events.last())
    } else {
        last_exit(events.drop_last())
    }
}

/// `result` is what the events add up to. An event is `None` where its line could not be read.
pub open spec fn folds_to(events: Seq<Option<StreamLine>>, result: CommandResult) -> bool {
    &&& result.stdout@ == chunks(events, "stdout"@)
    &&& result.stderr@ == chunks(events, "stderr"@)
    &&& result.exit_code == last_exit(events)
}

/// `events` are what `parse_line` has made of `lines`.
pub open spec fn parsed_with<F: Fn(&str) -> Option<StreamLine>>(
    parse_line: F,
    lines: Seq<Seq<char>>,
    events: Seq<Option<StreamLine>>,
) -> bool {
    &&& events.len() == lines.len()
    &&& forall|i: int|
        0 <= i < lines.len() ==> parsed_line(parse_line, #[trigger] lines[i], events[i])
}

/// `event` is what `parse_line` has made of `line`.
pub open spec fn parsed_line<F: Fn(&str) -> Option<StreamLine>>(
    parse_line: F,
    line: Seq<char>,
    event: Option<StreamLine>,
) -> bool {
    exists|s: &str| s@ == line && #[trigger] call_ensures(parse_line, (s,), event)
}

/// The lines of an answer that hold an event.
pub fn stream_lines(ndjson: &str) -> (found: Vec<String>)
    ensures
        texts(found@) == event_lines(ndjson@),
{
    let all: Vec<String> = lines(ndjson);
    let ghost cut = lines_of(ndjson@).map_values(|line: Seq<char>| trimmed(line));
    let ghost keep = |line: Seq<char>| line.len() > 0;
    let mut found: Vec<String> = Vec::new();
    let mut i: usize = 0;
    assert(cut.take(0) =~= Seq::empty());
    reveal(Seq::filter);
    while i < all.len()
        invariant
            texts(all@) == lines_of(ndjson@),
            cut == lines_of(ndjson@).map_values(|line: Seq<char>| trimmed(line)),
            keep == (|line: Seq<char>| line.len() > 0),
            i <= all@.len(),
            texts(found@) == cut.take(i as int).filter(keep),
        decreases all@.len() - i,
    {
        let line: &str = trim(all[i].as_str());
        assert(all@[i as int]@ == lines_of(ndjson@)[i as int]);
        assert(line@ == cut[i as int]);
        assert(cut.take(i + 1).drop_last() =~= cut.take(i as int));
        let ghost before = found@;
        if !line.is_empty() {
            found.push(line.to_string());
            assert(texts(found@) =~= texts(before).push(line@));
        }
        reveal(Seq::filter);
        i += 1;
    }
    assert(cut.take(cut.len() as int) =~= cut);
    found
}

/// Adds events up: chunks go to the end of their stream, and the last exit code counts.
/// Events of any other kind, and lines that could not be read, change nothing.
pub fn fold_stream(events: &Vec<Option<StreamLine>>) -> (result: CommandResult)
    ensures
        folds_to(events@, result),
{
    let mut result: CommandResult = CommandResult::default();
    let mut i: usize = 0;
    assert(result.stdout@ =~= Seq::empty());
    assert(result.stderr@ =~= Seq::empty());
    while i < events.len()
        invariant
            i <= events@.len(),
            folds_to(events@.take(i as int), result),
        decreases events@.len() - i,
    {
        let ghost before = result;
        let ghost event = events@[i as int];
        assert(events@.take(i + 1).drop_last() =~= events@.take(i as int));
        proof {
            reveal_strlit("stdout");
            reveal_strlit("stderr");
            assert("stdout"@[3] != "stderr"@[3]);
        }
        if let Some(parsed) = &events[i] {
            if let (Some(data), Some(stream)) = (&parsed.data, &parsed.stream) {
                if same(stream.as_str(), "stdout") {
                    result.stdout.append(data.as_str());
                } else if same(stream.as_str(), "stderr") {
                    result.stderr.append(data.as_str());
                }
            }
            if let Some(command) = &parsed.command {
                if let Some(code) = command.exit_code {
                    result.exit_code = Some(code);
                }
            }
        }
        assert(result.stdout@ =~= before.stdout@ + chunk(event, "stdout"@));
        assert(result.stderr@ =~= before.stderr@ + chunk(event, "stderr"@));
        i += 1;
    }
    assert(events@.take(events@.len() as int) =~= events@);
    result
}

/// Reads the answer to a command, one JSON value on each line. `parse_line` reads one line, and
/// gives `None` where it cannot: the service may add kinds of events, so such lines are skipped.
pub fn parse_command_stream<F: Fn(&str) -> Option<StreamLine>>(
    ndjson: &str,
    parse_line: F,
) -> (result: CommandResult)
    requires
        forall|s: &str| #[trigger] call_requires(parse_line, (s,)),
    ensures
        exists|events: Seq<Option<StreamLine>>| #[trigger]
            parsed_with(parse_line, event_lines(ndjson@), events) && folds_to(events, result),
{
    let found: Vec<String> = stream_lines(ndjson);
    let mut events: Vec<Option<StreamLine>> = Vec::new();
    let mut i: usize = 0;
    while i < found.len()
        invariant
            forall|s: &str| #[trigger] call_requires(parse_line, (s,)),
            texts(found@) == event_lines(ndjson@),
            i <= found@.len(),
            parsed_with(parse_line, event_lines(ndjson@).take(i as int), events@),
        decreases found@.len() - i,
    {
        let line: &str = found[i].as_str();
        let event: Option<StreamLine> = parse_line(line);
        let ghost before = events@;
        let ghost wanted = event_lines(ndjson@);
        assert(line@ == wanted[i as int]);
        assert(parsed_line(parse_line, line@, event));
        events.push(event);
        assert forall|j: int| 0 <= j < i + 1 implies parsed_line(
            parse_line,
            #[trigger] wanted.take(i + 1)[j],
            events@[j],
        ) by {
            if j < i {
                assert(wanted.take(i as int)[j] == wanted[j]);
                assert(events@[j] == before[j]);
            }
        }
        i += 1;
    }
    assert(event_lines(ndjson@).take(found@.len() as int) =~= event_lines(ndjson@));
    fold_stream(&events)
}

// ---- Credentials ----

/// The request header that carries the token in production. The environment holds a token
/// only during builds and on a developer's machine.
pub const OIDC_HEADER: &'static str = "x-vercel-oidc-token";

/// The token that a value holds, without white space around it. A blank value holds none.
pub open spec fn token_in(value: Option<&str>) -> Option<Seq<char>> {
    match value {
        Some(v) if !blank(v@) => Some(trimmed(v@)),
        _ => None,
    }
}

/// The token to use: the header's, or else the environment's, or else the fallback.
pub open spec fn token_of(
    header: Option<&str>,
    env_oidc: Option<&str>,
    env_fallback: Option<&str>,
) -> Option<Seq<char>> {
    if token_in(header) is Some {
        token_in(header)
    } else if token_in(env_oidc) is Some {
        token_in(env_oidc)
    } else {
        token_in(env_fallback)
    }
}

fn usable(value: Option<&str>) -> (token: Option<String>)
    ensures
        opt_text(token) == token_in(value),
{
    match value {
        Some(v) => {
            proof {
                lemma_trimmed_blank(v@);
            }
            let token: &str = trim(v);
            if token.is_empty() {
                None
            } else {
                Some(token.to_string())
            }
        },
        None => None,
    }
}

/// Chooses the token to use. The header comes first because only it is renewed on every
/// request.
pub fn pick_token(
    header: Option<&str>,
    env_oidc: Option<&str>,
    env_fallback: Option<&str>,
) -> (token: Option<String>)
    ensures
        opt_text(token) == token_of(header, env_oidc, env_fallback),
{
    let first: Option<String> = usable(header);
    if first.is_some() {
        return first;
    }
    let second: Option<String> = usable(env_oidc);
    if second.is_some() {
        return second;
    }
    usable(env_fallback)
}

// ---- Failures ----

/// Why the service has refused a request.
#[derive(Debug, Clone, Copy, PartialEq, Eq, Structural)]
pub enum UpstreamFailure {
    /// It may succeed if it is tried again.
    Transient,
    /// The quota is used up. Trying again does not help before the next billing cycle.
    QuotaExhausted,
    /// The token is not valid or not allowed to do this: the server is set up wrongly.
    Unauthorized,
    /// Anything else. Trying again does not help.
    Other,
}

/// What a refusal means, by the first of these that applies.
pub open spec fn failure_of(status: u16, body: Seq<char>) -> UpstreamFailure {
    let lower = lowered(body);
    if occurs_in(lower, "image_not_ready"@) {
        UpstreamFailure::Transient
    } else if status == 402 || occurs_in(lower, "quota"@) || occurs_in(lower, "resource_limit"@)
        || occurs_in(lower, "exceeded your"@) {
        UpstreamFailure::QuotaExhausted
    } else if status == 401 || status == 403 {
        UpstreamFailure::Unauthorized
    } else if status == 429 || 500 <= status < 600 {
        UpstreamFailure::Transient
    } else {
        UpstreamFailure::Other
    }
}

/// Decides what a refusal means from its HTTP status and its body.
pub fn classify_sandbox_failure(status: u16, body: &str) -> (failure: UpstreamFailure)
    ensures
        failure == failure_of(status, body@),
{
    let lower: String = to_ascii_lowercase(body);
    let lower: &str = lower.as_str();
    if contains(lower, "image_not_ready") {
        return UpstreamFailure::Transient;
    }
    if status == 402 || contains(lower, "quota") || contains(lower, "resource_limit") || contains(
        lower,
        "exceeded your",
    ) {
        return UpstreamFailure::QuotaExhausted;
    }
    if status == 401 || status == 403 {
        return UpstreamFailure::Unauthorized;
    }
    if status == 429 || (500 <= status && status < 600) {
        return UpstreamFailure::Transient;
    }
    UpstreamFailure::Other
}

} // verus!
