//! Answering a request to run a submission: the decisions between the steps that talk to the
//! sandbox service.
//!
//! Whoever talks to the service reports what came back, and is told what to do next.

use vstd::prelude::*;
use vstd::string::*;
use vstd::utf8::encode_utf8;

use crate::contract::{
    oversized_message, validate, ExecuteRequest, ExecuteResponse, EMPTY_CODE, MAX_CODE_BYTES,
};
use crate::encoding::{
    base64, hex, hex_alphabet, hex_padded, lemma_hex, lemma_hex_padded, to_hex, to_hex_padded,
};
use crate::language::Language;
use crate::runner::{
    base64_encode, build_script, complete, normalize_runner, parse_runner_output, reported,
    responds, script_text, section, Nonce, RunnerOutput, PRODUCTION_IMAGE,
};
use crate::sandbox::{
    classify_sandbox_failure, failure_of, pick_token, token_of, CommandResult, UpstreamFailure,
};
use crate::text::blank;

verus! {

/// Where the sandbox service is.
pub const SANDBOX_API: &'static str = "https://api.vercel.com";

/// How often creating a sandbox is tried again.
pub const CREATE_RETRIES: usize = 2;

/// How long an answer of the service is waited for, in seconds: longer than a command may take.
pub const HTTP_TIMEOUT_SECS: u64 = 75;

pub const BUSY: &'static str = "実行環境が混雑しています。少し待ってから再試行してください";

pub const UNREACHABLE: &'static str =
    "実行環境に接続できませんでした。しばらくして再試行してください";

pub const TIMED_OUT: &'static str =
    "実行がタイムアウトしました。無限ループがないか確認してください";

pub const UNPARSEABLE: &'static str = "実行結果を解釈できませんでした";

pub const UPSTREAM_FAILED: &'static str = "実行環境がエラーを返しました";

pub const NO_CREDENTIALS: &'static str =
    "実行環境の認証情報がありません (サーバー設定の問題です)";

/// Said when the quota is used up. Trying again does not help, so it says so.
pub const QUOTA_EXHAUSTED: &'static str =
    "実行環境の今月の無料枠を使い切りました。枠がリセットされるまで実行できません (コードの問題ではありません)";

pub const WRONG_METHOD: &'static str = "POST のみ受け付けます";

pub const UNREADABLE_BODY: &'static str = "リクエストボディを読めませんでした";

pub const MALFORMED_BODY: &'static str = "リクエストボディが不正です";

/// An answer that reports an error: the HTTP status and what is said.
#[derive(Clone, Debug, PartialEq, Eq)]
pub struct ErrorReply {
    pub status: u16,
    pub message: String,
}

fn reply(status: u16, message: &str) -> (r: ErrorReply)
    ensures
        r.status == status,
        r.message@ == message@,
{
    ErrorReply { status, message: message.to_string() }
}

// ---- Accepting a request ----

/// What has come in.
#[derive(Clone, Debug, PartialEq)]
pub enum Incoming {
    /// A request with another method than `POST`.
    OtherMethod,
    /// A body that could not be read to its end.
    UnreadableBody,
    /// A body that is not a request.
    MalformedBody,
    Request(ExecuteRequest),
}

/// Decides whether to run what has come in.
pub fn accept(incoming: Incoming) -> (r: Result<ExecuteRequest, ErrorReply>)
    ensures
        match incoming {
            Incoming::OtherMethod => r matches Err(e) && e.status == 405 && e.message@
                == WRONG_METHOD@,
            Incoming::UnreadableBody => r matches Err(e) && e.status == 400 && e.message@
                == UNREADABLE_BODY@,
            Incoming::MalformedBody => r matches Err(e) && e.status == 400 && e.message@
                == MALFORMED_BODY@,
            Incoming::Request(req) => if blank(req.code@) {
                r matches Err(e) && e.status == 400 && e.message@ == EMPTY_CODE@
            } else if encode_utf8(req.code@).len() > MAX_CODE_BYTES {
                r matches Err(e) && e.status == 400 && e.message@ == oversized_message()
            } else {
                r == Ok::<ExecuteRequest, ErrorReply>(req)
            },
        },
{
    match incoming {
        Incoming::OtherMethod => Err(reply(405, WRONG_METHOD)),
        Incoming::UnreadableBody => Err(reply(400, UNREADABLE_BODY)),
        Incoming::MalformedBody => Err(reply(400, MALFORMED_BODY)),
        Incoming::Request(req) => match validate(&req) {
            Ok(()) => Ok(req),
            Err(message) => Err(ErrorReply { status: 400, message }),
        },
    }
}

// ---- Failures ----

/// Why a submission was not run to its end.
#[derive(Clone, Copy, Debug, PartialEq, Eq, Structural)]
pub enum SandboxError {
    /// There is no token, or the service does not accept it.
    NoCredentials,
    Busy,
    Quota,
    Unreachable,
    TimedOut,
    /// The script ran to its end, and what it printed makes no sense.
    Unparseable,
    Failed,
}

impl SandboxError {
    pub open spec fn status(self) -> u16 {
        match self {
            SandboxError::NoCredentials => 500,
            SandboxError::Busy => 503,
            SandboxError::Quota => 503,
            SandboxError::Unreachable => 502,
            SandboxError::TimedOut => 504,
            SandboxError::Unparseable => 502,
            SandboxError::Failed => 502,
        }
    }

    pub open spec fn message(self) -> Seq<char> {
        match self {
            SandboxError::NoCredentials => NO_CREDENTIALS@,
            SandboxError::Busy => BUSY@,
            SandboxError::Quota => QUOTA_EXHAUSTED@,
            SandboxError::Unreachable => UNREACHABLE@,
            SandboxError::TimedOut => TIMED_OUT@,
            SandboxError::Unparseable => UNPARSEABLE@,
            SandboxError::Failed => UPSTREAM_FAILED@,
        }
    }

    /// The answer that reports the failure.
    pub fn into_response(self) -> (r: ErrorReply)
        ensures
            r.status == self.status(),
            r.message@ == self.message(),
    {
        match self {
            SandboxError::NoCredentials => reply(500, NO_CREDENTIALS),
            SandboxError::Busy => reply(503, BUSY),
            SandboxError::Quota => reply(503, QUOTA_EXHAUSTED),
            SandboxError::Unreachable => reply(502, UNREACHABLE),
            SandboxError::TimedOut => reply(504, TIMED_OUT),
            SandboxError::Unparseable => reply(502, UNPARSEABLE),
            SandboxError::Failed => reply(502, UPSTREAM_FAILED),
        }
    }
}

/// What a refusal of the service comes to where nothing is tried again.
pub open spec fn refusal_of(failure: UpstreamFailure) -> SandboxError {
    match failure {
        UpstreamFailure::QuotaExhausted => SandboxError::Quota,
        UpstreamFailure::Unauthorized => SandboxError::NoCredentials,
        UpstreamFailure::Transient => SandboxError::Busy,
        UpstreamFailure::Other => SandboxError::Failed,
    }
}

fn refusal(failure: UpstreamFailure) -> (e: SandboxError)
    ensures
        e == refusal_of(failure),
{
    match failure {
        UpstreamFailure::QuotaExhausted => SandboxError::Quota,
        UpstreamFailure::Unauthorized => SandboxError::NoCredentials,
        UpstreamFailure::Transient => SandboxError::Busy,
        UpstreamFailure::Other => SandboxError::Failed,
    }
}

// ---- Preparing a run ----

/// The image to run: the one that the environment names, or else the production image.
pub fn image(from_environment: Option<String>) -> (name: String)
    ensures
        name@ == (match from_environment {
            Some(s) => s@,
            None => PRODUCTION_IMAGE@,
        }),
{
    match from_environment {
        Some(s) => s,
        None => PRODUCTION_IMAGE.to_string(),
    }
}

/// The token to use, if there is one.
pub fn token(
    header: Option<&str>,
    env_oidc: Option<&str>,
    env_fallback: Option<&str>,
) -> (r: Result<String, SandboxError>)
    ensures
        match token_of(header, env_oidc, env_fallback) {
            Some(t) => r matches Ok(s) && s@ == t,
            None => r == Err::<String, SandboxError>(SandboxError::NoCredentials),
        },
{
    match pick_token(header, env_oidc, env_fallback) {
        Some(s) => Ok(s),
        None => Err(SandboxError::NoCredentials),
    }
}

/// Fills a buffer with random bytes of the operating system: `getrandom::getrandom`. `false`
/// where it reports an error. The buffer keeps its length. Nothing is said of which bytes come
/// back, because that is chance.
#[verifier::external_body]
fn fill_random(buf: &mut Vec<u8>) -> (filled: bool)
    ensures
        final(buf)@.len() == old(buf)@.len(),
{
    getrandom::getrandom(buf).is_ok()
}

/// The text that stands for random bytes, or for the time where none were drawn.
pub open spec fn random_text(drawn: bool, bytes: Seq<u8>, nanos: u128) -> Seq<char> {
    if drawn {
        hex(bytes)
    } else {
        hex_padded(nanos as nat, 32)
    }
}

/// Writes random bytes in hexadecimal, or the time, in nanoseconds, where none were drawn.
pub fn hex_of_random(drawn: bool, bytes: &Vec<u8>, nanos: u128) -> (s: String)
    ensures
        s@ == random_text(drawn, bytes@, nanos),
{
    if drawn {
        to_hex(bytes)
    } else {
        to_hex_padded(nanos, 32)
    }
}

/// Thirty-two hexadecimal digits that cannot be guessed. `nanos` is the time since 1970 in
/// nanoseconds, which stands in where the operating system has no random bytes to give.
pub fn random_hex(nanos: u128) -> (s: String)
    ensures
        exists|drawn: bool, bytes: Seq<u8>|
            bytes.len() == 16 && s@ == #[trigger] random_text(drawn, bytes, nanos),
        s@.len() == 32,
        forall|i: int| 0 <= i < 32 ==> hex_alphabet(#[trigger] s@[i]),
{
    let mut bytes: Vec<u8> = vec![0u8; 16];
    let drawn: bool = fill_random(&mut bytes);
    proof {
        lemma_hex(bytes@);
        lemma_hex_padded(nanos as nat, 32);
    }
    hex_of_random(drawn, &bytes, nanos)
}

/// The script that runs a submission.
pub fn submission_script(language: Language, code: &str, nonce: &Nonce) -> (s: String)
    ensures
        s@ == script_text(language, base64(encode_utf8(code@)), nonce@),
{
    build_script(language, base64_encode(code.as_bytes()).as_str(), nonce)
}

/// Whether an HTTP status reports success.
pub fn succeeded(status: u16) -> (yes: bool)
    ensures
        yes == (200 <= status < 300),
{
    200 <= status && status < 300
}

// ---- Addresses ----

/// Where a sandbox is created.
pub fn create_url() -> (s: String)
    ensures
        s@ == SANDBOX_API@ + "/v4/sandboxes"@,
{
    SANDBOX_API.to_string().concat("/v4/sandboxes")
}

/// Where a command is run. The caller chooses the command's identifier.
pub fn command_url(session: &str, random: &str) -> (s: String)
    ensures
        s@ == SANDBOX_API@ + "/v2/sandboxes/sessions/"@ + session@ + "/cmd?cmdId=c"@ + random@,
{
    SANDBOX_API.to_string().concat("/v2/sandboxes/sessions/").concat(session).concat(
        "/cmd?cmdId=c",
    ).concat(random)
}

/// Where a sandbox is stopped.
pub fn stop_url(session: &str) -> (s: String)
    ensures
        s@ == SANDBOX_API@ + "/v2/sandboxes/sessions/"@ + session@ + "/stop"@,
{
    SANDBOX_API.to_string().concat("/v2/sandboxes/sessions/").concat(session).concat("/stop")
}

// ---- Creating a sandbox ----

/// What came of asking for a sandbox.
#[derive(Clone, Debug, PartialEq, Eq)]
pub enum CreateReply {
    /// No answer in time.
    TimedOut,
    /// No answer for another reason.
    Unreachable,
    /// A sandbox, and its session.
    Created { session: String },
    /// An answer of success that names no session.
    Unreadable,
    Refused { status: u16, body: String },
}

/// What to do about it.
#[derive(Clone, Debug, PartialEq, Eq)]
pub enum CreateStep {
    /// Go on with this session.
    Use { session: String },
    /// Wait, and ask again. The next attempt has this number.
    Retry { after_millis: u64, attempt: usize },
    GiveUp { error: SandboxError },
}

/// What to do about the answer to the attempt with this number, counted from zero.
pub open spec fn create_step(attempt: usize, reply: CreateReply) -> CreateStep {
    match reply {
        CreateReply::TimedOut => CreateStep::GiveUp { error: SandboxError::TimedOut },
        CreateReply::Unreachable => CreateStep::GiveUp { error: SandboxError::Unreachable },
        CreateReply::Created { session } => CreateStep::Use { session },
        CreateReply::Unreadable => CreateStep::GiveUp { error: SandboxError::Failed },
        CreateReply::Refused { status, body } => {
            let failure = failure_of(status, body@);
            if failure == UpstreamFailure::Transient && attempt < CREATE_RETRIES {
                CreateStep::Retry {
                    after_millis: (600 * (attempt + 1)) as u64,
                    attempt: (attempt + 1) as usize,
                }
            } else {
                CreateStep::GiveUp { error: refusal_of(failure) }
            }
        },
    }
}

/// Decides what to do about the answer to an attempt, counted from zero. Only refusals that
/// may pass are tried again, after a wait that grows.
pub fn after_create(attempt: usize, reply: CreateReply) -> (step: CreateStep)
    ensures
        step == create_step(attempt, reply),
{
    match reply {
        CreateReply::TimedOut => CreateStep::GiveUp { error: SandboxError::TimedOut },
        CreateReply::Unreachable => CreateStep::GiveUp { error: SandboxError::Unreachable },
        CreateReply::Created { session } => CreateStep::Use { session },
        CreateReply::Unreadable => CreateStep::GiveUp { error: SandboxError::Failed },
        CreateReply::Refused { status, body } => {
            let failure: UpstreamFailure = classify_sandbox_failure(status, body.as_str());
            if failure == UpstreamFailure::Transient && attempt < CREATE_RETRIES {
                CreateStep::Retry {
                    after_millis: 600 * (attempt as u64 + 1),
                    attempt: attempt + 1,
                }
            } else {
                CreateStep::GiveUp { error: refusal(failure) }
            }
        },
    }
}

// ---- Running the script ----

/// What came of running the script.
#[derive(Clone, Debug, PartialEq, Eq)]
pub enum ExecReply {
    /// No answer in time.
    TimedOut,
    /// No answer for another reason.
    Unreachable,
    Refused { status: u16, body: String },
    /// An answer that could not be read to its end.
    Unreadable,
    Completed { result: CommandResult },
}

/// What the answer to the script comes to.
pub open spec fn exec_result(reply: ExecReply) -> Result<CommandResult, SandboxError> {
    match reply {
        ExecReply::TimedOut => Err(SandboxError::TimedOut),
        ExecReply::Unreachable => Err(SandboxError::Unreachable),
        ExecReply::Refused { status, body } => Err(refusal_of(failure_of(status, body@))),
        ExecReply::Unreadable => Err(SandboxError::Failed),
        ExecReply::Completed { result } => Ok(result),
    }
}

/// Decides what the answer to the script comes to. Nothing is tried again: the submission may
/// have run already.
pub fn after_exec(reply: ExecReply) -> (r: Result<CommandResult, SandboxError>)
    ensures
        r == exec_result(reply),
{
    match reply {
        ExecReply::TimedOut => Err(SandboxError::TimedOut),
        ExecReply::Unreachable => Err(SandboxError::Unreachable),
        ExecReply::Refused { status, body } => Err(
            refusal(classify_sandbox_failure(status, body.as_str())),
        ),
        ExecReply::Unreadable => Err(SandboxError::Failed),
        ExecReply::Completed { result } => Ok(result),
    }
}

/// `resp` is the response to the report `raw`.
pub open spec fn answers(
    language: Language,
    nonce: Seq<char>,
    raw: Seq<char>,
    resp: ExecuteResponse,
) -> bool {
    exists|out: RunnerOutput| #[trigger]
        reported(nonce, raw, out) && responds(language, out, resp)
}

/// `answer` is what the result of the script's command comes to.
pub open spec fn concludes(
    language: Language,
    nonce: Seq<char>,
    result: CommandResult,
    answer: Result<ExecuteResponse, SandboxError>,
) -> bool {
    let raw = result.stdout@;
    match answer {
        Ok(resp) => answers(language, nonce, raw, resp),
        Err(e) => {
            &&& section(nonce, raw, "end"@) is None || !complete(nonce, raw)
            &&& e == (if result.exit_code == Some(0i32) {
                SandboxError::Unparseable
            } else {
                SandboxError::TimedOut
            })
        },
    }
}

/// Turns what the script printed into the response.
///
/// A report that cannot be read means that the script was killed, unless it exited with zero.
pub fn conclude(language: Language, nonce: &Nonce, result: &CommandResult) -> (r: Result<
    ExecuteResponse,
    SandboxError,
>)
    ensures
        concludes(language, nonce@, *result, r),
{
    match parse_runner_output(nonce, result.stdout.as_str()) {
        Ok(parsed) => {
            let resp: ExecuteResponse = normalize_runner(language, &parsed);
            assert(reported(nonce@, result.stdout@, parsed) && responds(language, parsed, resp));
            Ok(resp)
        },
        Err(_) => {
            let exited_with_zero: bool = match result.exit_code {
                Some(code) => code == 0,
                None => false,
            };
            if exited_with_zero {
                Err(SandboxError::Unparseable)
            } else {
                Err(SandboxError::TimedOut)
            }
        },
    }
}

/// The end of a submission: the session to stop, and the answer. The answer does not wait for
/// the session to stop.
#[derive(Debug, PartialEq)]
pub struct Finish {
    pub stop: String,
    pub answer: Result<ExecuteResponse, SandboxError>,
}

/// Decides how a submission ends whose script was sent to `session`. The session is stopped
/// whatever came back.
pub fn finish(language: Language, nonce: &Nonce, session: String, reply: ExecReply) -> (end: Finish)
    ensures
        end.stop == session,
        match exec_result(reply) {
            Ok(result) => concludes(language, nonce@, result, end.answer),
            Err(e) => end.answer == Err::<ExecuteResponse, SandboxError>(e),
        },
{
    let answer: Result<ExecuteResponse, SandboxError> = match after_exec(reply) {
        Ok(result) => conclude(language, nonce, &result),
        Err(e) => Err(e),
    };
    Finish { stop: session, answer }
}

} // verus!
