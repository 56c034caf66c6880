//! What the sandbox service's answers come to, said of the answers.

use vstd::prelude::*;

use crate::contract::ExecuteResponse;
use crate::encoding::{hex, hex_padded, lemma_hex};
use crate::encoding_laws::{lemma_hex_differs, lemma_hex_padded_differs, numbers_of_width};
use crate::execute::{
    concludes, create_step, exec_result, random_text, CreateReply, CreateStep, ExecReply,
    SandboxError,
};
use crate::framing::{exit_text, framed_report, lemma_report_is_read_back, quiet};
use crate::language::Language;
use crate::laws::{create_outcome, lemma_chunks_keep_their_order, lemma_later_exit_wins};
use crate::report_laws::{lemma_every_section_is_needed, required_name};
use crate::runner::{reported, responds, RunnerOutput};
use crate::sandbox::{
    chunk, chunks, event_lines, failure_of, folds_to, last_exit, parsed_line, parsed_with,
    token_of, CommandResult, StreamLine, UpstreamFailure,
};
use crate::text::{
    blank, lemma_filter_concat, lines_of, lowered, occurs_in, pieces, trimmed, white_space,
};
use crate::text_laws::{
    lemma_first_line, lemma_lines_concat, lemma_only_line, lemma_trimming, lemma_trimming_blank,
};

verus! {

// ---- The answer to a command ----

/// One event adds its data, whole and unchanged, to the stream that it names and to no other,
/// and sets the exit code that it names. An event without data or without a stream adds nothing,
/// and a line that could not be read does nothing.
pub proof fn lemma_one_event(event: StreamLine, result: CommandResult)
    requires
        folds_to(seq![Some(event)], result),
    ensures
        event.data matches Some(data) ==> event.stream matches Some(stream) ==> {
            &&& stream@ == "stdout"@ ==> result.stdout@ == data@ && result.stderr@.len() == 0
            &&& stream@ == "stderr"@ ==> result.stderr@ == data@ && result.stdout@.len() == 0
            &&& stream@ != "stdout"@ && stream@ != "stderr"@ ==> result.stdout@.len() == 0
                && result.stderr@.len() == 0
        },
        event.data is None || event.stream is None ==> result.stdout@.len() == 0
            && result.stderr@.len() == 0,
        event.command matches Some(command) ==> result.exit_code == command.exit_code,
        event.command is None ==> result.exit_code is None,
{
    reveal_strlit("stdout");
    reveal_strlit("stderr");
    assert("stdout"@[3] != "stderr"@[3]);
    let events = seq![Some(event)];
    assert(events.drop_last() =~= Seq::empty());
    lemma_one_chunk(Some(event), "stdout"@);
    lemma_one_chunk(Some(event), "stderr"@);
    assert(last_exit(events.drop_last()) is None);
}

proof fn lemma_one_chunk(event: Option<StreamLine>, name: Seq<char>)
    ensures
        chunks(seq![event], name) == chunk(event, name),
{
    let events = seq![event];
    assert(events.drop_last() =~= Seq::empty());
    assert(chunks(events.drop_last(), name) == Seq::<char>::empty());
    assert(chunks(events, name) =~= chunk(event, name));
}

/// The same of any stream: one event adds its data to its own stream, and nothing to another.
pub proof fn lemma_one_event_on_any_stream(event: StreamLine, data: String, stream: String)
    requires
        event.data == Some(data),
        event.stream == Some(stream),
    ensures
        chunks(seq![Some(event)], stream@) == data@,
        forall|name: Seq<char>|
            name != stream@ ==> #[trigger] chunks(seq![Some(event)], name) == Seq::<char>::empty(),
        last_exit(seq![Some(event)]) == (match event.command {
            Some(command) => command.exit_code,
            None => None,
        }),
{
    lemma_one_chunk(Some(event), stream@);
    assert forall|name: Seq<char>| name != stream@ implies #[trigger] chunks(
        seq![Some(event)],
        name,
    ) == Seq::<char>::empty() by {
        lemma_one_chunk(Some(event), name);
    }
    assert(seq![Some(event)].drop_last() =~= Seq::empty());
    assert(last_exit(seq![Some(event)].drop_last()) is None);
}

/// Nothing, and a line that could not be read, comes to nothing.
pub proof fn lemma_no_event(result: CommandResult)
    requires
        folds_to(Seq::empty(), result) || folds_to(seq![None], result),
    ensures
        result.stdout@.len() == 0,
        result.stderr@.len() == 0,
        result.exit_code is None,
{
    lemma_one_chunk(None, "stdout"@);
    lemma_one_chunk(None, "stderr"@);
    assert(seq![None::<StreamLine>].drop_last() =~= Seq::empty());
    assert(last_exit(Seq::empty()) is None);
}

/// What two runs of events come to, one behind the other, is what each comes to put together.
pub proof fn lemma_folding_concat(
    a: Seq<Option<StreamLine>>,
    b: Seq<Option<StreamLine>>,
    x: CommandResult,
    y: CommandResult,
    all: CommandResult,
)
    requires
        folds_to(a, x),
        folds_to(b, y),
        folds_to(a + b, all),
    ensures
        all.stdout@ == x.stdout@ + y.stdout@,
        all.stderr@ == x.stderr@ + y.stderr@,
        all.exit_code == (if y.exit_code is Some {
            y.exit_code
        } else {
            x.exit_code
        }),
{
    lemma_chunks_keep_their_order(a, b, "stdout"@);
    lemma_chunks_keep_their_order(a, b, "stderr"@);
    lemma_later_exit_wins(a, b);
}

/// The events of a text that ends with a newline come before those of what is behind it.
pub proof fn lemma_event_lines_concat(a: Seq<char>, b: Seq<char>)
    requires
        a.len() == 0 || a.last() == '\n',
    ensures
        event_lines(a + b) == event_lines(a) + event_lines(b),
{
    lemma_lines_concat(a, b);
    let cut = |line: Seq<char>| trimmed(line);
    let keep = |line: Seq<char>| line.len() > 0;
    assert(lines_of(a + b).map_values(cut) =~= lines_of(a).map_values(cut) + lines_of(
        b,
    ).map_values(cut));
    lemma_filter_concat(lines_of(a).map_values(cut), lines_of(b).map_values(cut), keep);
}

/// A line holds one event, without the white space around it, and a blank line holds none.
pub proof fn lemma_event_line(before: Seq<char>, event: Seq<char>, after: Seq<char>)
    requires
        blank(before),
        blank(after),
        !(before + event + after).contains('\n'),
        event.len() > 0 ==> !white_space(event[0]) && !white_space(event.last()),
    ensures
        event.len() > 0 ==> event_lines(before + event + after) == seq![event],
        event.len() > 0 ==> event_lines(before + event + after + "\n"@) == seq![event],
        event.len() == 0 ==> event_lines(before + event + after).len() == 0,
        event.len() == 0 ==> event_lines(before + event + after + "\n"@).len() == 0,
{
    reveal_strlit("\n");
    reveal_strlit("\r\n");
    let line = before + event + after;
    let cut = |l: Seq<char>| trimmed(l);
    let keep = |l: Seq<char>| l.len() > 0;
    if event.len() > 0 {
        lemma_trimming(before, event, after);
    } else {
        assert(blank(line)) by {
            assert forall|i: int| 0 <= i < line.len() implies white_space(#[trigger] line[i]) by {
                if i < before.len() {
                    assert(line[i] == before[i]);
                } else {
                    assert(line[i] == after[i - before.len()]);
                }
            }
        }
        lemma_trimming_blank(line);
    }
    lemma_only_line(line);
    lemma_only_line(Seq::empty());
    assert(seq![line] + Seq::<Seq<char>>::empty() =~= seq![line]);
    assert(line + "\n"@ + Seq::<char>::empty() =~= line + "\n"@);
    lemma_one_filtered(line, trimmed(line));
    if line.len() == 0 || line.last() != '\r' {
        lemma_first_line(line, Seq::empty());
    } else {
        let short = line.drop_last();
        assert(!short.contains('\n')) by {
            assert forall|i: int| 0 <= i < short.len() implies short[i] != '\n' by {
                assert(line.contains(line[i]));
            }
        }
        lemma_first_line(short, Seq::empty());
        assert(short + "\r\n"@ + Seq::<char>::empty() =~= line + "\n"@);
        assert(seq![short] + Seq::<Seq<char>>::empty() =~= seq![short]);
        lemma_one_filtered(short, trimmed(short));
        if event.len() > 0 {
            assert(after.len() > 0) by {
                assert(white_space('\r'));
                assert(after.len() == 0 ==> line.last() == event.last());
            }
            let less = after.drop_last();
            assert(blank(less)) by {
                assert forall|i: int| 0 <= i < less.len() implies white_space(
                    #[trigger] less[i],
                ) by {
                    assert(less[i] == after[i]);
                }
            }
            assert(short =~= before + event + less);
            lemma_trimming(before, event, less);
        } else {
            assert(blank(short)) by {
                assert forall|i: int| 0 <= i < short.len() implies white_space(
                    #[trigger] short[i],
                ) by {
                    assert(short[i] == line[i]);
                }
            }
            lemma_trimming_blank(short);
        }
    }
    if line.len() == 0 {
        assert(event_lines(line) =~= Seq::empty()) by {
            reveal(Seq::filter);
            assert(lines_of(line).map_values(cut) =~= Seq::empty());
        }
    }
}

proof fn lemma_one_filtered(line: Seq<char>, t: Seq<char>)
    requires
        t == trimmed(line),
    ensures
        seq![line].map_values(|l: Seq<char>| trimmed(l)).filter(|l: Seq<char>| l.len() > 0) == (
        if t.len() > 0 {
            seq![t]
        } else {
            Seq::empty()
        }),
{
    reveal(Seq::filter);
    let cut = seq![line].map_values(|l: Seq<char>| trimmed(l));
    let keep = |l: Seq<char>| l.len() > 0;
    assert(cut =~= seq![t]);
    assert(cut.drop_last() =~= Seq::empty());
    assert(cut.drop_last().filter(keep) =~= Seq::empty());
    assert(cut.filter(keep) =~= (if t.len() > 0 {
        seq![t]
    } else {
        Seq::empty()
    }));
}

/// Every line that holds an event is read, each on its own and in order, and nothing else is.
pub proof fn lemma_every_event_is_read<F: Fn(&str) -> Option<StreamLine>>(
    parse_line: F,
    ndjson: Seq<char>,
    events: Seq<Option<StreamLine>>,
    i: int,
)
    requires
        parsed_with(parse_line, event_lines(ndjson), events),
    ensures
        events.len() == event_lines(ndjson).len(),
        0 <= i < events.len() ==> exists|s: &str|
            s@ == event_lines(ndjson)[i] && #[trigger] call_ensures(parse_line, (s,), events[i]),
{
    if 0 <= i < events.len() {
        assert(parsed_line(parse_line, event_lines(ndjson)[i], events[i]));
    }
}

// ---- Credentials ----

/// The header's token is used where it holds more than white space, else the environment's,
/// else the fallback, always without the white space around it.
pub proof fn lemma_token_order(
    header: Option<&str>,
    env_oidc: Option<&str>,
    env_fallback: Option<&str>,
)
    ensures
        ({
            let token = token_of(header, env_oidc, env_fallback);
            let first = header matches Some(v) && !blank(v@);
            let second = env_oidc matches Some(v) && !blank(v@);
            let third = env_fallback matches Some(v) && !blank(v@);
            &&& first ==> token == Some(trimmed(header->0@))
            &&& !first && second ==> token == Some(trimmed(env_oidc->0@))
            &&& !first && !second && third ==> token == Some(trimmed(env_fallback->0@))
            &&& !first && !second && !third ==> token is None
        }),
{
}

// ---- Refusals ----

/// A refusal that speaks of an image that is not ready may pass. Else a status of 402 and any of
/// three phrases mean a used-up quota. Else 401 and 403 are the credentials, 429 and everything
/// from 500 to 599 may pass, and nothing else does. Capitals do not matter.
pub proof fn lemma_failures(status: u16, body: Seq<char>)
    ensures
        ({
            let text = lowered(body);
            let unready = occurs_in(text, "image_not_ready"@);
            let quota = status == 402 || occurs_in(text, "quota"@) || occurs_in(
                text,
                "resource_limit"@,
            ) || occurs_in(text, "exceeded your"@);
            let credentials = status == 401 || status == 403;
            let passing = status == 429 || 500 <= status < 600;
            let failure = failure_of(status, body);
            &&& failure == UpstreamFailure::Transient <==> unready || (!quota && passing)
            &&& failure == UpstreamFailure::QuotaExhausted <==> !unready && quota
            &&& failure == UpstreamFailure::Unauthorized <==> !unready && !quota && credentials
            &&& failure == UpstreamFailure::Other <==> !unready && !quota && !credentials
                && !passing
        }),
        failure_of(status, lowered(body)) == failure_of(status, body),
{
    assert(lowered(lowered(body)) =~= lowered(body));
}

// ---- Creating a sandbox ----

/// A sandbox that was created is used, at whatever attempt, and its session with it.
pub proof fn lemma_created_is_used(attempt: usize, session: String)
    ensures
        create_step(attempt, CreateReply::Created { session }) == (CreateStep::Use { session }),
{
}

/// Silence and nonsense are not asked about again, at whatever attempt.
pub proof fn lemma_no_answer_ends_it(attempt: usize)
    ensures
        create_step(attempt, CreateReply::TimedOut) == (CreateStep::GiveUp {
            error: SandboxError::TimedOut,
        }),
        create_step(attempt, CreateReply::Unreachable) == (CreateStep::GiveUp {
            error: SandboxError::Unreachable,
        }),
        create_step(attempt, CreateReply::Unreadable) == (CreateStep::GiveUp {
            error: SandboxError::Failed,
        }),
{
}

/// A refusal that may pass is asked about again twice, after 600 and after 1200 milliseconds,
/// and then the service counts as busy. The waits grow, and the attempts are counted.
pub proof fn lemma_waits_grow(attempt: usize, status: u16, body: String)
    requires
        failure_of(status, body@) == UpstreamFailure::Transient,
    ensures
        ({
            let step = create_step(attempt, CreateReply::Refused { status, body });
            &&& attempt == 0 ==> step == (CreateStep::Retry { after_millis: 600, attempt: 1 })
            &&& attempt == 1 ==> step == (CreateStep::Retry { after_millis: 1200, attempt: 2 })
            &&& attempt >= 2 ==> step == (CreateStep::GiveUp { error: SandboxError::Busy })
        }),
{
}

/// `reply` is a refusal that may pass.
pub open spec fn passing(reply: CreateReply) -> bool {
    reply matches CreateReply::Refused { status, body } && failure_of(status, body@)
        == UpstreamFailure::Transient
}

/// Refusals that may pass lead on to the next answer, as long as attempts are left.
pub proof fn lemma_passing_refusals_are_passed_over(
    attempt: usize,
    replies: Seq<CreateReply>,
    n: nat,
)
    requires
        n < replies.len(),
        attempt + n <= 2,
        forall|i: int| 0 <= i < n ==> passing(#[trigger] replies[i]),
    ensures
        create_outcome(attempt, replies) == create_outcome(
            (attempt + n) as usize,
            replies.skip(n as int),
        ),
    decreases n,
{
    if n == 0 {
        assert(replies.skip(0) =~= replies);
    } else {
        let rest = replies.drop_first();
        assert(passing(replies[0]));
        assert forall|i: int| 0 <= i < n - 1 implies passing(#[trigger] rest[i]) by {
            assert(rest[i] == replies[i + 1]);
        }
        lemma_passing_refusals_are_passed_over((attempt + 1) as usize, rest, (n - 1) as nat);
        assert(rest.skip(n - 1) =~= replies.skip(n as int));
    }
}

/// However often the service refuses first, as long as the refusals may pass and attempts are
/// left, creating ends with the session of the first sandbox that is created.
pub proof fn lemma_first_sandbox_is_used(replies: Seq<CreateReply>, n: nat, session: String)
    requires
        n < replies.len(),
        n <= 2,
        forall|i: int| 0 <= i < n ==> passing(#[trigger] replies[i]),
        replies[n as int] == (CreateReply::Created { session }),
    ensures
        create_outcome(0, replies) == Some(CreateStep::Use { session }),
{
    lemma_passing_refusals_are_passed_over(0, replies, n);
    assert(replies.skip(n as int)[0] == replies[n as int]);
}

/// A third refusal that may pass means that the service is busy, and any other refusal is what
/// creating comes to at once.
pub proof fn lemma_last_refusal_decides(
    replies: Seq<CreateReply>,
    n: nat,
    status: u16,
    body: String,
)
    requires
        n < replies.len(),
        n <= 2,
        forall|i: int| 0 <= i < n ==> passing(#[trigger] replies[i]),
        replies[n as int] == (CreateReply::Refused { status, body }),
        n == 2 || failure_of(status, body@) != UpstreamFailure::Transient,
    ensures
        create_outcome(0, replies) == Some(
            CreateStep::GiveUp {
                error: match failure_of(status, body@) {
                    UpstreamFailure::Transient => SandboxError::Busy,
                    UpstreamFailure::QuotaExhausted => SandboxError::Quota,
                    UpstreamFailure::Unauthorized => SandboxError::NoCredentials,
                    UpstreamFailure::Other => SandboxError::Failed,
                },
            },
        ),
{
    lemma_passing_refusals_are_passed_over(0, replies, n);
    assert(replies.skip(n as int)[0] == replies[n as int]);
}

// ---- Running the script ----

/// A finished command is passed on as it is, and anything else is an error of its own kind.
pub proof fn lemma_script_answers(result: CommandResult, status: u16, body: String)
    ensures
        exec_result(ExecReply::Completed { result }) == Ok::<CommandResult, SandboxError>(result),
        exec_result(ExecReply::TimedOut) == Err::<CommandResult, SandboxError>(
            SandboxError::TimedOut,
        ),
        exec_result(ExecReply::Unreachable) == Err::<CommandResult, SandboxError>(
            SandboxError::Unreachable,
        ),
        exec_result(ExecReply::Unreadable) == Err::<CommandResult, SandboxError>(
            SandboxError::Failed,
        ),
        exec_result(ExecReply::Refused { status, body }) == Err::<CommandResult, SandboxError>(
            match failure_of(status, body@) {
                UpstreamFailure::Transient => SandboxError::Busy,
                UpstreamFailure::QuotaExhausted => SandboxError::Quota,
                UpstreamFailure::Unauthorized => SandboxError::NoCredentials,
                UpstreamFailure::Other => SandboxError::Failed,
            },
        ),
{
}

/// A finished report is answered with a response, however the command itself ended: what the
/// program printed is in it, and it is successful exactly where the program exited with zero.
pub proof fn lemma_finished_report_is_answered(
    language: Language,
    nonce: Seq<char>,
    junk: Seq<char>,
    cout: Seq<char>,
    cerr: Seq<char>,
    pout: Seq<char>,
    perr: Seq<char>,
    code: Option<i32>,
    result: CommandResult,
    answer: Result<ExecuteResponse, SandboxError>,
)
    requires
        !nonce.contains('\n'),
        quiet(nonce, cout),
        quiet(nonce, cerr),
        quiet(nonce, pout),
        quiet(nonce, perr),
        result.stdout@ == junk + framed_report(nonce, cout, cerr, pout, perr, exit_text(code)),
        concludes(language, nonce, result, answer),
    ensures
        answer is Ok,
        answer->Ok_0.stdout@ == pout,
        answer->Ok_0.success <==> code == Some(0i32),
        exists|out: RunnerOutput| #[trigger]
            responds(language, out, answer->Ok_0) && out.compile_stdout@ == cout
                && out.compile_stderr@ == cerr && out.program_stdout@ == pout
                && out.program_stderr@ == perr && out.exit_code == code && out.compile_failed_stage
                == (code is None),
{
    let raw = result.stdout@;
    if answer is Ok {
        let out = choose|out: RunnerOutput| #[trigger]
            reported(nonce, raw, out) && responds(language, out, answer->Ok_0);
        lemma_report_is_read_back(nonce, junk, cout, cerr, pout, perr, code, out);
    } else {
        let out = arbitrary::<RunnerOutput>();
        lemma_report_is_read_back(nonce, junk, cout, cerr, pout, perr, code, out);
    }
}

/// A report that lacks a section is never answered with a response: the command was killed,
/// unless it exited with zero.
pub proof fn lemma_unfinished_report_is_an_error(
    language: Language,
    nonce: Seq<char>,
    name: Seq<char>,
    result: CommandResult,
    answer: Result<ExecuteResponse, SandboxError>,
)
    requires
        required_name(name),
        forall|i: int|
            0 <= i < pieces(result.stdout@).len() ==> #[trigger] pieces(result.stdout@)[i] != nonce
                + ":"@ + name && pieces(result.stdout@)[i] != nonce + ":"@ + name + "\n"@,
        concludes(language, nonce, result, answer),
    ensures
        answer == Err::<ExecuteResponse, SandboxError>(
            if result.exit_code == Some(0i32) {
                SandboxError::Unparseable
            } else {
                SandboxError::TimedOut
            },
        ),
{
    if answer is Ok {
        let out = choose|out: RunnerOutput| #[trigger]
            reported(nonce, result.stdout@, out) && responds(language, out, answer->Ok_0);
        lemma_every_section_is_needed(nonce, result.stdout@, name, out);
    }
}

// ---- Random text ----

/// Where bytes were drawn, the text is theirs: the time plays no part, and other bytes give
/// another text. Where none were drawn, the buffer plays no part, and another time gives another
/// text.
pub proof fn lemma_random_text(a: Seq<u8>, b: Seq<u8>, now: u128, then: u128)
    ensures
        random_text(true, a, now) == random_text(true, a, then),
        random_text(true, a, now).len() == 2 * a.len(),
        random_text(true, a, now) == random_text(true, b, now) ==> a == b,
        random_text(false, a, now) == random_text(false, b, now),
        random_text(false, a, now) == random_text(false, a, then) ==> now == then,
{
    reveal_with_fuel(numbers_of_width, 33);
    if hex_padded(now as nat, 32) == hex_padded(then as nat, 32) {
        lemma_hex_padded_differs(now as nat, then as nat, 32);
    }
    lemma_hex(a);
    if hex(a) == hex(b) {
        lemma_hex_differs(a, b);
    }
}

} // verus!
