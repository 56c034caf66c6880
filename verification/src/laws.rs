//! What holds of the library as a whole.

use vstd::prelude::*;

use crate::contract::{
    counts_problems, error_line, has_capital, has_diagnostic, line_kind, outcome_of,
    quotes_source, shown_lines, without_project, worth_showing, ExecuteResponse, LineKind, Outcome,
    TEST_FAILED_MARKER, TEST_OK_MARKER, TEST_RESULT_PREFIX,
};
use crate::docker::{batch_script, case_command, case_line, case_lines, RunCase, SCRIPT_HEADER};
use crate::encoding::{
    base64, base64_alphabet, base64_decoded, lemma_base64_alphabet, lemma_base64_round_trip,
};
use crate::execute::{
    create_step, CreateReply, CreateStep, SandboxError, CREATE_RETRIES, HTTP_TIMEOUT_SECS,
};
use crate::framing::{framed_report, lemma_exit_cannot_be_forged, quiet};
use crate::language::Language;
use crate::runner::{
    channel_of, compile_text, failed_to_compile, prepare_text, reported, responds, run_text,
    script_head, script_tail, script_text, DiagnosticsChannel, RunnerOutput, CASE_TIMEOUT_SECS,
    ENVIRONMENT,
};
use crate::sandbox::{
    chunk, chunks, failure_of, last_exit, token_of, StreamLine, UpstreamFailure,
    COMMAND_TIMEOUT_MS, SANDBOX_TIMEOUT_MS,
};
use crate::text::{
    blank, i32_of, joined, last_position, lemma_filter_keeps_all, lemma_last_position,
    lemma_line_has_no_newline, lemma_lines_of_joined, lemma_occurs_in_transitive,
    lemma_trimmed_blank, lemma_trimmed_end, lemma_trimmed_keeps_words, lemma_trimmed_start,
    lines_of, occurs_at, occurs_in, trimmed, trimmed_end, trimmed_start, white_space,
};
use crate::text_laws::lemma_occurs_between;

verus! {

// ---- Judging ----

/// A run whose exit code is not zero does not pass, whatever it printed.
pub proof fn lemma_nonzero_exit_never_passes(
    language: Language,
    out: RunnerOutput,
    resp: ExecuteResponse,
)
    requires
        responds(language, out, resp),
        out.exit_code != Some(0i32),
    ensures
        outcome_of(resp) != Outcome::Passed,
{
}

/// A run that exits with zero but has not printed that its tests passed does not pass.
pub proof fn lemma_exit_zero_is_not_enough(
    language: Language,
    out: RunnerOutput,
    resp: ExecuteResponse,
)
    requires
        responds(language, out, resp),
        !occurs_in(out.program_stdout@, TEST_OK_MARKER@),
    ensures
        outcome_of(resp) != Outcome::Passed,
{
}

/// In every language, a run that exits with zero and has printed that its tests passed passes.
pub proof fn lemma_passing_run_passes(
    language: Language,
    out: RunnerOutput,
    resp: ExecuteResponse,
)
    requires
        responds(language, out, resp),
        !out.compile_failed_stage,
        out.exit_code == Some(0i32),
        occurs_in(out.program_stdout@, TEST_OK_MARKER@),
    ensures
        outcome_of(resp) == Outcome::Passed,
{
}

/// A submission whose tests ran is not said to have failed to compile, whatever the
/// diagnostics look like.
pub proof fn lemma_tests_that_ran_compiled(
    language: Language,
    out: RunnerOutput,
    resp: ExecuteResponse,
)
    requires
        responds(language, out, resp),
        occurs_in(out.program_stdout@, TEST_RESULT_PREFIX@),
    ensures
        !resp.compile_failed,
        outcome_of(resp) != Outcome::CompileError,
{
}

/// In every language, a run that has printed that a test failed and does not exit with zero
/// counts as a failed test. What `cargo` adds about it on standard error changes nothing.
pub proof fn lemma_failed_tests_are_failed_tests(
    language: Language,
    out: RunnerOutput,
    resp: ExecuteResponse,
)
    requires
        responds(language, out, resp),
        out.exit_code != Some(0i32),
        occurs_in(out.program_stdout@, TEST_FAILED_MARKER@),
    ensures
        outcome_of(resp) == Outcome::TestsFailed,
{
    reveal_strlit("test result: FAILED");
    reveal_strlit("test result:");
    assert(TEST_FAILED_MARKER@.subrange(0, 12) =~= TEST_RESULT_PREFIX@);
    assert(occurs_at(TEST_FAILED_MARKER@, TEST_RESULT_PREFIX@, 0));
    lemma_occurs_in_transitive(out.program_stdout@, TEST_FAILED_MARKER@, TEST_RESULT_PREFIX@);
}

/// Where compiling is a stage of its own, what the program prints on standard error does not
/// decide whether the submission compiled.
pub proof fn lemma_program_output_is_no_diagnostic(
    language: Language,
    a: RunnerOutput,
    b: RunnerOutput,
)
    requires
        channel_of(language) == DiagnosticsChannel::CompileStage,
        a.compile_stdout@ == b.compile_stdout@,
        a.compile_stderr@ == b.compile_stderr@,
        a.compile_failed_stage == b.compile_failed_stage,
        a.program_stdout@ == b.program_stdout@,
    ensures
        failed_to_compile(language, a) == failed_to_compile(language, b),
{
}

/// A submission whose run did not exit with zero does not pass, whatever it, its compiler or
/// anything else printed into the report before the exit code.
pub proof fn lemma_failed_run_cannot_pass(
    language: Language,
    nonce: Seq<char>,
    junk: Seq<char>,
    cout: Seq<char>,
    cerr: Seq<char>,
    pout: Seq<char>,
    perr: Seq<char>,
    exit: Seq<char>,
    out: RunnerOutput,
    resp: ExecuteResponse,
)
    requires
        !nonce.contains('\n'),
        quiet(nonce, exit),
        i32_of(trimmed(exit)) != Some(0i32),
        reported(nonce, junk + framed_report(nonce, cout, cerr, pout, perr, exit), out),
        responds(language, out, resp),
    ensures
        outcome_of(resp) != Outcome::Passed,
{
    lemma_exit_cannot_be_forged(nonce, junk, cout, cerr, pout, perr, exit);
}

// ---- Commands ----

/// A character that a shell passes on as it is.
pub open spec fn plain(c: char) -> bool {
    c != '&' && c != '|' && c != ';' && c != '<' && c != '>' && c != '$' && c != '`' && c != '\''
        && c != '"' && c != '\\' && c != '(' && c != ')' && c != '*' && c != '#' && c != '\n'
}

/// The command that runs a program holds nothing that a shell would interpret.
pub proof fn lemma_run_command_is_plain(language: Language)
    ensures
        run_text(language).len() > 0,
        forall|i: int|
            0 <= i < run_text(language).len() ==> plain(#[trigger] run_text(language)[i]),
{
    reveal_strlit("cargo test --offline");
    reveal_strlit("./_prog");
    reveal_strlit("java Main");
    reveal_strlit("dotnet _out/knocks.dll");
    reveal_strlit("python3 ");
    reveal_strlit("node prog.js");
    reveal_strlit("node ");
    reveal_strlit("prog.py");
    reveal_strlit("prog.js");
}

/// A submission reaches the shell only between single quotes, in characters that cannot end
/// the quotation, and decoding those characters gives the submission back.
pub proof fn lemma_submission_is_only_data(language: Language, code: Seq<u8>, nonce: Seq<char>)
    ensures
        script_text(language, base64(code), nonce) == script_head() + base64(code) + script_tail(
            language,
            nonce,
        ),
        script_head().last() == '\'',
        script_tail(language, nonce)[0] == '\'',
        forall|i: int| 0 <= i < base64(code).len() ==> base64_alphabet(#[trigger] base64(code)[i]),
        !base64(code).contains('\''),
        base64_decoded(base64(code)) == code,
{
    reveal_strlit("printf %s '");
    reveal_strlit("' | base64 -d > ");
    assert forall|i: int| 0 <= i < base64(code).len() implies base64_alphabet(
        #[trigger] base64(code)[i],
    ) by {
        lemma_base64_alphabet(code, i);
    }
    lemma_base64_round_trip(code);
}

/// A batch script runs every case in its own directory.
pub proof fn lemma_batch_visits_every_case(language: Language, cases: Seq<RunCase>, i: int)
    requires
        0 <= i < cases.len(),
    ensures
        occurs_in(batch_script(language, cases), case_line(language, cases[i])),
        occurs_in(batch_script(language, cases), cases[i].dir_text()),
{
    let line = case_line(language, cases[i]);
    lemma_case_line_in_lines(language, cases, i);
    lemma_occurs_between(
        SCRIPT_HEADER@ + ENVIRONMENT@,
        case_lines(language, cases),
        "exit 0\n"@,
    );
    lemma_occurs_in_transitive(batch_script(language, cases), case_lines(language, cases), line);
    let head = "cd /w/cases/"@;
    let dir = cases[i].dir_text();
    let rest = line.skip((head + dir).len() as int);
    assert(line =~= head + dir + rest);
    lemma_occurs_between(head, dir, rest);
    lemma_occurs_in_transitive(batch_script(language, cases), line, dir);
}

proof fn lemma_case_line_in_lines(language: Language, cases: Seq<RunCase>, i: int)
    requires
        0 <= i < cases.len(),
    ensures
        occurs_in(case_lines(language, cases), case_line(language, cases[i])),
    decreases cases.len(),
{
    let line = case_line(language, cases[i]);
    let before = case_lines(language, cases.drop_last());
    let last = case_line(language, cases.last());
    let all = case_lines(language, cases);
    if i == cases.len() - 1 {
        lemma_occurs_between(before, line, Seq::empty());
        assert(before + line + Seq::<char>::empty() =~= all);
    } else {
        lemma_case_line_in_lines(language, cases.drop_last(), i);
        lemma_occurs_between(Seq::empty(), before, last);
        assert(Seq::<char>::empty() + before + last =~= all);
        lemma_occurs_in_transitive(all, before, line);
    }
}

/// Verification runs the commands of production: the line of every case holds the preparation,
/// the compile stage and the program of the plan that production's script is made of.
pub proof fn lemma_batch_runs_the_plan(language: Language, case: RunCase)
    ensures
        occurs_in(case_line(language, case), run_text(language)),
        compile_text(language) matches Some(compile) ==> occurs_in(
            case_line(language, case),
            compile,
        ),
        prepare_text(language) matches Some(prepare) ==> occurs_in(
            case_line(language, case),
            prepare,
        ),
{
    let line = case_line(language, case);
    let command = case_command(language);
    let tail = "' >_stdout 2>_stderr; echo $? >_exit; }\n"@;
    let head = line.take(line.len() - tail.len() - command.len());
    assert(line =~= head + command + tail);
    lemma_occurs_between(head, command, tail);
    let run = run_text(language);
    let before = command.take(command.len() - run.len());
    assert(command =~= before + run + Seq::<char>::empty());
    lemma_occurs_between(before, run, Seq::empty());
    lemma_occurs_in_transitive(line, command, run);
    if let Some(compile) = compile_text(language) {
        let after = " && "@ + run;
        let first = command.take(command.len() - after.len() - compile.len());
        assert(command =~= first + compile + after);
        lemma_occurs_between(first, compile, after);
        lemma_occurs_in_transitive(line, command, compile);
    }
    if let Some(prepare) = prepare_text(language) {
        let rest = command.skip(prepare.len() as int);
        assert(command =~= Seq::<char>::empty() + prepare + rest);
        lemma_occurs_between(Seq::empty(), prepare, rest);
        lemma_occurs_in_transitive(line, command, prepare);
    }
}

/// Every limit leaves room for the one inside it: the program's for the script's command, the
/// command's for the sandbox, and the command's for the request that waits for it.
pub proof fn lemma_limits_are_nested()
    ensures
        CASE_TIMEOUT_SECS * 1000 < COMMAND_TIMEOUT_MS < SANDBOX_TIMEOUT_MS,
        COMMAND_TIMEOUT_MS < HTTP_TIMEOUT_SECS * 1000,
{
}

// ---- The sandbox service ----

/// Chunks of output keep their order.
pub proof fn lemma_chunks_keep_their_order(
    a: Seq<Option<StreamLine>>,
    b: Seq<Option<StreamLine>>,
    name: Seq<char>,
)
    ensures
        chunks(a + b, name) == chunks(a, name) + chunks(b, name),
    decreases b.len(),
{
    if b.len() == 0 {
        assert(a + b =~= a);
        assert(chunks(a, name) + Seq::<char>::empty() =~= chunks(a, name));
    } else {
        lemma_chunks_keep_their_order(a, b.drop_last(), name);
        assert((a + b).drop_last() =~= a + b.drop_last());
        assert((chunks(a, name) + chunks(b.drop_last(), name)) + chunk(b.last(), name) =~= chunks(
            a,
            name,
        ) + (chunks(b.drop_last(), name) + chunk(b.last(), name)));
    }
}

/// A later exit code counts more than an earlier one.
pub proof fn lemma_later_exit_wins(a: Seq<Option<StreamLine>>, b: Seq<Option<StreamLine>>)
    ensures
        last_exit(a + b) == (if last_exit(b) is Some {
            last_exit(b)
        } else {
            last_exit(a)
        }),
    decreases b.len(),
{
    if b.len() == 0 {
        assert(a + b =~= a);
    } else {
        lemma_later_exit_wins(a, b.drop_last());
        assert((a + b).drop_last() =~= a + b.drop_last());
    }
}

/// A line that cannot be read changes nothing, wherever it stands.
pub proof fn lemma_unreadable_line_changes_nothing(
    a: Seq<Option<StreamLine>>,
    b: Seq<Option<StreamLine>>,
    name: Seq<char>,
)
    ensures
        chunks(a.push(None) + b, name) == chunks(a + b, name),
        last_exit(a.push(None) + b) == last_exit(a + b),
{
    assert(a.push(None).drop_last() =~= a);
    assert(chunks(a, name) + Seq::<char>::empty() =~= chunks(a, name));
    lemma_chunks_keep_their_order(a.push(None), b, name);
    lemma_chunks_keep_their_order(a, b, name);
    lemma_later_exit_wins(a.push(None), b);
    lemma_later_exit_wins(a, b);
}

/// A token is never blank.
pub proof fn lemma_token_is_never_blank(
    header: Option<&str>,
    env_oidc: Option<&str>,
    env_fallback: Option<&str>,
)
    ensures
        token_of(header, env_oidc, env_fallback) matches Some(token) ==> !blank(token),
{
    if let Some(v) = header {
        lemma_trimmed_is_not_blank(v@);
    }
    if let Some(v) = env_oidc {
        lemma_trimmed_is_not_blank(v@);
    }
    if let Some(v) = env_fallback {
        lemma_trimmed_is_not_blank(v@);
    }
}

proof fn lemma_trimmed_is_not_blank(s: Seq<char>)
    ensures
        !blank(s) ==> !blank(trimmed(s)),
{
    lemma_trimmed_start(s);
    let rest = trimmed_start(s);
    lemma_trimmed_end(rest);
    if !blank(s) {
        assert(trimmed(s)[trimmed(s).len() - 1] == trimmed(s).last());
        assert(!white_space(trimmed(s)[trimmed(s).len() - 1]));
    }
}

/// What creating a sandbox comes to when the service gives these answers, one to each attempt;
/// `None` if it takes more of them.
pub open spec fn create_outcome(attempt: usize, replies: Seq<CreateReply>) -> Option<CreateStep>
    decreases replies.len(),
{
    if replies.len() == 0 {
        None
    } else {
        match create_step(attempt, replies[0]) {
            CreateStep::Retry { attempt: next, .. } => create_outcome(next, replies.drop_first()),
            step => Some(step),
        }
    }
}

/// Creating a sandbox is tried a fixed number of times at most.
pub proof fn lemma_creating_ends(attempt: usize, replies: Seq<CreateReply>)
    requires
        attempt <= CREATE_RETRIES,
        replies.len() > CREATE_RETRIES - attempt,
    ensures
        create_outcome(attempt, replies) is Some,
    decreases replies.len(),
{
    if let CreateStep::Retry { attempt: next, .. } = create_step(attempt, replies[0]) {
        lemma_creating_ends(next, replies.drop_first());
    }
}

/// Only a refusal that may pass is tried again. A used-up quota and a token that is not
/// accepted are reported at once, each as what it is.
pub proof fn lemma_only_transient_refusals_are_retried(attempt: usize, status: u16, body: String)
    ensures
        ({
            let step = create_step(attempt, CreateReply::Refused { status, body });
            match failure_of(status, body@) {
                UpstreamFailure::Transient => {
                    &&& step is Retry <==> attempt < CREATE_RETRIES
                    &&& step is GiveUp ==> step->error == SandboxError::Busy
                },
                UpstreamFailure::QuotaExhausted => step == (CreateStep::GiveUp {
                    error: SandboxError::Quota,
                }),
                UpstreamFailure::Unauthorized => step == (CreateStep::GiveUp {
                    error: SandboxError::NoCredentials,
                }),
                UpstreamFailure::Other => step == (CreateStep::GiveUp {
                    error: SandboxError::Failed,
                }),
            }
        }),
{
}

// ---- Diagnostics ----

/// A line of a C# build that holds the word `error` or `warning`, apart from the project file
/// at its end, is shown, whatever else it holds.
pub proof fn lemma_diagnostics_are_shown(s: Seq<char>, i: int)
    requires
        0 <= i < lines_of(s).len(),
        has_diagnostic(without_project(lines_of(s)[i])),
    ensures
        shown_lines(s).contains(without_project(lines_of(s)[i])),
{
    reveal_strlit("error");
    reveal_strlit("warning");
    let line = without_project(lines_of(s)[i]);
    lemma_trimmed_keeps_words(line, "error"@);
    lemma_trimmed_keeps_words(line, "warning"@);
    lemma_worth_showing_is_shown(s, i);
}

/// A line of a C# build that holds the word `Error` or `Warning`, apart from the project file
/// at its end, is shown, unless it ends in a count.
pub proof fn lemma_problems_are_shown(s: Seq<char>, i: int)
    requires
        0 <= i < lines_of(s).len(),
        has_capital(without_project(lines_of(s)[i])),
        !counts_problems(trimmed(without_project(lines_of(s)[i]))),
    ensures
        shown_lines(s).contains(without_project(lines_of(s)[i])),
{
    reveal_strlit("Error");
    reveal_strlit("Warning");
    let line = without_project(lines_of(s)[i]);
    lemma_trimmed_keeps_words(line, "Error"@);
    lemma_trimmed_keeps_words(line, "Warning"@);
    lemma_worth_showing_is_shown(s, i);
}

proof fn lemma_worth_showing_is_shown(s: Seq<char>, i: int)
    requires
        0 <= i < lines_of(s).len(),
        worth_showing(without_project(lines_of(s)[i])),
    ensures
        shown_lines(s).contains(without_project(lines_of(s)[i])),
{
    let stripped = lines_of(s).map_values(|line: Seq<char>| without_project(line));
    let keep = |line: Seq<char>| worth_showing(line);
    assert(stripped[i] == without_project(lines_of(s)[i]));
    stripped.lemma_filter_contains(keep, i);
}

/// Nothing is shown of a C# build that it did not print, apart from the project file that is
/// taken off the end of a line.
pub proof fn lemma_shown_lines_were_printed(s: Seq<char>, line: Seq<char>)
    requires
        shown_lines(s).contains(line),
    ensures
        worth_showing(line),
        exists|i: int|
            0 <= i < lines_of(s).len() && line == without_project(#[trigger] lines_of(s)[i]),
{
    let stripped = lines_of(s).map_values(|line: Seq<char>| without_project(line));
    let keep = |line: Seq<char>| worth_showing(line);
    stripped.lemma_filter_contains_rev(keep, line);
    let k = choose|k: int| 0 <= k < shown_lines(s).len() && shown_lines(s)[k] == line;
    stripped.lemma_filter_pred(keep, k);
    let i = choose|i: int| 0 <= i < stripped.len() && stripped[i] == line;
    assert(line == without_project(lines_of(s)[i]));
}

/// Stripping a C# build's output twice is stripping it once, where no line is left with a
/// project file at its end or with a carriage return before its newline.
pub proof fn lemma_stripping_again_changes_nothing(s: Seq<char>)
    requires
        forall|i: int|
            0 <= i < shown_lines(s).len() ==> without_project(#[trigger] shown_lines(s)[i])
                == shown_lines(s)[i],
        forall|i: int|
            0 <= i < shown_lines(s).len() - 1 ==> (#[trigger] shown_lines(s)[i]).last() != '\r',
    ensures
        joined(shown_lines(joined(shown_lines(s), "\n"@)), "\n"@) == joined(shown_lines(s), "\n"@),
{
    let shown = shown_lines(s);
    assert forall|i: int| 0 <= i < shown.len() implies {
        &&& (#[trigger] shown[i]).len() > 0
        &&& !shown[i].contains('\n')
        &&& worth_showing(shown[i])
    } by {
        let line = shown[i];
        assert(shown.contains(line));
        lemma_shown_lines_were_printed(s, line);
        let k = choose|k: int|
            0 <= k < lines_of(s).len() && line == without_project(#[trigger] lines_of(s)[k]);
        lemma_line_has_no_newline(s, k);
        let whole = lines_of(s)[k];
        lemma_without_project_is_prefix(whole);
        assert forall|j: int| 0 <= j < line.len() implies line[j] != '\n' by {
            assert(line[j] == whole[j]);
            assert(whole.contains(whole[j]));
        }
        if line.len() == 0 {
            lemma_trimmed_blank(line);
        }
    }
    lemma_lines_of_joined(shown);
    let again = shown.map_values(|line: Seq<char>| without_project(line));
    assert(again =~= shown);
    lemma_filter_keeps_all(shown, |line: Seq<char>| worth_showing(line));
}

/// A line without its project file is the beginning of the line.
proof fn lemma_without_project_is_prefix(line: Seq<char>)
    ensures
        without_project(line).len() <= line.len(),
        without_project(line) == line.take(without_project(line).len() as int),
{
    lemma_trimmed_end(line);
    let t = trimmed_end(line);
    assert(line.take(line.len() as int) =~= line);
    if let Some(at) = last_position(t, " ["@) {
        lemma_last_position(t, " ["@);
        assert(t.take(at) =~= line.take(at));
    }
}

/// A line that counts as a compile error is coloured as an error, unless it quotes source.
/// Python's indentation errors are recognised but not coloured.
pub proof fn lemma_compile_errors_are_coloured(language: Language, line: Seq<char>)
    requires
        error_line(language, line),
        !quotes_source(trimmed_start(line)),
        language == Language::Python ==> "SyntaxError"@.is_prefix_of(trimmed_start(line)),
    ensures
        line_kind(line) == LineKind::Error,
{
    reveal_strlit("error");
    reveal_strlit("error[");
    reveal_strlit("error:");
    reveal_strlit("error ");
    let t = trimmed_start(line);
    if "error["@.is_prefix_of(t) || "error:"@.is_prefix_of(t) || "error "@.is_prefix_of(t) {
        assert(t.subrange(0, 6).subrange(0, 5) =~= t.subrange(0, 5));
        assert("error["@.subrange(0, 5) =~= "error"@);
        assert("error:"@.subrange(0, 5) =~= "error"@);
        assert("error "@.subrange(0, 5) =~= "error"@);
        assert("error"@.is_prefix_of(t));
    }
}

} // verus!
