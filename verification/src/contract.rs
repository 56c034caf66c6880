//! What a caller sends, what it gets back, and how a run is judged.

use vstd::prelude::*;
use vstd::string::*;
use vstd::utf8::encode_utf8;

use crate::language::Language;
use crate::text::{
    ascii_digit, blank, chars_of, contains, decimal, ends_with, is_ascii_digit, is_whitespace,
    join, joined, last_position, lemma_trimmed_blank, lines, lines_of, occurs_in, rfind,
    starts_with, texts, to_decimal, trim, trim_end, trim_start, trimmed, trimmed_end,
    trimmed_start, white_space,
};

verus! {

/// The largest submission that is passed on.
pub const MAX_CODE_BYTES: usize = 64 * 1024;

/// Printed on standard output when every test has passed.
pub const TEST_OK_MARKER: &'static str = "test result: ok";

/// Printed when a test has failed.
pub const TEST_FAILED_MARKER: &'static str = "test result: FAILED";

/// What both markers begin with: the tests ran to their end.
pub const TEST_RESULT_PREFIX: &'static str = "test result:";

/// Whether the tests ran, with whatever result.
///
/// If they ran, the submission compiled, whatever the diagnostics say: `cargo test` reports a
/// failed test as `error: test failed`, which is not a diagnostic of the compiler.
pub fn harness_ran(stdout: &str) -> (yes: bool)
    ensures
        yes == occurs_in(stdout@, TEST_RESULT_PREFIX@),
{
    contains(stdout, TEST_RESULT_PREFIX)
}

/// A submission: the learner's code with the tests behind it.
#[derive(Clone, Debug, PartialEq)]
pub struct ExecuteRequest {
    pub language: Language,
    pub code: String,
}

impl ExecuteRequest {
    /// The request to run and judge `code`.
    pub fn judge(language: Language, code: &str) -> (req: Self)
        ensures
            req.language == language,
            req.code@ == code@,
    {
        Self { language, code: code.to_string() }
    }
}

/// The result of a run, in a form that does not depend on the language.
#[derive(Clone, Debug, PartialEq)]
pub struct ExecuteResponse {
    /// Whether the process ended with exit code 0.
    pub success: bool,
    pub stdout: String,
    pub stderr: String,
    /// Whether the submission failed to compile, judged by the compiler's diagnostics alone.
    pub compile_failed: bool,
}

/// What is said of a submission without code.
pub const EMPTY_CODE: &'static str = "コードが空です";

/// What is said of a submission that is too large.
pub open spec fn oversized_message() -> Seq<char> {
    "コードが大きすぎます (上限 "@ + decimal(MAX_CODE_BYTES as nat) + " bytes)"@
}

/// Whether a request may be passed on. Code must hold more than white space and be at most
/// [`MAX_CODE_BYTES`] long in UTF-8.
pub fn validate(req: &ExecuteRequest) -> (r: Result<(), String>)
    ensures
        match r {
            Ok(()) => !blank(req.code@) && encode_utf8(req.code@).len() <= MAX_CODE_BYTES,
            Err(message) => if blank(req.code@) {
                message@ == EMPTY_CODE@
            } else {
                &&& encode_utf8(req.code@).len() > MAX_CODE_BYTES
                &&& message@ == oversized_message()
            },
        },
{
    proof {
        lemma_trimmed_blank(req.code@);
    }
    let code: &str = req.code.as_str();
    if trim(code).is_empty() {
        return Err(EMPTY_CODE.to_string());
    }
    if code.as_bytes().len() > MAX_CODE_BYTES {
        let mut message: String = "コードが大きすぎます (上限 ".to_string();
        message.append(to_decimal(MAX_CODE_BYTES as u64).as_str());
        message.append(" bytes)");
        return Err(message);
    }
    Ok(())
}

#[derive(Clone, Copy, Debug, PartialEq, Eq, Structural)]
pub enum Outcome {
    /// It compiled and every test passed.
    Passed,
    /// It compiled and a test failed.
    TestsFailed,
    /// It did not compile, type-check or parse.
    CompileError,
    /// It panicked or threw.
    RuntimeError,
    /// It exited with code 0 before the tests had run.
    NoTestsRun,
}

/// The outcome of a run, by the first of these that applies.
pub open spec fn outcome_of(resp: ExecuteResponse) -> Outcome {
    if resp.success && occurs_in(resp.stdout@, TEST_OK_MARKER@) {
        Outcome::Passed
    } else if resp.compile_failed {
        Outcome::CompileError
    } else if occurs_in(resp.stdout@, TEST_FAILED_MARKER@) || occurs_in(
        resp.stderr@,
        TEST_FAILED_MARKER@,
    ) {
        Outcome::TestsFailed
    } else if !resp.success {
        Outcome::RuntimeError
    } else {
        Outcome::NoTestsRun
    }
}

/// Classifies the result of a run.
///
/// An exit code of 0 is not enough to pass: the marker must have been printed too, or a
/// submission that exits before its tests would pass.
pub fn classify(resp: &ExecuteResponse) -> (outcome: Outcome)
    ensures
        outcome == outcome_of(*resp),
{
    let has_ok: bool = contains(resp.stdout.as_str(), TEST_OK_MARKER);
    let has_failed: bool = contains(resp.stdout.as_str(), TEST_FAILED_MARKER) || contains(
        resp.stderr.as_str(),
        TEST_FAILED_MARKER,
    );
    if resp.success && has_ok {
        return Outcome::Passed;
    }
    if resp.compile_failed {
        return Outcome::CompileError;
    }
    if has_failed {
        return Outcome::TestsFailed;
    }
    if !resp.success {
        return Outcome::RuntimeError;
    }
    Outcome::NoTestsRun
}

// ---- Diagnostics ----

/// `line` is an error among the diagnostics of the language's compiler.
pub open spec fn error_line(language: Language, line: Seq<char>) -> bool {
    let t = trimmed_start(line);
    match language {
        Language::Rust => "error["@.is_prefix_of(t) || "error:"@.is_prefix_of(t),
        Language::Cpp | Language::Java => "error:"@.is_prefix_of(t) || occurs_in(line, ": error:"@),
        Language::Csharp => occurs_in(line, "): error "@) || "error "@.is_prefix_of(t),
        Language::Typescript => occurs_in(line, "): error "@),
        Language::Python => {
            ||| "SyntaxError"@.is_prefix_of(t)
            ||| "IndentationError"@.is_prefix_of(t)
            ||| "TabError"@.is_prefix_of(t)
        },
        Language::Javascript => "SyntaxError"@.is_prefix_of(t),
    }
}

/// Some line of `diagnostics` is an error.
pub open spec fn compile_error_in(language: Language, diagnostics: Seq<char>) -> bool {
    exists|i: int|
        0 <= i < lines_of(diagnostics).len() && error_line(
            language,
            #[trigger] lines_of(diagnostics)[i],
        )
}

/// Whether a line of the diagnostics is an error. The argument must be the diagnostics alone,
/// without what the program printed.
pub fn has_compile_error(language: Language, diagnostics: &str) -> (yes: bool)
    ensures
        yes == compile_error_in(language, diagnostics@),
{
    let all: Vec<String> = lines(diagnostics);
    let mut i: usize = 0;
    while i < all.len()
        invariant
            texts(all@) == lines_of(diagnostics@),
            i <= all@.len(),
            forall|j: int|
                0 <= j < i ==> !error_line(language, #[trigger] lines_of(diagnostics@)[j]),
        decreases all@.len() - i,
    {
        assert(all@[i as int]@ == lines_of(diagnostics@)[i as int]);
        if is_error_line(language, all[i].as_str()) {
            return true;
        }
        i += 1;
    }
    assert(texts(all@).len() == all@.len());
    false
}

/// Whether a line is an error in the language's diagnostics.
///
/// rustc begins such a line with `error`, gcc and javac write `file:line:col: error:`, and
/// Roslyn and tsc write `file(line,col): error CSnnnn`. Python and JavaScript do not compile,
/// but report syntax errors before they run anything.
fn is_error_line(language: Language, line: &str) -> (yes: bool)
    ensures
        yes == error_line(language, line@),
{
    let t: &str = trim_start(line);
    match language {
        Language::Rust => starts_with(t, "error[") || starts_with(t, "error:"),
        Language::Cpp | Language::Java => starts_with(t, "error:") || contains(line, ": error:"),
        Language::Csharp => contains(line, "): error ") || starts_with(t, "error "),
        Language::Typescript => contains(line, "): error "),
        Language::Python => starts_with(t, "SyntaxError") || starts_with(t, "IndentationError")
            || starts_with(t, "TabError"),
        Language::Javascript => starts_with(t, "SyntaxError"),
    }
}

// ---- C# build output ----

/// What the lines begin with that a build prints in any case.
pub const NOISE_PREFIXES: [&'static str; 11] = [
    "The template ",
    "Processing post-creation actions",
    "Running 'dotnet restore'",
    "Determining projects to restore",
    "Restored ",
    "Restore succeeded",
    "MSBuild version",
    "All projects are up-to-date",
    "Build succeeded",
    "Time Elapsed",
    "You may only use the Microsoft .NET",
];

/// `t` holds the word `error` or `warning`, as every diagnostic does.
pub open spec fn has_diagnostic(t: Seq<char>) -> bool {
    occurs_in(t, "error"@) || occurs_in(t, "warning"@)
}

/// `t` holds the word `Error` or `Warning`.
pub open spec fn has_capital(t: Seq<char>) -> bool {
    occurs_in(t, "Error"@) || occurs_in(t, "Warning"@)
}

/// `t` ends as a count of errors or warnings does, as in `0 Warning(s)`.
pub open spec fn counts_problems(t: Seq<char>) -> bool {
    "Warning(s)"@.is_suffix_of(t) || "Error(s)"@.is_suffix_of(t)
}

pub open spec fn has_noise_prefix(t: Seq<char>) -> bool {
    exists|i: int| 0 <= i < 11 && (#[trigger] NOISE_PREFIXES[i])@.is_prefix_of(t)
}

/// `t` says where the build has put its output.
pub open spec fn names_artifact(t: Seq<char>) -> bool {
    occurs_in(t, " -> "@) && ".dll"@.is_suffix_of(t)
}

/// A line of a C# build that is worth showing.
pub open spec fn worth_showing(line: Seq<char>) -> bool {
    let t = trimmed(line);
    if t.len() == 0 {
        false
    } else if has_diagnostic(t) {
        true
    } else if has_capital(t) {
        !counts_problems(t)
    } else {
        !has_noise_prefix(t) && !names_artifact(t)
    }
}

/// `line` without the project file that MSBuild names in square brackets at its end.
pub open spec fn without_project(line: Seq<char>) -> Seq<char> {
    let t = trimmed_end(line);
    if ".csproj]"@.is_suffix_of(t) {
        match last_position(t, " ["@) {
            Some(at) => t.take(at),
            None => line,
        }
    } else {
        line
    }
}

/// The lines of a C# build that are worth showing.
pub open spec fn shown_lines(s: Seq<char>) -> Seq<Seq<char>> {
    lines_of(s).map_values(|line: Seq<char>| without_project(line)).filter(
        |line: Seq<char>| worth_showing(line),
    )
}

/// Takes the lines out of a C# build's output that say nothing about the submission.
///
/// A line with the word `error` or `warning` stays, whatever its form. A line that has only the
/// capitalised word stays too, unless it ends in a count such as `0 Warning(s)`.
pub fn strip_csharp_build_noise(s: &str) -> (shown: String)
    ensures
        shown@ == joined(shown_lines(s@), "\n"@),
{
    let all: Vec<String> = lines(s);
    let ghost stripped = lines_of(s@).map_values(|line: Seq<char>| without_project(line));
    let ghost keep = |line: Seq<char>| worth_showing(line);
    let mut kept: Vec<String> = Vec::new();
    let mut i: usize = 0;
    assert(stripped.take(0) =~= Seq::empty());
    reveal(Seq::filter);
    while i < all.len()
        invariant
            texts(all@) == lines_of(s@),
            stripped == lines_of(s@).map_values(|line: Seq<char>| without_project(line)),
            keep == (|line: Seq<char>| worth_showing(line)),
            i <= all@.len(),
            texts(kept@) == stripped.take(i as int).filter(keep),
        decreases all@.len() - i,
    {
        let line: String = strip_msbuild_project_suffix(all[i].as_str());
        assert(all@[i as int]@ == lines_of(s@)[i as int]);
        assert(line@ == stripped[i as int]);
        assert(stripped.take(i + 1).drop_last() =~= stripped.take(i as int));
        let ghost before = kept@;
        if is_worth_showing(line.as_str()) {
            kept.push(line);
            assert(texts(kept@) =~= texts(before).push(line@));
        }
        reveal(Seq::filter);
        i += 1;
    }
    assert(stripped.take(stripped.len() as int) =~= stripped);
    join(&kept, "\n")
}

/// Whether a line of a C# build is worth showing.
fn is_worth_showing(line: &str) -> (yes: bool)
    ensures
        yes == worth_showing(line@),
{
    let t: &str = trim(line);
    if t.is_empty() {
        return false;
    }
    if contains(t, "error") || contains(t, "warning") {
        return true;
    }
    if contains(t, "Error") || contains(t, "Warning") {
        return !(ends_with(t, "Warning(s)") || ends_with(t, "Error(s)"));
    }
    let mut i: usize = 0;
    while i < NOISE_PREFIXES.len()
        invariant
            t@ == trimmed(line@),
            t@.len() > 0,
            !has_diagnostic(t@),
            !has_capital(t@),
            i <= 11,
            forall|j: int| 0 <= j < i ==> !(#[trigger] NOISE_PREFIXES[j])@.is_prefix_of(t@),
        decreases 11 - i,
    {
        if starts_with(t, NOISE_PREFIXES[i]) {
            assert(has_noise_prefix(t@));
            return false;
        }
        i += 1;
    }
    !(contains(t, " -> ") && ends_with(t, ".dll"))
}

/// Takes the project file off the end of a diagnostic of MSBuild: it means nothing to the
/// learner, and its path gives away a temporary directory.
fn strip_msbuild_project_suffix(line: &str) -> (s: String)
    ensures
        s@ == without_project(line@),
{
    let t: &str = trim_end(line);
    if !ends_with(t, ".csproj]") {
        return line.to_string();
    }
    match rfind(t, " [") {
        Some(at) => {
            assert(t@.subrange(0, at as int) =~= t@.take(at as int));
            t.substring_char(0, at).to_string()
        },
        None => line.to_string(),
    }
}

// ---- Display ----

#[derive(Clone, Copy, Debug, PartialEq, Eq, Structural)]
pub enum LineKind {
    Error,
    Warning,
    Note,
    Plain,
}

/// `t` quotes a line of source, as in `2 | int main() {`: only digits and white space stand
/// before its first bar.
pub open spec fn quotes_source(t: Seq<char>) -> bool {
    exists|k: int|
        0 <= k < t.len() && #[trigger] t[k] == '|' && forall|j: int|
            0 <= j < k ==> ascii_digit(#[trigger] t[j]) || white_space(t[j])
}

/// How a line of output is coloured, by the first of these that applies.
pub open spec fn line_kind(line: Seq<char>) -> LineKind {
    let t = trimmed_start(line);
    if quotes_source(t) {
        LineKind::Plain
    } else if {
        ||| "error"@.is_prefix_of(t)
        ||| occurs_in(line, ": error:"@)
        ||| occurs_in(line, "): error "@)
        ||| "Exception in thread"@.is_prefix_of(t)
        ||| "Error"@.is_suffix_of(t)
        ||| "SyntaxError"@.is_prefix_of(t)
        ||| "Traceback (most recent call last)"@.is_prefix_of(t)
        ||| "thread '"@.is_prefix_of(t) && occurs_in(line, "panicked"@)
    } {
        LineKind::Error
    } else if {
        ||| "warning"@.is_prefix_of(t)
        ||| occurs_in(line, ": warning:"@)
        ||| occurs_in(line, "): warning "@)
    } {
        LineKind::Warning
    } else if {
        ||| "note:"@.is_prefix_of(t)
        ||| "help:"@.is_prefix_of(t)
        ||| "-->"@.is_prefix_of(t)
        ||| "at "@.is_prefix_of(t)
    } {
        LineKind::Note
    } else {
        LineKind::Plain
    }
}

/// Whether `t` quotes a line of source.
fn is_source_quote(t: &str) -> (yes: bool)
    ensures
        yes == quotes_source(t@),
{
    let chars: Vec<char> = chars_of(t);
    let mut k: usize = 0;
    while k < chars.len()
        invariant
            chars@ == t@,
            k <= chars@.len(),
            forall|j: int| 0 <= j < k ==> ascii_digit(#[trigger] t@[j]) || white_space(t@[j]),
        decreases chars@.len() - k,
    {
        let c: char = chars[k];
        if c == '|' {
            assert(t@[k as int] == '|');
            return true;
        }
        if !is_ascii_digit(c) && !is_whitespace(c) {
            assert(t@[k as int] == c);
            return false;
        }
        k += 1;
    }
    false
}

/// Chooses how a line of output is coloured. It serves every language, so it knows the forms
/// of rustc, of gcc and javac, and of Roslyn and tsc.
pub fn classify_line(line: &str) -> (kind: LineKind)
    ensures
        kind == line_kind(line@),
{
    let t: &str = trim_start(line);
    if is_source_quote(t) {
        return LineKind::Plain;
    }
    if starts_with(t, "error") || contains(line, ": error:") || contains(line, "): error ") {
        return LineKind::Error;
    }
    if starts_with(t, "Exception in thread") || ends_with(t, "Error") || starts_with(
        t,
        "SyntaxError",
    ) || starts_with(t, "Traceback (most recent call last)") || (starts_with(t, "thread '")
        && contains(line, "panicked")) {
        return LineKind::Error;
    }
    if starts_with(t, "warning") || contains(line, ": warning:") || contains(line, "): warning ") {
        return LineKind::Warning;
    }
    if starts_with(t, "note:") || starts_with(t, "help:") || starts_with(t, "-->") || starts_with(
        t,
        "at ",
    ) {
        return LineKind::Note;
    }
    LineKind::Plain
}

} // verus!
