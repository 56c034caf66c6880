//! How a submission is run: the one definition that production and verification share.
//!
//! A run is one shell script. It prints what it has to report in sections, each behind a line
//! that names it, so that diagnostics and program output arrive apart.

use vstd::prelude::*;
use vstd::string::*;

use crate::contract::{
    compile_error_in, harness_ran, has_compile_error, shown_lines, strip_csharp_build_noise,
    ExecuteResponse, TEST_RESULT_PREFIX,
};
use crate::encoding::{base64, to_base64};
use crate::language::{tsc_flags_cli, tsc_flags_text, Language};
use crate::text::{
    ascii_alphanumeric, ascii_lower, blank, chars_of, decimal, i32_of, is_ascii_alphanumeric,
    is_ascii_lowercase, joined, lemma_trimmed_blank, occurs_in, parse_i32, pieces, same,
    split_inclusive, starts_with, string_of, texts, to_decimal, trim, trim_end, trimmed,
    trimmed_end, without_newline,
};

verus! {

/// How long one run may take, in seconds.
pub const CASE_TIMEOUT_SECS: u64 = 20;

/// The image that production runs.
pub const PRODUCTION_IMAGE: &'static str = "knocks-runtime:2026-09-11";

/// The image that verification runs, built from the same recipe as the production image.
pub const LOCAL_IMAGE: &'static str = "knocks-runtime:local";

/// What the place is called where submissions run.
pub const BACKEND_LABEL: &'static str = "Vercel Sandbox";

/// Where the image keeps its project templates. Rust and C# need a whole project, which every
/// run copies.
pub const TEMPLATE_ROOT: &'static str = "/opt/knocks";

/// The commands that run a submission.
#[derive(Clone, Debug, PartialEq, Eq)]
pub struct RunPlan {
    /// What must happen before anything is compiled, as shell text.
    pub prepare: Option<String>,
    /// The compiler, as shell text, where compiling is a stage of its own.
    pub compile: Option<String>,
    /// The program, as a plain command without anything that a shell would interpret.
    pub run: String,
}

/// Where a language's diagnostics are found.
#[derive(Clone, Copy, Debug, PartialEq, Eq, Structural)]
pub enum DiagnosticsChannel {
    /// In the output of the compile stage.
    CompileStage,
    /// In the standard error of the run.
    RunStderr,
}

/// Where the diagnostics of `language` are found.
pub open spec fn channel_of(language: Language) -> DiagnosticsChannel {
    match language {
        Language::Cpp | Language::Java | Language::Csharp | Language::Typescript => {
            DiagnosticsChannel::CompileStage
        },
        Language::Rust | Language::Python | Language::Javascript => DiagnosticsChannel::RunStderr,
    }
}

/// Where the diagnostics of `language` are found. `cargo test` compiles and runs in one stage,
/// and Python and JavaScript report syntax errors when they start to run.
pub fn diagnostics_channel(language: Language) -> (channel: DiagnosticsChannel)
    ensures
        channel == channel_of(language),
{
    match language {
        Language::Cpp | Language::Java | Language::Csharp | Language::Typescript => {
            DiagnosticsChannel::CompileStage
        },
        Language::Rust | Language::Python | Language::Javascript => DiagnosticsChannel::RunStderr,
    }
}

pub open spec fn opt_text(s: Option<String>) -> Option<Seq<char>> {
    match s {
        Some(s) => Some(s@),
        None => None,
    }
}

/// What must happen before a submission is compiled.
pub open spec fn prepare_text(language: Language) -> Option<Seq<char>> {
    match language {
        Language::Rust => Some(
            "cp -a "@ + TEMPLATE_ROOT@ + "/rust/. . && mkdir -p src && mv "@
                + language.source_file_text() + " src/lib.rs"@,
        ),
        Language::Csharp => Some(
            "cp -a "@ + TEMPLATE_ROOT@ + "/csharp/. . && rm -f Program.cs"@,
        ),
        _ => None,
    }
}

/// The compile stage.
pub open spec fn compile_text(language: Language) -> Option<Seq<char>> {
    let src = language.source_file_text();
    match language {
        Language::Cpp => Some("g++ -std=c++17 -w -o _prog "@ + src),
        Language::Java => Some("javac -nowarn "@ + src),
        Language::Csharp => Some(
            "dotnet build --no-restore -v q --nologo -p:GenerateFullPaths=false -o _out"@,
        ),
        Language::Typescript => Some("tsc "@ + tsc_flags_text() + " "@ + src),
        Language::Rust | Language::Python | Language::Javascript => None,
    }
}

/// The program.
pub open spec fn run_text(language: Language) -> Seq<char> {
    let src = language.source_file_text();
    match language {
        Language::Rust => "cargo test --offline"@,
        Language::Cpp => "./_prog"@,
        Language::Java => "java Main"@,
        Language::Csharp => "dotnet _out/knocks.dll"@,
        Language::Python => "python3 "@ + src,
        Language::Typescript => "node prog.js"@,
        Language::Javascript => "node "@ + src,
    }
}

/// The commands for `language`.
pub fn run_plan(language: Language) -> (plan: RunPlan)
    ensures
        opt_text(plan.prepare) == prepare_text(language),
        opt_text(plan.compile) == compile_text(language),
        plan.run@ == run_text(language),
{
    let src: &str = language.source_file_name();
    match language {
        // The submission replaces the library of the template, and its tests run with it.
        Language::Rust => RunPlan {
            prepare: Some(
                "cp -a ".to_string().concat(TEMPLATE_ROOT).concat(
                    "/rust/. . && mkdir -p src && mv ",
                ).concat(src).concat(" src/lib.rs"),
            ),
            compile: None,
            run: "cargo test --offline".to_string(),
        },
        Language::Cpp => RunPlan {
            prepare: None,
            compile: Some("g++ -std=c++17 -w -o _prog ".to_string().concat(src)),
            run: "./_prog".to_string(),
        },
        Language::Java => RunPlan {
            prepare: None,
            compile: Some("javac -nowarn ".to_string().concat(src)),
            run: "java Main".to_string(),
        },
        // Without its own entry point the template compiles the submission alone, so that
        // diagnostics name the submission's file. The sandbox has no network to restore from,
        // and full paths would name a temporary directory.
        Language::Csharp => RunPlan {
            prepare: Some(
                "cp -a ".to_string().concat(TEMPLATE_ROOT).concat(
                    "/csharp/. . && rm -f Program.cs",
                ),
            ),
            compile: Some(
                "dotnet build --no-restore -v q --nologo -p:GenerateFullPaths=false -o _out".to_string(),
            ),
            run: "dotnet _out/knocks.dll".to_string(),
        },
        Language::Python => RunPlan {
            prepare: None,
            compile: None,
            run: "python3 ".to_string().concat(src),
        },
        Language::Typescript => RunPlan {
            prepare: None,
            compile: Some(
                "tsc ".to_string().concat(tsc_flags_cli().as_str()).concat(" ").concat(src),
            ),
            run: "node prog.js".to_string(),
        },
        Language::Javascript => RunPlan {
            prepare: None,
            compile: None,
            run: "node ".to_string().concat(src),
        },
    }
}

// ---- The script ----

/// What the section names of a run stand behind. Every run has its own, so that a submission
/// cannot print a section of its own.
#[derive(Clone, Debug, PartialEq, Eq)]
pub struct Nonce(String);

impl View for Nonce {
    type V = Seq<char>;

    closed spec fn view(&self) -> Seq<char> {
        self.0@
    }
}

/// The first `n` elements of `s`, or all of them.
pub open spec fn at_most(s: Seq<char>, n: int) -> Seq<char> {
    if s.len() <= n {
        s
    } else {
        s.take(n)
    }
}

/// The nonce made from random text: its first ASCII letters and digits, behind a fixed word.
pub open spec fn nonce_text(raw: Seq<char>) -> Seq<char> {
    "KNOCKS"@ + at_most(raw.filter(|c: char| ascii_alphanumeric(c)), 32)
}

impl Nonce {
    /// Makes a nonce from random text that the caller provides.
    pub fn new(raw: &str) -> (nonce: Self)
        ensures
            nonce@ == nonce_text(raw@),
    {
        let chars: Vec<char> = chars_of(raw);
        let ghost wanted = |c: char| ascii_alphanumeric(c);
        let mut cleaned: Vec<char> = Vec::new();
        let mut i: usize = 0;
        assert(raw@.take(0) =~= Seq::empty());
        reveal(Seq::filter);
        while i < chars.len()
            invariant
                chars@ == raw@,
                wanted == (|c: char| ascii_alphanumeric(c)),
                i <= chars@.len(),
                cleaned@ == raw@.take(i as int).filter(wanted),
            decreases chars@.len() - i,
        {
            assert(raw@.take(i + 1).drop_last() =~= raw@.take(i as int));
            if is_ascii_alphanumeric(chars[i]) {
                cleaned.push(chars[i]);
            }
            reveal(Seq::filter);
            i += 1;
        }
        assert(raw@.take(raw@.len() as int) =~= raw@);
        let to: usize = if cleaned.len() <= 32 {
            cleaned.len()
        } else {
            32
        };
        assert(cleaned@.subrange(0, to as int) =~= at_most(cleaned@, 32));
        Nonce("KNOCKS".to_string().concat(string_of(&cleaned, 0, to).as_str()))
    }

    pub fn as_str(&self) -> (s: &str)
        ensures
            s@ == self@,
    {
        self.0.as_str()
    }
}

/// The environment that `cargo` and `dotnet` need where there is no home directory.
pub const ENVIRONMENT: &'static str =
    "export HOME=${HOME:-/tmp}\nexport DOTNET_CLI_TELEMETRY_OPTOUT=1\nexport DOTNET_NOLOGO=1\nexport DOTNET_CLI_HOME=/tmp\n";

/// The part of the script that comes before the submission.
pub open spec fn script_head() -> Seq<char> {
    "set -u\n"@ + ENVIRONMENT@ + "__d=$(mktemp -d) && cd \"$__d\" || exit 90\n"@ + "printf %s '"@
}

/// The preparation and the compile stage, as one shell command.
pub open spec fn compile_block(language: Language) -> Option<Seq<char>> {
    match (prepare_text(language), compile_text(language)) {
        (Some(p), Some(c)) => Some(p + " && "@ + c),
        (Some(p), None) => Some(p),
        (None, Some(c)) => Some(c),
        (None, None) => None,
    }
}

impl RunPlan {
    /// The preparation and the compile stage, as one shell command.
    pub fn compile_command(self) -> (block: Option<String>)
        ensures
            opt_text(block) == (match (opt_text(self.prepare), opt_text(self.compile)) {
                (Some(p), Some(c)) => Some(p + " && "@ + c),
                (Some(p), None) => Some(p),
                (None, c) => c,
            }),
    {
        match (self.prepare, self.compile) {
            (Some(p), Some(c)) => Some(p.concat(" && ").concat(c.as_str())),
            (Some(p), None) => Some(p),
            (None, c) => c,
        }
    }
}

/// The part of the script that compiles and leaves the compiler's exit code behind.
pub open spec fn compile_step(language: Language) -> Seq<char> {
    match compile_block(language) {
        Some(block) => "{ "@ + block + " ; } >_cout 2>_cerr\n__c=$?\n"@,
        None => ": >_cout\n: >_cerr\n__c=0\n"@,
    }
}

/// The part of the script that runs the program, unless compiling has failed.
pub open spec fn run_step(language: Language) -> Seq<char> {
    let limit = decimal(CASE_TIMEOUT_SECS as nat);
    "if [ \"$__c\" -eq 0 ]; then\n  timeout "@ + limit + " "@ + run_text(language)
        + " >_pout 2>_perr\n  echo $? >_exit\nelse\n  : >_pout\n  : >_perr\n  : >_exit\nfi\n"@
}

/// The part of the script that prints one section.
pub open spec fn section_step(nonce: Seq<char>, name: Seq<char>) -> Seq<char> {
    "printf '\\n"@ + nonce + ":"@ + name + "\\n'\ncat _"@ + name + " 2>/dev/null\n"@
}

/// The part of the script that comes behind the submission.
pub open spec fn script_tail(language: Language, nonce: Seq<char>) -> Seq<char> {
    "' | base64 -d > "@ + language.source_file_text() + "\n"@ + compile_step(language) + run_step(
        language,
    ) + section_step(nonce, "cout"@) + section_step(nonce, "cerr"@) + section_step(nonce, "pout"@)
        + section_step(nonce, "perr"@) + section_step(nonce, "exit"@) + "printf '\\n"@ + nonce
        + ":end\\n'\nexit 0\n"@
}

/// The script that runs a submission given in base64.
pub open spec fn script_text(language: Language, code_base64: Seq<char>, nonce: Seq<char>) -> Seq<
    char,
> {
    script_head() + code_base64 + script_tail(language, nonce)
}

fn section_step_text(nonce: &str, name: &str) -> (s: String)
    ensures
        s@ == section_step(nonce@, name@),
{
    "printf '\\n".to_string().concat(nonce).concat(":").concat(name).concat("\\n'\ncat _").concat(
        name,
    ).concat(" 2>/dev/null\n")
}

/// The script that runs a submission.
///
/// The submission comes in base64 because it may hold anything, and a shell would interpret
/// quotes and substitutions in it.
pub fn build_script(language: Language, code_base64: &str, nonce: &Nonce) -> (s: String)
    ensures
        s@ == script_text(language, code_base64@, nonce@),
{
    let plan: RunPlan = run_plan(language);
    let run: String = plan.run.clone();
    let src: &str = language.source_file_name();
    let n: &str = nonce.as_str();

    let mut tail: String = "' | base64 -d > ".to_string().concat(src).concat("\n");

    // Whatever the compile stage prints is kept in files, one for each stream.
    match plan.compile_command() {
        Some(block) => {
            let step: String = "{ ".to_string().concat(block.as_str()).concat(
                " ; } >_cout 2>_cerr\n__c=$?\n",
            );
            tail.append(step.as_str());
        },
        None => {
            tail.append(": >_cout\n: >_cerr\n__c=0\n");
        },
    }

    let step: String = "if [ \"$__c\" -eq 0 ]; then\n  timeout ".to_string().concat(
        to_decimal(CASE_TIMEOUT_SECS).as_str(),
    ).concat(" ").concat(run.as_str()).concat(
        " >_pout 2>_perr\n  echo $? >_exit\nelse\n  : >_pout\n  : >_perr\n  : >_exit\nfi\n",
    );
    tail.append(step.as_str());

    // A newline before each name puts it at the start of a line, whatever the file before it
    // ends with. Reading the sections takes that newline off again.
    tail.append(section_step_text(n, "cout").as_str());
    tail.append(section_step_text(n, "cerr").as_str());
    tail.append(section_step_text(n, "pout").as_str());
    tail.append(section_step_text(n, "perr").as_str());
    tail.append(section_step_text(n, "exit").as_str());
    let tail: String = tail.concat("printf '\\n").concat(n).concat(":end\\n'\nexit 0\n");
    assert(tail@ == script_tail(language, nonce@));

    "set -u\n".to_string().concat(ENVIRONMENT).concat(
        "__d=$(mktemp -d) && cd \"$__d\" || exit 90\n",
    ).concat("printf %s '").concat(code_base64).concat(tail.as_str())
}

/// `bytes` in base64, with padding (RFC 4648), as a script holds a submission.
pub fn base64_encode(bytes: &[u8]) -> (text: String)
    ensures
        text@ == base64(bytes@),
{
    to_base64(bytes)
}

// ---- Reading the sections ----

/// What a script has reported.
#[derive(Clone, Debug, PartialEq, Eq)]
pub struct RunnerOutput {
    /// Standard output of the compile stage. MSBuild puts its diagnostics there.
    pub compile_stdout: String,
    /// Standard error of the compile stage. gcc and javac put their diagnostics there.
    pub compile_stderr: String,
    pub program_stdout: String,
    pub program_stderr: String,
    /// The exit code of the program, if it ran.
    pub exit_code: Option<i32>,
    /// Whether the program did not run because compiling failed.
    pub compile_failed_stage: bool,
}

impl Default for RunnerOutput {
    fn default() -> (out: Self)
        ensures
            out.compile_stdout@.len() == 0,
            out.compile_stderr@.len() == 0,
            out.program_stdout@.len() == 0,
            out.program_stderr@.len() == 0,
            out.exit_code is None,
            !out.compile_failed_stage,
    {
        RunnerOutput {
            compile_stdout: String::new(),
            compile_stderr: String::new(),
            program_stdout: String::new(),
            program_stderr: String::new(),
            exit_code: None,
            compile_failed_stage: false,
        }
    }
}

/// The name that a line announces: behind the nonce and a colon, nothing but small letters.
pub open spec fn announced(nonce: Seq<char>, piece: Seq<char>) -> Option<Seq<char>> {
    let marker = nonce + ":"@;
    let line = without_newline(piece);
    let name = line.skip(marker.len() as int);
    if marker.is_prefix_of(line) && name.len() > 0 && (forall|i: int|
        0 <= i < name.len() ==> ascii_lower(#[trigger] name[i])) {
        Some(name)
    } else {
        None
    }
}

/// The sections that `lines` hold, as pairs of a name and a body. What comes before the first
/// name belongs to no section.
pub open spec fn sections(nonce: Seq<char>, lines: Seq<Seq<char>>) -> Seq<(Seq<char>, Seq<char>)>
    decreases lines.len(),
{
    if lines.len() == 0 {
        Seq::empty()
    } else {
        let before = sections(nonce, lines.drop_last());
        match announced(nonce, lines.last()) {
            Some(name) => before.push((name, Seq::empty())),
            None => if before.len() == 0 {
                before
            } else {
                before.drop_last().push((before.last().0, before.last().1 + lines.last()))
            },
        }
    }
}

/// The body of the last section called `name`.
pub open spec fn last_body(all: Seq<(Seq<char>, Seq<char>)>, name: Seq<char>) -> Option<Seq<char>>
    decreases all.len(),
{
    if all.len() == 0 {
        None
    } else if all.last().0 == name {
        Some(all.last().1)
    } else {
        last_body(all.drop_last(), name)
    }
}

/// What the last section called `name` holds, without the newline that was put behind it.
pub open spec fn section(nonce: Seq<char>, raw: Seq<char>, name: Seq<char>) -> Option<Seq<char>> {
    match last_body(sections(nonce, pieces(raw)), name) {
        Some(body) => Some(without_newline(body)),
        None => None,
    }
}

/// Every section is there that a run reports in.
pub open spec fn complete(nonce: Seq<char>, raw: Seq<char>) -> bool {
    &&& section(nonce, raw, "cout"@) is Some
    &&& section(nonce, raw, "cerr"@) is Some
    &&& section(nonce, raw, "pout"@) is Some
    &&& section(nonce, raw, "perr"@) is Some
    &&& section(nonce, raw, "exit"@) is Some
}

/// `out` is what the report `raw` says.
pub open spec fn reported(nonce: Seq<char>, raw: Seq<char>, out: RunnerOutput) -> bool {
    &&& section(nonce, raw, "end"@) is Some
    &&& section(nonce, raw, "cout"@) == Some(out.compile_stdout@)
    &&& section(nonce, raw, "cerr"@) == Some(out.compile_stderr@)
    &&& section(nonce, raw, "pout"@) == Some(out.program_stdout@)
    &&& section(nonce, raw, "perr"@) == Some(out.program_stderr@)
    &&& section(nonce, raw, "exit"@) is Some
    &&& out.exit_code == i32_of(trimmed(section(nonce, raw, "exit"@)->0))
    &&& out.compile_failed_stage == (out.exit_code is None)
}

/// What is said of a run whose report breaks off.
pub const TRUNCATED: &'static str = "実行結果が途中で途切れています";

/// What is said of a run whose report lacks a section.
pub const INCOMPLETE: &'static str = "実行結果のセクションが欠けています";

/// The name that a line announces, if it does.
fn announced_name(nonce: &str, piece: &str) -> (name: Option<String>)
    ensures
        opt_text(name) == announced(nonce@, piece@),
{
    let ghost marker = nonce@ + ":"@;
    let ghost line = without_newline(piece@);
    let marker_text: String = nonce.to_string().concat(":");
    let marker_chars: Vec<char> = chars_of(marker_text.as_str());
    let chars: Vec<char> = chars_of(piece);
    let to: usize = if chars.len() > 0 && chars[chars.len() - 1] == '\n' {
        chars.len() - 1
    } else {
        chars.len()
    };
    let line_text: String = string_of(&chars, 0, to);
    assert(line_text@ =~= line);
    if !starts_with(line_text.as_str(), marker_text.as_str()) {
        return None;
    }
    let from: usize = marker_chars.len();
    if from == to {
        return None;
    }
    let ghost name = line.skip(marker.len() as int);
    let mut i: usize = from;
    while i < to
        invariant
            from <= i <= to <= chars@.len(),
            marker == nonce@ + ":"@,
            line == without_newline(piece@),
            line == chars@.subrange(0, to as int),
            name == line.skip(marker.len() as int),
            from == marker.len(),
            forall|j: int| 0 <= j < i - from ==> ascii_lower(#[trigger] name[j]),
        decreases to - i,
    {
        assert(name[i - from] == chars@[i as int]);
        if !is_ascii_lowercase(chars[i]) {
            return None;
        }
        i += 1;
    }
    assert(chars@.subrange(from as int, to as int) =~= name);
    Some(string_of(&chars, from, to))
}

/// The sections of a report, as two lists of the same length.
struct SectionList {
    names: Vec<String>,
    bodies: Vec<String>,
}

impl SectionList {
    spec fn wf(self) -> bool {
        self.names@.len() == self.bodies@.len()
    }

    spec fn pairs(self) -> Seq<(Seq<char>, Seq<char>)> {
        Seq::new(self.names@.len(), |i: int| (self.names@[i]@, self.bodies@[i]@))
    }

    fn read(nonce: &str, raw: &str) -> (list: Self)
        ensures
            list.wf(),
            list.pairs() == sections(nonce@, pieces(raw@)),
    {
        let lines: Vec<String> = split_inclusive(raw);
        let ghost all = pieces(raw@);
        let mut list: SectionList = SectionList { names: Vec::new(), bodies: Vec::new() };
        let mut i: usize = 0;
        assert(list.pairs() =~= sections(nonce@, all.take(0)));
        while i < lines.len()
            invariant
                texts(lines@) == all,
                i <= lines@.len(),
                list.wf(),
                list.pairs() == sections(nonce@, all.take(i as int)),
            decreases lines@.len() - i,
        {
            let ghost before = list.pairs();
            assert(all.take(i + 1).drop_last() =~= all.take(i as int));
            assert(all.take(i + 1).last() == lines@[i as int]@);
            match announced_name(nonce, lines[i].as_str()) {
                Some(name) => {
                    list.names.push(name);
                    list.bodies.push(String::new());
                    assert(list.pairs() =~= before.push((name@, Seq::empty())));
                },
                None => {
                    match list.bodies.pop() {
                        Some(mut body) => {
                            body.append(lines[i].as_str());
                            list.bodies.push(body);
                            assert(list.pairs() =~= before.drop_last().push(
                                (before.last().0, before.last().1 + lines@[i as int]@),
                            ));
                        },
                        None => {
                            assert(list.pairs() =~= before);
                        },
                    }
                },
            }
            i += 1;
        }
        assert(all.take(all.len() as int) =~= all);
        list
    }

    /// What the last section called `name` holds.
    fn take(&self, name: &str) -> (body: Option<String>)
        requires
            self.wf(),
        ensures
            opt_text(body) == (match last_body(self.pairs(), name@) {
                Some(body) => Some(without_newline(body)),
                None => None,
            }),
    {
        let ghost all = self.pairs();
        let mut i: usize = self.names.len();
        assert(all.take(all.len() as int) =~= all);
        while i > 0
            invariant
                self.wf(),
                all == self.pairs(),
                i <= self.names@.len(),
                last_body(all, name@) == last_body(all.take(i as int), name@),
            decreases i,
        {
            assert(all.take(i as int).drop_last() =~= all.take(i - 1));
            assert(all.take(i as int).last() == all[i - 1]);
            i -= 1;
            if same(self.names[i].as_str(), name) {
                let chars: Vec<char> = chars_of(self.bodies[i].as_str());
                let to: usize = if chars.len() > 0 && chars[chars.len() - 1] == '\n' {
                    chars.len() - 1
                } else {
                    chars.len()
                };
                assert(chars@.subrange(0, to as int) =~= without_newline(chars@));
                return Some(string_of(&chars, 0, to));
            }
        }
        None
    }
}

/// Reads what a script has printed.
///
/// A report without its end, or without one of its sections, is an error: taken for an empty
/// result it could not be told from a run of no tests. Of sections with the same name the
/// last counts. The script prints its own sections behind everything that the submission
/// prints, so a forged section does not count even where the nonce was guessed.
pub fn parse_runner_output(nonce: &Nonce, raw: &str) -> (r: Result<RunnerOutput, String>)
    ensures
        match r {
            Ok(out) => reported(nonce@, raw@, out),
            Err(message) => if section(nonce@, raw@, "end"@) is None {
                message@ == TRUNCATED@
            } else {
                !complete(nonce@, raw@) && message@ == INCOMPLETE@
            },
        },
{
    let list: SectionList = SectionList::read(nonce.as_str(), raw);
    if list.take("end").is_none() {
        return Err(TRUNCATED.to_string());
    }
    match (
        list.take("cout"),
        list.take("cerr"),
        list.take("pout"),
        list.take("perr"),
        list.take("exit"),
    ) {
        (
            Some(compile_stdout),
            Some(compile_stderr),
            Some(program_stdout),
            Some(program_stderr),
            Some(exit_raw),
        ) => {
            let exit_code: Option<i32> = parse_i32(trim(exit_raw.as_str()));
            Ok(
                RunnerOutput {
                    compile_stdout,
                    compile_stderr,
                    program_stdout,
                    program_stderr,
                    compile_failed_stage: exit_code.is_none(),
                    exit_code,
                },
            )
        },
        _ => Err(INCOMPLETE.to_string()),
    }
}

// ---- From a report to a response ----

/// `text` with `part` on a new line behind it, without the white space at the end of `part`
/// and without `part` where it is blank.
pub open spec fn with_part(text: Seq<char>, part: Seq<char>) -> Seq<char> {
    if blank(part) {
        text
    } else if text.len() == 0 {
        trimmed_end(part)
    } else {
        text + "\n"@ + trimmed_end(part)
    }
}

/// What the compile stage has printed that is worth showing.
pub open spec fn diagnostics_of(language: Language, out: RunnerOutput) -> Seq<char> {
    let printed = with_part(with_part(Seq::empty(), out.compile_stderr@), out.compile_stdout@);
    if language == Language::Csharp {
        joined(shown_lines(printed), "\n"@)
    } else {
        printed
    }
}

/// The text in which a compile error is looked for.
pub open spec fn diagnostic_text(language: Language, out: RunnerOutput) -> Seq<char> {
    match channel_of(language) {
        DiagnosticsChannel::CompileStage => diagnostics_of(language, out),
        DiagnosticsChannel::RunStderr => out.program_stderr@,
    }
}

/// The submission did not compile. If its tests ran, it did.
pub open spec fn failed_to_compile(language: Language, out: RunnerOutput) -> bool {
    &&& !occurs_in(out.program_stdout@, TEST_RESULT_PREFIX@)
    &&& out.compile_failed_stage || compile_error_in(language, diagnostic_text(language, out))
}

/// `resp` is the response to what a script has reported.
pub open spec fn responds(language: Language, out: RunnerOutput, resp: ExecuteResponse) -> bool {
    &&& resp.success == (!out.compile_failed_stage && out.exit_code == Some(0i32))
    &&& resp.stdout@ == out.program_stdout@
    &&& resp.stderr@ == with_part(diagnostics_of(language, out), out.program_stderr@)
    &&& resp.compile_failed == failed_to_compile(language, out)
}

/// Puts `part` on a new line behind `text`.
fn push_part(text: &mut String, part: &str)
    ensures
        final(text)@ == with_part(old(text)@, part@),
{
    proof {
        lemma_trimmed_blank(part@);
    }
    if !trim(part).is_empty() {
        if !text.as_str().is_empty() {
            text.append("\n");
        }
        text.append(trim_end(part));
        assert(old(text)@.len() == 0 ==> text@ =~= trimmed_end(part@));
    }
}

/// Turns what a script has reported into a response.
pub fn normalize_runner(language: Language, out: &RunnerOutput) -> (resp: ExecuteResponse)
    ensures
        responds(language, *out, resp),
{
    let mut diagnostics: String = String::new();
    push_part(&mut diagnostics, out.compile_stderr.as_str());
    push_part(&mut diagnostics, out.compile_stdout.as_str());
    if language == Language::Csharp {
        diagnostics = strip_csharp_build_noise(diagnostics.as_str());
    }
    let diag_text: &str = match diagnostics_channel(language) {
        DiagnosticsChannel::CompileStage => diagnostics.as_str(),
        DiagnosticsChannel::RunStderr => out.program_stderr.as_str(),
    };
    let ran: bool = harness_ran(out.program_stdout.as_str());
    let compile_failed: bool = !ran && (out.compile_failed_stage || has_compile_error(
        language,
        diag_text,
    ));

    let mut stderr: String = diagnostics.clone();
    push_part(&mut stderr, out.program_stderr.as_str());
    let exited_with_zero: bool = match out.exit_code {
        Some(code) => code == 0,
        None => false,
    };
    ExecuteResponse {
        success: !out.compile_failed_stage && exited_with_zero,
        stdout: out.program_stdout.clone(),
        stderr,
        compile_failed,
    }
}

} // verus!
