//! Verifying problems in a local container: what is run, and with which arguments.
//!
//! A whole batch takes one container. Planning is apart from running, so that this can be
//! stated.

use vstd::prelude::*;
use vstd::string::*;

use crate::language::Language;
use crate::runner::{compile_block, run_plan, run_text, RunPlan, ENVIRONMENT, LOCAL_IMAGE};
use crate::text::{decimal, texts, to_decimal};

verus! {

/// A problem is run twice: its answer must pass, its starting point must not.
#[derive(Clone, Copy, Debug, PartialEq, Eq, Structural)]
pub enum CaseKind {
    Answer,
    Starter,
}

impl CaseKind {
    pub open spec fn suffix_text(self) -> Seq<char> {
        match self {
            CaseKind::Answer => "answer"@,
            CaseKind::Starter => "starter"@,
        }
    }

    pub fn suffix(self) -> (s: &'static str)
        ensures
            s@ == self.suffix_text(),
    {
        match self {
            CaseKind::Answer => "answer",
            CaseKind::Starter => "starter",
        }
    }
}

/// One run: the answer or the starting point of a problem.
#[derive(Clone, Debug)]
pub struct RunCase {
    pub problem_id: String,
    pub kind: CaseKind,
    /// The submission: the code with the tests behind it.
    pub code: String,
}

impl RunCase {
    pub open spec fn dir_text(self) -> Seq<char> {
        self.problem_id@ + "-"@ + self.kind.suffix_text()
    }

    /// The directory that the case is run in, below the working directory.
    pub fn dir_name(&self) -> (s: String)
        ensures
            s@ == self.dir_text(),
    {
        self.problem_id.clone().concat("-").concat(self.kind.suffix())
    }
}

/// What one container is to do.
#[derive(Clone, Debug, PartialEq, Eq)]
pub struct DockerRun {
    pub image: String,
    /// The working directory on the host, which the container sees as `/w`.
    pub workdir: String,
    /// The shell script that the container runs.
    pub script: String,
    pub network_disabled: bool,
    /// How long the container may take, in seconds. A safeguard: every case has its own limit.
    pub overall_timeout_secs: u64,
}

/// How long one case may take, in seconds, as in production.
pub const CASE_TIMEOUT_SECS: u64 = crate::runner::CASE_TIMEOUT_SECS;

/// How long a container may take beside its cases, in seconds.
pub const OVERALL_TIMEOUT_BASE_SECS: u64 = 120;

/// Plans the containers for a batch, without running them: one for the whole batch, and none
/// for an empty one. Every language runs on the same image, without a network.
pub fn plan_batch(language: Language, cases: &[RunCase], workdir: &str) -> (plan: Vec<DockerRun>)
    requires
        OVERALL_TIMEOUT_BASE_SECS + CASE_TIMEOUT_SECS * cases@.len() <= u64::MAX,
    ensures
        plan@.len() == (if cases@.len() == 0 {
            0int
        } else {
            1
        }),
        cases@.len() > 0 ==> {
            &&& plan@[0].image@ == LOCAL_IMAGE@
            &&& plan@[0].workdir@ == workdir@
            &&& plan@[0].script@ == batch_script(language, cases@)
            &&& plan@[0].network_disabled
            &&& plan@[0].overall_timeout_secs == OVERALL_TIMEOUT_BASE_SECS + CASE_TIMEOUT_SECS
                * cases@.len()
        },
{
    if cases.len() == 0 {
        return Vec::new();
    }
    vec![
        DockerRun {
            image: LOCAL_IMAGE.to_string(),
            workdir: workdir.to_string(),
            script: container_script(language, cases),
            network_disabled: true,
            overall_timeout_secs: OVERALL_TIMEOUT_BASE_SECS + CASE_TIMEOUT_SECS * (cases.len()
                as u64),
        },
    ]
}

/// The commands that prepare, compile and run a case, one after the other.
pub open spec fn case_command(language: Language) -> Seq<char> {
    match compile_block(language) {
        Some(block) => block + " && "@ + run_text(language),
        None => run_text(language),
    }
}

/// The line of a batch script that runs one case in its directory. Both streams are kept apart
/// because a passing run must have its marker on standard output.
pub open spec fn case_line(language: Language, case: RunCase) -> Seq<char> {
    "cd /w/cases/"@ + case.dir_text() + " 2>/dev/null && { timeout "@ + decimal(
        CASE_TIMEOUT_SECS as nat,
    ) + " sh -c '"@ + case_command(language) + "' >_stdout 2>_stderr; echo $? >_exit; }\n"@
}

pub open spec fn case_lines(language: Language, cases: Seq<RunCase>) -> Seq<char>
    decreases cases.len(),
{
    if cases.len() == 0 {
        Seq::empty()
    } else {
        case_lines(language, cases.drop_last()) + case_line(language, cases.last())
    }
}

/// What a batch script begins with.
pub const SCRIPT_HEADER: &'static str = "#!/bin/sh\n# 自動生成 (verifier)\n";

/// The script that runs a batch.
pub open spec fn batch_script(language: Language, cases: Seq<RunCase>) -> Seq<char> {
    SCRIPT_HEADER@ + ENVIRONMENT@ + case_lines(language, cases) + "exit 0\n"@
}

/// The script that runs a batch in a container. Its commands are those of production
/// ([`run_plan`]): commands of its own could pass where production fails.
pub fn container_script(language: Language, cases: &[RunCase]) -> (s: String)
    ensures
        s@ == batch_script(language, cases@),
{
    let plan: RunPlan = run_plan(language);
    let run: String = plan.run.clone();
    let command: String = match plan.compile_command() {
        Some(block) => block.concat(" && ").concat(run.as_str()),
        None => run,
    };
    let mut s: String = SCRIPT_HEADER.to_string().concat(ENVIRONMENT);
    let ghost head = s@;
    let mut i: usize = 0;
    assert(s@ =~= head + case_lines(language, cases@.take(0)));
    while i < cases.len()
        invariant
            command@ == case_command(language),
            i <= cases@.len(),
            s@ == head + case_lines(language, cases@.take(i as int)),
        decreases cases@.len() - i,
    {
        let dir: String = cases[i].dir_name();
        let line: String = "cd /w/cases/".to_string().concat(dir.as_str()).concat(
            " 2>/dev/null && { timeout ",
        ).concat(to_decimal(CASE_TIMEOUT_SECS).as_str()).concat(" sh -c '").concat(
            command.as_str(),
        ).concat("' >_stdout 2>_stderr; echo $? >_exit; }\n");
        let ghost before = s@;
        s.append(line.as_str());
        assert(cases@.take(i + 1).drop_last() =~= cases@.take(i as int));
        assert(s@ =~= head + case_lines(language, cases@.take(i + 1)));
        i += 1;
    }
    assert(cases@.take(cases@.len() as int) =~= cases@);
    s.concat("exit 0\n")
}

// ---- Running ----

/// The arguments of `timeout` that run a planned container.
pub open spec fn argument_texts(run: DockerRun) -> Seq<Seq<char>> {
    seq![decimal(run.overall_timeout_secs as nat), "docker"@, "run"@, "--rm"@] + (
    if run.network_disabled {
        seq!["--network=none"@]
    } else {
        Seq::empty()
    }) + seq!["-v"@, run.workdir@ + ":/w"@, "-w"@, "/w"@, run.image@, "sh"@, "/w/run.sh"@]
}

/// The arguments of `timeout` that run a planned container.
pub fn docker_arguments(run: &DockerRun) -> (args: Vec<String>)
    ensures
        texts(args@) == argument_texts(*run),
{
    let mut args: Vec<String> = Vec::new();
    args.push(to_decimal(run.overall_timeout_secs));
    args.push("docker".to_string());
    args.push("run".to_string());
    args.push("--rm".to_string());
    if run.network_disabled {
        args.push("--network=none".to_string());
    }
    args.push("-v".to_string());
    args.push(run.workdir.clone().concat(":/w"));
    args.push("-w".to_string());
    args.push("/w".to_string());
    args.push(run.image.clone());
    args.push("sh".to_string());
    args.push("/w/run.sh".to_string());
    assert(texts(args@) =~= argument_texts(*run));
    args
}

/// What is said where Docker does not answer.
pub const NO_DOCKER: &'static str = "docker が使えません (デーモンが起動しているか確認してください)";

/// What is said where the image is missing.
pub open spec fn no_image_text() -> Seq<char> {
    "実行イメージ "@ + LOCAL_IMAGE@
        + " がありません。\n  bash scripts/build-runner-image.sh で作ってください (本番と同じ Dockerfile から作られます)"@
}

/// Whether verification can start, as far as Docker itself is concerned.
pub fn check_docker(answers: bool) -> (r: Result<(), String>)
    ensures
        match r {
            Ok(()) => answers,
            Err(message) => !answers && message@ == NO_DOCKER@,
        },
{
    if answers {
        Ok(())
    } else {
        Err(NO_DOCKER.to_string())
    }
}

/// Whether verification can start, as far as the image is concerned.
pub fn check_image(found: bool) -> (r: Result<(), String>)
    ensures
        match r {
            Ok(()) => found,
            Err(message) => !found && message@ == no_image_text(),
        },
{
    if found {
        Ok(())
    } else {
        Err(
            "実行イメージ ".to_string().concat(LOCAL_IMAGE).concat(
                " がありません。\n  bash scripts/build-runner-image.sh で作ってください (本番と同じ Dockerfile から作られます)",
            ),
        )
    }
}

} // verus!
