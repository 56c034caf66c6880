use knocks::language::Language;
use knocks::contract::{classify, Outcome};
use knocks::runner::{
    base64_encode, build_script, diagnostics_channel, normalize_runner, parse_runner_output, run_plan,
    DiagnosticsChannel, Nonce, RunnerOutput, CASE_TIMEOUT_SECS,
};

fn nonce() -> Nonce {
    Nonce::new("0123456789abcdef")
}

fn raw(n: &Nonce, cout: &str, cerr: &str, pout: &str, perr: &str, exit: &str) -> String {
    let k = n.as_str();
    format!(
        "\n{k}:cout\n{cout}\n{k}:cerr\n{cerr}\n{k}:pout\n{pout}\n{k}:perr\n{perr}\n{k}:exit\n{exit}\n{k}:end\n"
    )
}

#[test]
fn every_language_has_a_run_command() {
    for lang in Language::ALL {
        let plan = run_plan(lang);
        assert!(!plan.run.trim().is_empty(), "{}: run が空", lang.slug());
    }
}

#[test]
fn run_command_is_plain_argv() {
    for lang in Language::ALL {
        let run = run_plan(lang).run;
        for bad in ["&&", "||", ";", ">", "<", "|", "$(", "`"] {
            assert!(!run.contains(bad), "{}: run に {bad} が入っている — {run}", lang.slug());
        }
    }
}

#[test]
fn rust_runs_cargo_test_on_a_lib_crate() {
    let plan = run_plan(Language::Rust);
    assert_eq!(plan.run, "cargo test --offline");
    let prepare = plan.prepare.expect("Rust はひな形プロジェクトの準備が要る");
    assert!(prepare.contains("src/lib.rs"), "lib.rs に置き換えていない — {prepare}");
}

#[test]
fn typescript_compile_carries_the_pinned_target() {
    let compile = run_plan(Language::Typescript).compile.expect("tsc の段階が要る");
    assert!(compile.contains("--target"), "target が固定されていない — {compile}");
    assert!(compile.contains("es2020"), "target が es2020 でない — {compile}");
}

#[test]
fn csharp_copies_a_restored_project_and_builds_offline() {
    let plan = run_plan(Language::Csharp);
    let prepare = plan.prepare.expect("C# はひな形プロジェクトの準備が要る");
    assert!(prepare.contains("/csharp/."), "ひな形をコピーしていない — {prepare}");
    let compile = plan.compile.expect("dotnet build の段階が要る");
    assert!(compile.contains("--no-restore"), "restore を走らせようとしている — {compile}");
}

#[test]
fn csharp_keeps_the_submission_file_name_in_diagnostics() {
    let plan = run_plan(Language::Csharp);
    let prepare = plan.prepare.expect("ひな形の準備が要る");
    assert!(prepare.contains("rm -f Program.cs"), "ひな形の Program.cs を消していない — {prepare}");
    let compile = plan.compile.expect("dotnet build の段階が要る");
    assert!(
        compile.contains("GenerateFullPaths=false"),
        "診断に絶対パスが混ざる — {compile}"
    );
}

#[test]
fn interpreted_languages_have_no_compile_stage() {
    for lang in [Language::Python, Language::Javascript] {
        assert!(run_plan(lang).compile.is_none(), "{}: コンパイル段階は無い", lang.slug());
    }
}

#[test]
fn diagnostics_channel_follows_the_toolchain() {
    assert_eq!(diagnostics_channel(Language::Rust), DiagnosticsChannel::RunStderr);
    assert_eq!(diagnostics_channel(Language::Python), DiagnosticsChannel::RunStderr);
    assert_eq!(diagnostics_channel(Language::Javascript), DiagnosticsChannel::RunStderr);
    for lang in [Language::Cpp, Language::Java, Language::Csharp, Language::Typescript] {
        assert_eq!(
            diagnostics_channel(lang),
            DiagnosticsChannel::CompileStage,
            "{}: 独立したコンパイル段階がある",
            lang.slug()
        );
    }
}

#[test]
fn script_embeds_code_as_base64_and_never_inline() {
    let code_b64 = "cHJpbnQoMSk=";
    let s = build_script(Language::Python, code_b64, &nonce());
    assert!(s.contains(code_b64), "base64 が埋まっていない");
    assert!(s.contains("base64 -d"), "デコードしていない");
    assert!(s.contains("prog.py"), "ソースファイル名が違う");
}

#[test]
fn script_caps_the_run_with_timeout() {
    let s = build_script(Language::Javascript, "x", &nonce());
    assert!(
        s.contains(&format!("timeout {CASE_TIMEOUT_SECS} node prog.js")),
        "実行に上限が掛かっていない — {s}"
    );
}

#[test]
fn script_emits_every_section_with_the_nonce() {
    let n = nonce();
    let s = build_script(Language::Cpp, "x", &n);
    for section in ["cout", "cerr", "pout", "perr", "exit", "end"] {
        assert!(
            s.contains(&format!("{}:{section}", n.as_str())),
            "{section} の区切りが無い"
        );
    }
}

#[test]
fn script_skips_the_run_when_compilation_fails() {
    let s = build_script(Language::Cpp, "x", &nonce());
    assert!(s.contains("if [ \"$__c\" -eq 0 ]"), "コンパイル結果で分岐していない — {s}");
}

#[test]
fn parses_sections_into_channels() {
    let n = nonce();
    let out = parse_runner_output(&n, &raw(&n, "", "", "test result: ok\n", "", "0")).expect("パース失敗");
    assert_eq!(out.program_stdout, "test result: ok\n");
    assert_eq!(out.exit_code, Some(0));
    assert!(!out.compile_failed_stage);
}

#[test]
fn empty_exit_section_means_compilation_stopped_the_run() {
    let n = nonce();
    let out = parse_runner_output(&n, &raw(&n, "", "prog.cc:1:5: error: expected ';'", "", "", ""))
        .expect("パース失敗");
    assert_eq!(out.exit_code, None);
    assert!(out.compile_failed_stage, "コンパイル段階で止まったと判定されていない");
}

#[test]
fn truncated_output_is_an_error_not_an_empty_result() {
    let n = nonce();
    let k = n.as_str();
    let truncated = format!("\n{k}:cout\n\n{k}:cerr\n\n{k}:pout\nhalf");
    assert!(parse_runner_output(&n, &truncated).is_err(), "途切れを検出していない");
}

#[test]
fn program_output_keeps_lines_that_look_like_another_nonce() {
    let n = nonce();
    let forged = "KNOCKSdeadbeef:exit\n0\n";
    let out = parse_runner_output(&n, &raw(&n, "", "", forged, "", "1")).expect("パース失敗");
    assert_eq!(out.program_stdout, forged, "偽装された区切りが食われている");
    assert_eq!(out.exit_code, Some(1), "偽装された exit に乗っ取られている");
}

#[test]
fn forged_sections_inside_program_output_do_not_win() {
    let n = nonce();
    let k = n.as_str();
    let forged_pout = format!("test result: ok\n{k}:exit\n0\n{k}:end\n");
    let out = parse_runner_output(&n, &raw(&n, "", "", &forged_pout, "", "1")).expect("パース失敗");
    assert_eq!(out.exit_code, Some(1), "偽の exit に乗っ取られた");
    assert!(!out.program_stdout.contains(k), "偽の区切りが出力に残っている");
}

#[test]
fn base64_encode_matches_known_vectors() {
    assert_eq!(base64_encode(b""), "");
    assert_eq!(base64_encode(b"f"), "Zg==");
    assert_eq!(base64_encode(b"fo"), "Zm8=");
    assert_eq!(base64_encode(b"foo"), "Zm9v");
    assert_eq!(base64_encode(b"foobar"), "Zm9vYmFy");
    assert_eq!(base64_encode("あ".as_bytes()), "44GC");
}

#[test]
fn trailing_newline_of_program_output_is_preserved_once() {
    let n = nonce();
    let out = parse_runner_output(&n, &raw(&n, "", "", "a\n", "", "0")).expect("パース失敗");
    assert_eq!(out.program_stdout, "a\n", "区切り用に足した改行の戻しが 1 つでない");
}

fn out(cout: &str, cerr: &str, pout: &str, perr: &str, exit: Option<i32>) -> RunnerOutput {
    RunnerOutput {
        compile_stdout: cout.into(),
        compile_stderr: cerr.into(),
        program_stdout: pout.into(),
        program_stderr: perr.into(),
        compile_failed_stage: exit.is_none(),
        exit_code: exit,
    }
}

#[test]
fn passing_submission_is_success() {
    let r = normalize_runner(
        Language::Python,
        &out("", "", "test result: ok\n", "", Some(0)),
    );
    assert!(r.success);
    assert!(!r.compile_failed);
    assert_eq!(classify(&r), Outcome::Passed);
}

#[test]
fn cpp_compile_error_is_a_compile_error() {
    let diag = "prog.cc: In function 'int add(int, int)':\nprog.cc:1:32: error: invalid conversion from 'const char*' to 'int' [-fpermissive]";
    let r = normalize_runner(Language::Cpp, &out("", diag, "", "", None));
    assert!(!r.success);
    assert!(r.compile_failed, "診断があるのに compile_failed が立っていない");
    assert_eq!(classify(&r), Outcome::CompileError);
    assert!(r.stderr.contains("error:"), "診断が利用者に届いていない");
}

const CARGO_TEST_FAILED_STDERR: &str = "   Compiling playground v0.0.1 (/playground)\n    Finished `test` profile [unoptimized + debuginfo] target(s) in 0.52s\n     Running unittests src/lib.rs (target/debug/deps/playground-1a2b3c4d)\nerror: test failed, to rerun pass `--lib`";

const CARGO_TEST_FAILED_STDOUT: &str = "\nrunning 2 tests\ntest t1 ... FAILED\ntest t2 ... ok\n\nfailures:\n\n---- t1 stdout ----\n\nthread \'t1\' panicked at src/lib.rs:4:16:\nassertion `left == right` failed\n  left: 6\n right: 4\n\n\nfailures:\n    t1\n\ntest result: FAILED. 1 passed; 1 failed; 0 ignored; 0 measured; 0 filtered out\n";

#[test]
fn measured_cargo_test_failure_is_classified_as_tests_failed() {
    let r = normalize_runner(
        Language::Rust,
        &out("", "", CARGO_TEST_FAILED_STDOUT, CARGO_TEST_FAILED_STDERR, Some(101)),
    );
    assert!(!r.compile_failed, "cargo の要約 `error: test failed` を診断と取り違えている");
    assert_eq!(classify(&r), Outcome::TestsFailed);
}

#[test]
fn a_run_killed_by_a_signal_is_not_successful() {
    let r = normalize_runner(Language::Cpp, &out("", "", "test result: ok\n", "", Some(137)));
    assert!(!r.success, "シグナルで殺された実行が成功扱い");
    assert_ne!(classify(&r), Outcome::Passed);
}

#[test]
fn rust_test_failure_is_not_a_compile_error() {
    let stdout = "\nrunning 2 tests\ntest pos ... FAILED\n\ntest result: FAILED. 1 passed; 1 failed\n";
    let stderr = "error: test failed, to rerun pass `--lib`";
    let r = normalize_runner(Language::Rust, &out("", "", stdout, stderr, Some(101)));
    assert!(!r.compile_failed, "テスト失敗がコンパイルエラーになっている");
    assert_eq!(classify(&r), Outcome::TestsFailed);
}

#[test]
fn rust_compile_error_comes_from_the_run_stderr() {
    let stderr = "error[E0308]: mismatched types\n --> src/lib.rs:1:40";
    let r = normalize_runner(Language::Rust, &out("", "", "", stderr, Some(101)));
    assert!(r.compile_failed);
    assert_eq!(classify(&r), Outcome::CompileError);
}

#[test]
fn python_syntax_error_is_a_compile_error() {
    let stderr = "  File \"prog.py\", line 1\n    def add(a, b)\n                 ^\nSyntaxError: expected ':'";
    let r = normalize_runner(Language::Python, &out("", "", "", stderr, Some(1)));
    assert!(r.compile_failed, "SyntaxError がコンパイルエラーになっていない");
    assert_eq!(classify(&r), Outcome::CompileError);
}

#[test]
fn program_printing_error_text_is_not_a_compile_error() {
    let r = normalize_runner(
        Language::Cpp,
        &out("", "", "test result: FAILED\n", "FAILED: pos (error: 3 != 4)", Some(1)),
    );
    assert!(!r.compile_failed, "プログラムの出力でコンパイルエラーになっている");
    assert_eq!(classify(&r), Outcome::TestsFailed);
}

#[test]
fn exit_zero_without_the_marker_is_not_passed() {
    let r = normalize_runner(Language::Python, &out("", "", "なにか\n", "", Some(0)));
    assert!(r.success);
    assert_eq!(classify(&r), Outcome::NoTestsRun);
}

#[test]
fn csharp_build_noise_is_stripped_from_diagnostics() {
    let noisy = "  Determining projects to restore...\n  knocks -> /tmp/x/_out/knocks.dll\nProgram.cs(3,17): error CS0029: 型 'string' を 'int' に変換できません";
    let r = normalize_runner(Language::Csharp, &out(noisy, "", "", "", None));
    assert!(r.compile_failed);
    assert!(r.stderr.contains("error CS0029"), "本物の診断が消えている — {}", r.stderr);
    assert!(!r.stderr.contains("Determining projects"), "定型ノイズが残っている — {}", r.stderr);
}

#[test]
fn runtime_error_keeps_the_program_stderr() {
    let perr = "Traceback (most recent call last):\n  File \"prog.py\", line 2\nNotImplementedError";
    let r = normalize_runner(Language::Python, &out("", "", "", perr, Some(1)));
    assert!(!r.success);
    assert!(!r.compile_failed);
    assert_eq!(classify(&r), Outcome::RuntimeError);
    assert!(r.stderr.contains("NotImplementedError"));
}

#[test]
fn a_script_is_what_it_is_down_to_the_letter() {
    let n = Nonce::new("a-b c");
    assert_eq!(n.as_str(), "KNOCKSabc");
    let head = "set -u\nexport HOME=${HOME:-/tmp}\nexport DOTNET_CLI_TELEMETRY_OPTOUT=1\nexport DOTNET_NOLOGO=1\nexport DOTNET_CLI_HOME=/tmp\n__d=$(mktemp -d) && cd \"$__d\" || exit 90\n";
    let tail = "printf '\\nKNOCKSabc:cout\\n'\ncat _cout 2>/dev/null\nprintf '\\nKNOCKSabc:cerr\\n'\ncat _cerr 2>/dev/null\nprintf '\\nKNOCKSabc:pout\\n'\ncat _pout 2>/dev/null\nprintf '\\nKNOCKSabc:perr\\n'\ncat _perr 2>/dev/null\nprintf '\\nKNOCKSabc:exit\\n'\ncat _exit 2>/dev/null\nprintf '\\nKNOCKSabc:end\\n'\nexit 0\n";
    let run = |run: &str| format!("if [ \"$__c\" -eq 0 ]; then\n  timeout 20 {run} >_pout 2>_perr\n  echo $? >_exit\nelse\n  : >_pout\n  : >_perr\n  : >_exit\nfi\n");
    assert_eq!(
        build_script(Language::Python, "eA==", &n),
        format!(
            "{head}printf %s 'eA==' | base64 -d > prog.py\n: >_cout\n: >_cerr\n__c=0\n{}{tail}",
            run("python3 prog.py")
        )
    );
    assert_eq!(
        build_script(Language::Csharp, "eA==", &n),
        format!(
            "{head}printf %s 'eA==' | base64 -d > prog.cs\n{{ cp -a /opt/knocks/csharp/. . && rm -f Program.cs && dotnet build --no-restore -v q --nologo -p:GenerateFullPaths=false -o _out ; }} >_cout 2>_cerr\n__c=$?\n{}{tail}",
            run("dotnet _out/knocks.dll")
        )
    );
    assert_eq!(
        build_script(Language::Rust, "eA==", &n),
        format!(
            "{head}printf %s 'eA==' | base64 -d > lib.rs\n{{ cp -a /opt/knocks/rust/. . && mkdir -p src && mv lib.rs src/lib.rs ; }} >_cout 2>_cerr\n__c=$?\n{}{tail}",
            run("cargo test --offline")
        )
    );
}

#[test]
fn plans_of_the_other_languages() {
    assert_eq!(run_plan(Language::Cpp).run, "./_prog");
    assert_eq!(run_plan(Language::Java).compile.as_deref(), Some("javac -nowarn prog.java"));
    assert_eq!(run_plan(Language::Java).run, "java Main");
    assert_eq!(
        run_plan(Language::Typescript).compile.as_deref(),
        Some("tsc --target es2020 prog.ts")
    );
    assert_eq!(run_plan(Language::Typescript).run, "node prog.js");
}

#[test]
fn a_nonce_keeps_letters_and_digits_of_its_source() {
    assert_eq!(Nonce::new("").as_str(), "KNOCKS");
    assert_eq!(Nonce::new("é:\nZ9").as_str(), "KNOCKSZ9");
    assert_eq!(Nonce::new(&"x".repeat(40)).as_str(), format!("KNOCKS{}", "x".repeat(32)));
}

#[test]
fn a_report_is_read_back_as_it_was_written() {
    let n = nonce();
    let out = parse_runner_output(&n, &raw(&n, "c\n\n", "d", "e\r\n", "\n", "-3\n")).unwrap();
    assert_eq!(out.compile_stdout, "c\n\n");
    assert_eq!(out.compile_stderr, "d");
    assert_eq!(out.program_stdout, "e\r\n");
    assert_eq!(out.program_stderr, "\n");
    assert_eq!(out.exit_code, Some(-3));
}

#[test]
fn every_exit_code_is_read_back() {
    let n = nonce();
    for code in [0, 1, 255, -1, i32::MAX, i32::MIN] {
        let out = parse_runner_output(&n, &raw(&n, "", "", "", "", &format!("{code}\n"))).unwrap();
        assert_eq!(out.exit_code, Some(code));
        assert!(!out.compile_failed_stage);
    }
    let out = parse_runner_output(&n, &raw(&n, "", "", "", "", "")).unwrap();
    assert_eq!(out.exit_code, None);
    assert!(out.compile_failed_stage);
}

#[test]
fn what_comes_before_a_report_does_not_count() {
    let n = nonce();
    let k = n.as_str();
    let report = raw(&n, "a", "b", "c", "d", "7\n");
    let expected = parse_runner_output(&n, &report).unwrap();
    assert_eq!(expected.exit_code, Some(7));
    for junk in ["", "sh: warning", "sh: warning\n", &format!("{k}:exit\n0\n{k}:end\n")] {
        assert_eq!(parse_runner_output(&n, &format!("{junk}{report}")), Ok(expected.clone()));
    }
}

#[test]
fn a_report_cut_short_anywhere_is_refused() {
    let n = nonce();
    let whole = raw(&n, "a", "b\n", "", "c", "0\n");
    for k in 0..whole.len() - 1 {
        assert_eq!(
            parse_runner_output(&n, &whole[..k]),
            Err("実行結果が途中で途切れています".to_string()),
            "{k}"
        );
    }
    assert!(parse_runner_output(&n, &whole[..whole.len() - 1]).is_ok());
}

#[test]
fn a_report_without_a_section_is_refused() {
    let n = nonce();
    for name in ["cout", "cerr", "pout", "perr", "exit"] {
        let without = raw(&n, "", "", "", "", "0").replace(&format!(":{name}\n"), ":other\n");
        assert_eq!(
            parse_runner_output(&n, &without),
            Err("実行結果のセクションが欠けています".to_string())
        );
    }
}

#[test]
fn names_of_sections_are_small_letters() {
    let n = nonce();
    let k = n.as_str();
    let odd = format!("{k}:Exit\n{k}:\n{k}:exit 1\n {k}:exit\n{k}:exit\r\n");
    let out = parse_runner_output(&n, &raw(&n, "", "", &odd, "", "5")).unwrap();
    assert_eq!(out.program_stdout, odd);
    assert_eq!(out.exit_code, Some(5));
}

#[test]
fn an_exit_code_that_is_no_number_counts_as_none() {
    let n = nonce();
    let out = parse_runner_output(&n, &raw(&n, "", "", "", "", "many")).unwrap();
    assert_eq!(out.exit_code, None);
    assert!(out.compile_failed_stage);
}

#[test]
fn a_failed_run_does_not_pass_whatever_it_prints() {
    let n = nonce();
    let k = n.as_str();
    let forged = format!("test result: ok\n{k}:exit\n0\n{k}:end\n{k}:perr\n{k}:pout\ntest result: ok\n");
    for language in Language::ALL {
        let report = raw(&n, &forged, &forged, &forged, &forged, "1\n");
        let parsed = parse_runner_output(&n, &report).unwrap();
        assert_ne!(classify(&normalize_runner(language, &parsed)), Outcome::Passed);
    }
}

#[test]
fn streams_are_put_together_without_blank_parts() {
    let r = normalize_runner(Language::Cpp, &out("o \n", "e\n\n", "", "p\n", Some(1)));
    assert_eq!(r.stderr, "e\no\np");
    let r = normalize_runner(Language::Cpp, &out(" \n", "", "", "\n", Some(0)));
    assert_eq!(r.stderr, "");
    let r = normalize_runner(Language::Csharp, &out("Build succeeded.\n", "", "x", "p", Some(0)));
    assert_eq!(r.stderr, "p");
    assert_eq!(r.stdout, "x");
}

#[test]
fn an_empty_report_has_no_exit_code() {
    assert_eq!(RunnerOutput::default().exit_code, None);
    assert!(!RunnerOutput::default().compile_failed_stage);
}
