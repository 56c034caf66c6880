use knocks::contract::{
    classify, classify_line, harness_ran, has_compile_error, strip_csharp_build_noise, validate,
    ExecuteRequest, ExecuteResponse, LineKind, Outcome, MAX_CODE_BYTES,
};
use knocks::language::Language;

fn response(success: bool, stdout: &str, stderr: &str, compile_failed: bool) -> ExecuteResponse {
    ExecuteResponse { success, stdout: stdout.into(), stderr: stderr.into(), compile_failed }
}

#[test]
fn requests_are_checked_for_size_in_bytes() {
    let req = |code: &str| ExecuteRequest::judge(Language::Java, code);
    assert_eq!(validate(&req("")), Err("コードが空です".to_string()));
    assert_eq!(validate(&req("\u{3000}\n")), Err("コードが空です".to_string()));
    assert_eq!(validate(&req("x")), Ok(()));
    assert_eq!(validate(&req(&"a".repeat(MAX_CODE_BYTES))), Ok(()));
    let too_large = Err("コードが大きすぎます (上限 65536 bytes)".to_string());
    assert_eq!(validate(&req(&"a".repeat(MAX_CODE_BYTES + 1))), too_large);
    assert_eq!(validate(&req(&"é".repeat(MAX_CODE_BYTES / 2 + 1))), too_large);
    assert_eq!(validate(&req(&"é".repeat(MAX_CODE_BYTES / 2))), Ok(()));
}

#[test]
fn outcomes_are_tried_in_order() {
    let ok = "test result: ok";
    let failed = "test result: FAILED";
    assert_eq!(classify(&response(true, ok, "", true)), Outcome::Passed);
    assert_eq!(classify(&response(true, &format!("{failed}\n{ok}"), "", false)), Outcome::Passed);
    assert_eq!(classify(&response(false, ok, "", true)), Outcome::CompileError);
    assert_eq!(classify(&response(false, failed, "", true)), Outcome::CompileError);
    assert_eq!(classify(&response(false, failed, "", false)), Outcome::TestsFailed);
    assert_eq!(classify(&response(true, "", failed, false)), Outcome::TestsFailed);
    assert_eq!(classify(&response(false, ok, "", false)), Outcome::RuntimeError);
    assert_eq!(classify(&response(true, "", ok, false)), Outcome::NoTestsRun);
    assert_eq!(classify(&response(true, "", "", false)), Outcome::NoTestsRun);
}

#[test]
fn any_test_result_means_that_the_tests_ran() {
    assert!(harness_ran("a\ntest result: whatever"));
    assert!(!harness_ran("test result"));
}

#[test]
fn every_compiler_has_its_own_errors() {
    let found = |language, text: &str| has_compile_error(language, text);
    assert!(found(Language::Rust, "warning: x\n  error[E0308]: mismatched"));
    assert!(found(Language::Rust, "error: expected"));
    assert!(!found(Language::Rust, "an error: x\nerrors"));
    assert!(found(Language::Cpp, "prog.cc:1:2: error: x"));
    assert!(found(Language::Java, "  error: cannot find symbol"));
    assert!(!found(Language::Cpp, "prog.cc:1:2: warning: x"));
    assert!(found(Language::Csharp, "prog.cs(1,2): error CS0029: x"));
    assert!(found(Language::Csharp, " error MSB1009: x"));
    assert!(!found(Language::Csharp, "error: x"));
    assert!(found(Language::Typescript, "prog.ts(1,2): error TS2322: x"));
    assert!(!found(Language::Typescript, "error TS2322: x"));
    for name in ["SyntaxError", "IndentationError", "TabError"] {
        assert!(found(Language::Python, &format!("  File\n  {name}: x")));
    }
    assert!(!found(Language::Python, "NameError: x"));
    assert!(found(Language::Javascript, "\r\nSyntaxError: x"));
    assert!(!found(Language::Javascript, "TabError"));
    assert!(!found(Language::Javascript, ""));
}

#[test]
fn build_noise_goes_and_diagnostics_stay() {
    let noisy = [
        "MSBuild version 17.3.2 for .NET",
        "  Determining projects to restore...",
        "  Restored /tmp/x/knocks.csproj (in 100 ms).",
        "prog.cs(2,67): error CS0029: Cannot convert [/tmp/x/knocks.csproj]",
        "prog.cs(3,1): warning CS0168: x [a] [/tmp/x/knocks.csproj]  ",
        "  knocks -> /tmp/x/_out/knocks.dll",
        "",
        "Build succeeded.",
        "    0 Warning(s)",
        "    1 Error(s)",
        "Time Elapsed 00:00:01",
        "The template \"Console App\" was created",
        "MSBUILD : error MSB1009: no project",
        "  something else -> here",
        "[only.csproj]",
    ]
    .join("\r\n");
    assert_eq!(
        strip_csharp_build_noise(&noisy),
        [
            "prog.cs(2,67): error CS0029: Cannot convert",
            "prog.cs(3,1): warning CS0168: x [a]",
            "MSBUILD : error MSB1009: no project",
            "  something else -> here",
            "[only.csproj]",
        ]
        .join("\n")
    );
    assert_eq!(strip_csharp_build_noise(""), "");
    assert_eq!(strip_csharp_build_noise("Build succeeded with an error"), "Build succeeded with an error");
}

#[test]
fn a_diagnostic_stays_though_it_ends_in_a_count() {
    for line in [
        "Build stopped by error MSB1025: 1 Error(s)",
        "warning CS0168 and 0 Warning(s)",
        "Restored with an error",
        "error -> x.dll",
        "Unhandled Error in the task",
    ] {
        assert_eq!(strip_csharp_build_noise(line), line);
        assert_eq!(strip_csharp_build_noise(&format!("{line} [/tmp/x/knocks.csproj]")), line);
    }
    for line in ["0 Warning(s)", "    0 Error(s)", "Errors: 2 Error(s)"] {
        assert_eq!(strip_csharp_build_noise(line), "");
    }
}

#[test]
fn stripping_again_changes_nothing() {
    let s = "Build succeeded.\r\n  x \r\nprog.cs(1,1): error CS0029: y [/tmp/k.csproj]\n\n0 Error(s)\nz";
    let once = strip_csharp_build_noise(s);
    assert_eq!(once, "  x \nprog.cs(1,1): error CS0029: y\nz");
    assert_eq!(strip_csharp_build_noise(&once), once);

    // A second project file, and a second carriage return, go with the second pass.
    let once = strip_csharp_build_noise("a [x.csproj] [y.csproj]\nb\r\r\nc");
    assert_eq!(once, "a [x.csproj]\nb\r\nc");
    assert_eq!(strip_csharp_build_noise(&once), "a\nb\nc");
}

#[test]
fn lines_are_coloured_in_every_form() {
    for line in [
        "error[E0308]: mismatched",
        "prog.cc:1:33: error: invalid conversion",
        "prog.cs(2,67): error CS0029: x",
        "Exception in thread \"main\"",
        "NotImplementedError",
        "SyntaxError: expected ':'",
        "  Traceback (most recent call last):",
        "thread 't1' panicked at src/lib.rs:4:16:",
    ] {
        assert_eq!(classify_line(line), LineKind::Error, "{line}");
    }
    for line in ["warning: unused", "prog.cc:1:1: warning: x", "prog.cs(1,1): warning CS0168: x"] {
        assert_eq!(classify_line(line), LineKind::Warning, "{line}");
    }
    for line in ["note: x", "  help: x", "  --> src/lib.rs:1:1", "    at main (prog.js:1)"] {
        assert_eq!(classify_line(line), LineKind::Note, "{line}");
    }
    for line in [
        "",
        "ok",
        "  2 | error: quoted",
        "| error: quoted",
        " 12 34 | x: error: y",
        "thread 'x' is fine",
        "IndentationError: unexpected indent",
    ] {
        assert_eq!(classify_line(line), LineKind::Plain, "{line}");
    }
    assert_eq!(classify_line("error in a | b"), LineKind::Error);
    assert_eq!(classify_line("2x | y: error: z"), LineKind::Error);
}
