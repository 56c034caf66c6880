use knocks::contract::{classify, validate, ExecuteRequest, Outcome, MAX_CODE_BYTES};
use knocks::execute::{
    accept, after_create, after_exec, command_url, conclude, create_url, finish, hex_of_random,
    image, random_hex, stop_url, submission_script, succeeded, token, CreateReply, CreateStep, ErrorReply, ExecReply,
    Incoming, SandboxError,
};
use knocks::language::Language;
use knocks::runner::{base64_encode, build_script, Nonce, PRODUCTION_IMAGE};
use knocks::sandbox::{CommandResult, CreateSandboxRequest, ExecCommandRequest};

fn read_request(body: &str) -> Option<ExecuteRequest> {
    let value: serde_json::Value = serde_json::from_str(body).ok()?;
    let language = Language::from_slug(value.get("language")?.as_str()?)?;
    Some(ExecuteRequest::judge(language, value.get("code")?.as_str()?))
}

#[test]
fn incoming_body_parses_as_execute_request() {
    let body = r#"{ "language": "rust", "code": "pub fn f() {}" }"#;
    let req = read_request(body).unwrap();
    assert_eq!(req.language, Language::Rust);
    assert!(validate(&req).is_ok());
}

#[test]
fn every_language_slug_is_accepted_by_the_wire_format() {
    for l in Language::ALL {
        let body = format!(r#"{{ "language": "{}", "code": "x" }}"#, l.slug());
        let req = read_request(&body).unwrap();
        assert_eq!(req.language, l);
    }
}

#[test]
fn unknown_language_is_rejected_at_parse_time() {
    let body = r#"{ "language": "brainfuck", "code": "x" }"#;
    assert!(read_request(body).is_none());
}

#[test]
fn empty_and_oversized_code_is_rejected_before_forwarding() {
    let empty = read_request(r#"{"language":"cpp","code":"  "}"#).unwrap();
    assert!(validate(&empty).is_err());

    let big = ExecuteRequest::judge(Language::Cpp, &"a".repeat(MAX_CODE_BYTES + 1));
    assert!(validate(&big).is_err());
}

#[test]
fn every_language_goes_to_the_same_sandbox_image() {
    let body = CreateSandboxRequest::for_submission(PRODUCTION_IMAGE).image;
    assert!(body.contains(PRODUCTION_IMAGE), "{body}");
    assert!(PRODUCTION_IMAGE.contains(':'), "イメージはタグ付きで固定する — {PRODUCTION_IMAGE}");
}

#[test]
fn submitted_code_is_never_interpolated_into_the_shell() {
    let nasty = "print('x'); $(rm -rf /) `id` \"\u{27}\"";
    let script = build_script(Language::Python, &base64_encode(nasty.as_bytes()), &Nonce::new("abc123"));
    assert!(!script.contains("rm -rf"), "提出コードが素のままスクリプトに入っている");
    assert!(!script.contains("$(id)"));
    assert!(script.contains(&base64_encode(nasty.as_bytes())));
}

#[test]
fn command_request_waits_for_completion_and_collects_logs() {
    let req = ExecCommandRequest::shell_script("echo hi");
    assert!(req.wait, "完了を待っていない");
    assert!(req.logs, "ログを集めていない");
    assert_eq!(req.command, "sh");
    assert!(req.timeout >= 1000);
}

fn refused(status: u16, message: &str) -> Result<ExecuteRequest, ErrorReply> {
    Err(ErrorReply { status, message: message.to_string() })
}

#[test]
fn every_unusable_request_gets_its_answer() {
    assert_eq!(accept(Incoming::OtherMethod), refused(405, "POST のみ受け付けます"));
    assert_eq!(accept(Incoming::UnreadableBody), refused(400, "リクエストボディを読めませんでした"));
    assert_eq!(accept(Incoming::MalformedBody), refused(400, "リクエストボディが不正です"));
    let blank = ExecuteRequest::judge(Language::Rust, " \n\t");
    assert_eq!(accept(Incoming::Request(blank)), refused(400, "コードが空です"));
    let big = ExecuteRequest::judge(Language::Rust, &"あ".repeat(MAX_CODE_BYTES / 3 + 1));
    assert_eq!(
        accept(Incoming::Request(big)),
        refused(400, "コードが大きすぎます (上限 65536 bytes)")
    );
    let fits = ExecuteRequest::judge(Language::Rust, &"a".repeat(MAX_CODE_BYTES));
    assert_eq!(accept(Incoming::Request(fits.clone())), Ok(fits));
}

#[test]
fn every_failure_gets_its_answer() {
    for (error, status, message) in [
        (SandboxError::NoCredentials, 500, "実行環境の認証情報がありません (サーバー設定の問題です)"),
        (SandboxError::Busy, 503, "実行環境が混雑しています。少し待ってから再試行してください"),
        (
            SandboxError::Quota,
            503,
            "実行環境の今月の無料枠を使い切りました。枠がリセットされるまで実行できません (コードの問題ではありません)",
        ),
        (SandboxError::Unreachable, 502, "実行環境に接続できませんでした。しばらくして再試行してください"),
        (SandboxError::TimedOut, 504, "実行がタイムアウトしました。無限ループがないか確認してください"),
        (SandboxError::Unparseable, 502, "実行結果を解釈できませんでした"),
        (SandboxError::Failed, 502, "実行環境がエラーを返しました"),
    ] {
        let reply = error.into_response();
        assert_eq!((reply.status, reply.message.as_str()), (status, message));
    }
}

#[test]
fn a_busy_service_is_asked_three_times() {
    let busy = || CreateReply::Refused { status: 503, body: String::new() };
    assert_eq!(after_create(0, busy()), CreateStep::Retry { after_millis: 600, attempt: 1 });
    assert_eq!(after_create(1, busy()), CreateStep::Retry { after_millis: 1200, attempt: 2 });
    assert_eq!(after_create(2, busy()), CreateStep::GiveUp { error: SandboxError::Busy });
}

#[test]
fn other_answers_are_not_asked_for_again() {
    let give_up = |error| CreateStep::GiveUp { error };
    let refusal = |status, body: &str| CreateReply::Refused { status, body: body.to_string() };
    assert_eq!(after_create(0, refusal(402, "")), give_up(SandboxError::Quota));
    assert_eq!(after_create(0, refusal(401, "")), give_up(SandboxError::NoCredentials));
    assert_eq!(after_create(0, refusal(404, "")), give_up(SandboxError::Failed));
    assert_eq!(after_create(0, CreateReply::TimedOut), give_up(SandboxError::TimedOut));
    assert_eq!(after_create(0, CreateReply::Unreachable), give_up(SandboxError::Unreachable));
    assert_eq!(after_create(0, CreateReply::Unreadable), give_up(SandboxError::Failed));
    assert_eq!(
        after_create(1, CreateReply::Created { session: "sbx_1".into() }),
        CreateStep::Use { session: "sbx_1".into() }
    );
}

#[test]
fn the_answer_to_the_script_is_never_asked_for_again() {
    let refusal = |status, body: &str| ExecReply::Refused { status, body: body.to_string() };
    assert_eq!(after_exec(ExecReply::TimedOut), Err(SandboxError::TimedOut));
    assert_eq!(after_exec(ExecReply::Unreachable), Err(SandboxError::Unreachable));
    assert_eq!(after_exec(ExecReply::Unreadable), Err(SandboxError::Failed));
    assert_eq!(after_exec(refusal(429, "")), Err(SandboxError::Busy));
    assert_eq!(after_exec(refusal(403, "quota")), Err(SandboxError::Quota));
    assert_eq!(after_exec(refusal(403, "")), Err(SandboxError::NoCredentials));
    assert_eq!(after_exec(refusal(400, "")), Err(SandboxError::Failed));
    let result = CommandResult { stdout: "x".into(), stderr: String::new(), exit_code: Some(0) };
    assert_eq!(after_exec(ExecReply::Completed { result: result.clone() }), Ok(result));
}

#[test]
fn a_report_is_concluded_with_a_response() {
    let nonce = Nonce::new("abc");
    let k = nonce.as_str();
    let stdout = format!(
        "\n{k}:cout\n\n{k}:cerr\n\n{k}:pout\ntest result: ok\n\n{k}:perr\n\n{k}:exit\n0\n\n{k}:end\n"
    );
    let result = CommandResult { stdout, stderr: String::new(), exit_code: Some(0) };
    let resp = conclude(Language::Python, &nonce, &result).unwrap();
    assert_eq!(classify(&resp), Outcome::Passed);
    assert_eq!(resp.stdout, "test result: ok\n");
}

#[test]
fn a_broken_report_tells_a_kill_from_nonsense() {
    let nonce = Nonce::new("abc");
    let result = |exit_code| CommandResult { stdout: "half".into(), stderr: String::new(), exit_code };
    let conclusion = |exit_code| conclude(Language::Python, &nonce, &result(exit_code));
    assert_eq!(conclusion(Some(0)), Err(SandboxError::Unparseable));
    assert_eq!(conclusion(Some(137)), Err(SandboxError::TimedOut));
    assert_eq!(conclusion(None), Err(SandboxError::TimedOut));
}

#[test]
fn the_session_is_stopped_whatever_came_back() {
    let nonce = Nonce::new("abc");
    let k = nonce.as_str();
    let stdout = format!(
        "\n{k}:cout\n\n{k}:cerr\n\n{k}:pout\nx\n{k}:perr\n\n{k}:exit\n1\n\n{k}:end\n"
    );
    let end = |reply| finish(Language::Python, &nonce, "sbx_1".to_string(), reply);
    let completed = |stdout: &str, exit_code| ExecReply::Completed {
        result: CommandResult { stdout: stdout.to_string(), stderr: String::new(), exit_code },
    };

    let ran = end(completed(&stdout, Some(0)));
    assert_eq!(ran.stop, "sbx_1");
    assert_eq!(classify(&ran.answer.unwrap()), Outcome::RuntimeError);

    let replies = [
        (ExecReply::TimedOut, SandboxError::TimedOut),
        (ExecReply::Unreachable, SandboxError::Unreachable),
        (ExecReply::Unreadable, SandboxError::Failed),
        (ExecReply::Refused { status: 402, body: String::new() }, SandboxError::Quota),
        (completed("half", Some(137)), SandboxError::TimedOut),
        (completed("half", Some(0)), SandboxError::Unparseable),
    ];
    for (reply, error) in replies {
        let failed = end(reply);
        assert_eq!(failed.stop, "sbx_1");
        assert_eq!(failed.answer, Err(error));
    }
}

#[test]
fn random_text_is_hexadecimal_and_differs() {
    let (a, b) = (random_hex(0), random_hex(0));
    for s in [&a, &b] {
        assert_eq!(s.len(), 32);
        assert!(s.chars().all(|c| c.is_ascii_digit() || ('a'..='f').contains(&c)), "{s}");
    }
    assert_ne!(a, b);
    assert_ne!(a, "0".repeat(32));
    assert_eq!(Nonce::new(&a).as_str(), format!("KNOCKS{a}"));
}

#[test]
fn random_bytes_and_the_time_are_written_in_hexadecimal() {
    assert_eq!(hex_of_random(true, &vec![0x00, 0x0f, 0xa5, 0xff], 7), "000fa5ff");
    assert_eq!(hex_of_random(false, &vec![1; 16], 0xdead_beef), "000000000000000000000000deadbeef");
    assert_eq!(hex_of_random(false, &vec![], u128::MAX), "f".repeat(32));
}

#[test]
fn the_environment_may_name_another_image() {
    assert_eq!(image(None), "knocks-runtime:2026-09-11");
    assert_eq!(image(Some("other:1".into())), "other:1");
}

#[test]
fn without_a_token_nothing_is_run() {
    assert_eq!(token(None, Some(" "), None), Err(SandboxError::NoCredentials));
    assert_eq!(token(Some("h"), Some("e"), None), Ok("h".to_string()));
}

#[test]
fn only_a_status_in_the_two_hundreds_is_success() {
    for status in 0..=999 {
        assert_eq!(succeeded(status), status / 100 == 2, "{status}");
    }
}

#[test]
fn addresses_name_the_session() {
    assert_eq!(create_url(), "https://api.vercel.com/v4/sandboxes");
    assert_eq!(
        command_url("sbx_1", "ff"),
        "https://api.vercel.com/v2/sandboxes/sessions/sbx_1/cmd?cmdId=cff"
    );
    assert_eq!(stop_url("sbx_1"), "https://api.vercel.com/v2/sandboxes/sessions/sbx_1/stop");
}

#[test]
fn a_submission_is_encoded_from_its_bytes() {
    let nonce = Nonce::new("abc");
    assert_eq!(
        submission_script(Language::Python, "あ", &nonce),
        build_script(Language::Python, "44GC", &nonce)
    );
}
