use knocks::sandbox::{
    classify_sandbox_failure, fold_stream, pick_token, stream_lines, CommandResult,
    CreateSandboxRequest, ExecCommandRequest, StreamCommand, StreamLine, UpstreamFailure,
    OIDC_HEADER,
};

fn field<'a>(value: &'a serde_json::Value, name: &str) -> Option<&'a serde_json::Value> {
    value.get(name).filter(|v| !v.is_null())
}

/// A text that may be missing or null. `None` where something else stands in its place.
fn text_field(value: &serde_json::Value, name: &str) -> Option<Option<String>> {
    match field(value, name) {
        Some(v) => Some(Some(v.as_str()?.to_string())),
        None => Some(None),
    }
}

fn exit_code(command: &serde_json::Value) -> Option<Option<i32>> {
    match field(command, "exitCode") {
        Some(v) => Some(Some(i32::try_from(v.as_i64()?).ok()?)),
        None => Some(None),
    }
}

/// Reads one line. A line with a field of another type cannot be read at all.
fn parse_line(line: &str) -> Option<StreamLine> {
    let value: serde_json::Value = serde_json::from_str(line).ok()?;
    value.as_object()?;
    let command = match field(&value, "command") {
        Some(command) => {
            command.as_object()?;
            Some(StreamCommand { exit_code: exit_code(command)? })
        }
        None => None,
    };
    Some(StreamLine {
        data: text_field(&value, "data")?,
        stream: text_field(&value, "stream")?,
        command,
    })
}

fn parse_command_stream(ndjson: &str) -> CommandResult {
    knocks::sandbox::parse_command_stream(ndjson, parse_line)
}

const REAL_CMD_STREAM: &str = r#"{"command":{"id":"cmd_40f0ec2e166e4c10accf2590ecc0","name":"sh","args":["-lc","echo hello"],"cwd":"/vercel","sessionId":"sbx_StVzLvtSWnsC2ANrxcBYFo36hMTE","startedAt":1789056577952,"exitCode":null}}
{"data":"hello-stderr\n","stream":"stderr"}
{"data":"hello-stdout\n","stream":"stdout"}
{"command":{"id":"cmd_40f0ec2e166e4c10accf2590ecc0","name":"sh","args":["-lc","echo hello"],"cwd":"/vercel","sessionId":"sbx_StVzLvtSWnsC2ANrxcBYFo36hMTE","startedAt":1789056577952,"exitCode":7,"durationMs":41}}"#;

#[test]
fn create_request_never_persists_snapshots() {
    let req = CreateSandboxRequest::for_submission("img");
    assert!(!req.persistent, "persistent が true");
}

#[test]
fn command_stream_splits_stdout_and_stderr_and_takes_the_exit_code() {
    let r = parse_command_stream(REAL_CMD_STREAM);
    assert_eq!(r.stdout, "hello-stdout\n");
    assert_eq!(r.stderr, "hello-stderr\n");
    assert_eq!(r.exit_code, Some(7), "最後の command イベントから終了コードを取っていない");
}

#[test]
fn command_stream_without_a_final_event_has_no_exit_code() {
    let partial = "{\"command\":{\"id\":\"c1\",\"exitCode\":null}}\n{\"data\":\"half\",\"stream\":\"stdout\"}";
    let r = parse_command_stream(partial);
    assert_eq!(r.exit_code, None);
    assert_eq!(r.stdout, "half");
}

#[test]
fn command_stream_keeps_chunk_order() {
    let s = "{\"data\":\"a\",\"stream\":\"stdout\"}\n{\"data\":\"b\",\"stream\":\"stdout\"}\n{\"data\":\"c\",\"stream\":\"stdout\"}";
    assert_eq!(parse_command_stream(s).stdout, "abc");
}

#[test]
fn command_stream_ignores_unparseable_lines() {
    let s = "not json\n{\"data\":\"x\",\"stream\":\"stdout\"}\n{\"somethingNew\":1}";
    assert_eq!(parse_command_stream(s).stdout, "x");
}

#[test]
fn server_errors_and_rate_limits_are_transient() {
    assert_eq!(classify_sandbox_failure(500, ""), UpstreamFailure::Transient);
    assert_eq!(classify_sandbox_failure(503, ""), UpstreamFailure::Transient);
    assert_eq!(classify_sandbox_failure(429, ""), UpstreamFailure::Transient);
}

#[test]
fn quota_exhaustion_is_its_own_failure() {
    assert_eq!(
        classify_sandbox_failure(402, "{\"error\":{\"code\":\"quota_exceeded\"}}"),
        UpstreamFailure::QuotaExhausted
    );
    assert_eq!(
        classify_sandbox_failure(403, "{\"error\":{\"code\":\"resource_limit_exceeded\",\"message\":\"You have exceeded your Sandbox quota\"}}"),
        UpstreamFailure::QuotaExhausted
    );
}

#[test]
fn unauthorized_is_a_configuration_problem_not_a_generic_failure() {
    assert_eq!(classify_sandbox_failure(401, "Unauthorized"), UpstreamFailure::Unauthorized);
    assert_eq!(
        classify_sandbox_failure(403, "{\"error\":{\"code\":\"forbidden\"}}"),
        UpstreamFailure::Unauthorized
    );
    assert_eq!(
        classify_sandbox_failure(403, "You have exceeded your Sandbox quota"),
        UpstreamFailure::QuotaExhausted
    );
}

#[test]
fn client_errors_are_not_retried() {
    assert_eq!(classify_sandbox_failure(400, "{\"error\":\"bad request\"}"), UpstreamFailure::Other);
    assert_eq!(classify_sandbox_failure(404, ""), UpstreamFailure::Other);
}

#[test]
fn image_not_ready_is_transient() {
    assert_eq!(
        classify_sandbox_failure(400, "{\"error\":{\"code\":\"image_not_ready\"}}"),
        UpstreamFailure::Transient
    );
}

#[test]
fn the_request_header_is_the_production_source_of_the_token() {
    assert_eq!(OIDC_HEADER, "x-vercel-oidc-token");
    assert_eq!(pick_token(Some("from-header"), None, None).as_deref(), Some("from-header"));
}

#[test]
fn header_wins_over_environment() {
    assert_eq!(
        pick_token(Some("fresh"), Some("stale"), Some("pat")).as_deref(),
        Some("fresh")
    );
}

#[test]
fn environment_is_the_local_development_fallback() {
    assert_eq!(pick_token(None, Some("local-oidc"), None).as_deref(), Some("local-oidc"));
    assert_eq!(pick_token(None, None, Some("pat")).as_deref(), Some("pat"));
}

#[test]
fn blank_values_are_not_tokens() {
    assert_eq!(pick_token(Some("  "), Some(""), None), None);
    assert_eq!(pick_token(None, None, None), None);
}

fn chunk(stream: &str, data: &str) -> Option<StreamLine> {
    Some(StreamLine { data: Some(data.into()), stream: Some(stream.into()), command: None })
}

fn ended(code: Option<i32>) -> Option<StreamLine> {
    Some(StreamLine { data: None, stream: None, command: Some(StreamCommand { exit_code: code }) })
}

#[test]
fn a_line_with_a_field_of_another_type_is_skipped() {
    let s = [
        r#"{"data":"a","stream":"stdout","command":{"exitCode":3}}"#,
        r#"{"data":1,"stream":"stdout","command":{"exitCode":4}}"#,
        r#"{"data":"b","stream":"stdout","command":{"exitCode":4294967296}}"#,
        r#"{"data":"c","stream":"stdout","command":7}"#,
        r#"{"data":"d","stream":null,"command":null}"#,
        "[]",
    ]
    .join("\n");
    let result = parse_command_stream(&s);
    assert_eq!((result.stdout.as_str(), result.exit_code), ("a", Some(3)));
}

#[test]
fn events_add_up() {
    let events = vec![
        ended(None),
        chunk("stdout", "a"),
        None,
        chunk("stderr", "x"),
        chunk("elsewhere", "?"),
        ended(Some(3)),
        chunk("stdout", "b"),
        ended(Some(4)),
        ended(None),
    ];
    let result = fold_stream(&events);
    assert_eq!(result.stdout, "ab");
    assert_eq!(result.stderr, "x");
    assert_eq!(result.exit_code, Some(4));
    assert_eq!(fold_stream(&vec![]), CommandResult::default());
}

#[test]
fn an_unreadable_event_changes_nothing_wherever_it_stands() {
    let without = vec![chunk("stdout", "a"), ended(Some(1)), chunk("stdout", "b")];
    for at in 0..4 {
        let mut with = without.clone();
        with.insert(at, None);
        assert_eq!(fold_stream(&with), fold_stream(&without));
    }
}

#[test]
fn a_chunk_without_a_stream_is_dropped() {
    let events = vec![
        Some(StreamLine { data: Some("a".into()), stream: None, command: None }),
        Some(StreamLine { data: None, stream: Some("stdout".into()), command: None }),
    ];
    assert_eq!(fold_stream(&events), CommandResult::default());
}

#[test]
fn event_lines_are_trimmed_and_never_empty() {
    assert_eq!(stream_lines("  {a} \r\n\n \t \n{b}"), vec!["{a}", "{b}"]);
    assert!(stream_lines("").is_empty());
}

#[test]
fn every_status_has_its_meaning() {
    for status in 0..=u16::MAX {
        let expected = match status {
            402 => UpstreamFailure::QuotaExhausted,
            401 | 403 => UpstreamFailure::Unauthorized,
            429 | 500..=599 => UpstreamFailure::Transient,
            _ => UpstreamFailure::Other,
        };
        assert_eq!(classify_sandbox_failure(status, ""), expected, "{status}");
    }
}

#[test]
fn the_body_counts_more_than_the_status_and_ignores_case() {
    assert_eq!(classify_sandbox_failure(402, "IMAGE_NOT_READY"), UpstreamFailure::Transient);
    assert_eq!(classify_sandbox_failure(500, "Quota"), UpstreamFailure::QuotaExhausted);
    assert_eq!(classify_sandbox_failure(404, "Exceeded Your plan"), UpstreamFailure::QuotaExhausted);
    assert_eq!(classify_sandbox_failure(404, "RESOURCE_LIMIT"), UpstreamFailure::QuotaExhausted);
    assert_eq!(classify_sandbox_failure(404, "exceeded"), UpstreamFailure::Other);
}

#[test]
fn tokens_lose_the_white_space_around_them() {
    assert_eq!(pick_token(Some(" \u{3000}"), Some("\tpat \n"), Some("x")).as_deref(), Some("pat"));
    assert_eq!(pick_token(Some("a b"), None, None).as_deref(), Some("a b"));
}

#[test]
fn a_sandbox_is_small_short_lived_and_cut_off() {
    let req = CreateSandboxRequest::for_submission("img:1");
    assert_eq!(req.image, "img:1");
    assert_eq!(req.resources.vcpus, 1);
    assert_eq!(req.timeout, 60_000);
    assert_eq!(req.network_policy.mode, "deny-all");
}

#[test]
fn a_script_is_an_argument_of_the_shell() {
    let req = ExecCommandRequest::shell_script("echo hi");
    assert_eq!(req.args, vec!["-c", "echo hi"]);
    assert_eq!(req.timeout, 45_000);
}
