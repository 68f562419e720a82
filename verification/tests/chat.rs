use marketstate_codex_connector::chat::{
    codex_answer, codex_arguments, codex_request, codex_request_with, parse_json_lines,
    parse_session_id, request_id_or, safe_request_id, schema_document, seconds, session_of,
    test_connection, test_payload, CodexRequest, CodexRun,
};
use marketstate_codex_connector::codec::{parse_json, write_json};
use marketstate_codex_connector::json::Json;
use marketstate_codex_connector::registry::ActiveRequests;
use marketstate_codex_connector::run::{
    advance, RunEvent, RunLimits, RunProgress, RunStage, RunStep,
};

fn json(text: &str) -> Json {
    parse_json(text.as_bytes()).unwrap()
}

fn run() -> CodexRun {
    CodexRun {
        exit_code: Some(0),
        success: true,
        timed_out: false,
        cancelled: false,
        stdout: "{\"thread_id\":\"t1\"}\nnoise\n{\"n\":1}\n".to_string(),
        stderr: " warn \n".to_string(),
        last_message: " Ready \n".to_string(),
        elapsed_millis: 1250,
        directory: "/w".to_string(),
    }
}

fn request(compact: bool) -> CodexRequest {
    CodexRequest {
        message: "hi".to_string(),
        request_id: "r1".to_string(),
        timeout_seconds: 30,
        isolated: false,
        compact,
    }
}

fn written(json: &Json) -> String {
    String::from_utf8(write_json(json).unwrap()).unwrap()
}

#[test]
fn a_request_needs_a_message() {
    for text in ["{}", r#"{"message":"  "}"#, r#"{"message":7}"#, "[]"] {
        assert_eq!(codex_request(&json(text)).err().unwrap(), "message is required.");
    }
}

#[test]
fn a_request_is_read_with_its_defaults() {
    let request = codex_request_with(&json(r#"{"message":" hi "}"#), "fresh".to_string()).unwrap();
    assert_eq!(request.message, "hi");
    assert_eq!(request.request_id, "fresh");
    assert_eq!(request.timeout_seconds, 900);
    assert!(!request.isolated);
    assert!(!request.compact);
}

#[test]
fn a_request_is_read_with_its_wishes() {
    let request = codex_request(&json(
        r#"{"message":"hi","request_id":" a.B_1:2-3 ","timeout_seconds":5,"isolated_workspace":true,"compact_response":true}"#,
    ))
    .unwrap();
    assert_eq!(request.request_id, "a.B_1:2-3");
    assert_eq!(request.timeout_seconds, 5);
    assert!(request.isolated && request.compact);
}

#[test]
fn the_time_limit_stays_within_bounds() {
    let limit = |value: &str| {
        let text = format!(r#"{{"message":"hi","timeout_seconds":{}}}"#, value);
        codex_request(&json(&text)).unwrap().timeout_seconds
    };
    assert_eq!(limit("0"), 1);
    assert_eq!(limit("1"), 1);
    assert_eq!(limit("3600"), 3600);
    assert_eq!(limit("3601"), 3600);
    assert_eq!(limit("-5"), 900);
    assert_eq!(limit("2.5"), 900);
    assert_eq!(limit("\"7\""), 900);
}

#[test]
fn an_identifier_is_made_up_where_there_is_none() {
    let first = safe_request_id(&json("{}")).unwrap();
    let second = safe_request_id(&json(r#"{"request_id":" "}"#)).unwrap();
    assert_ne!(first, second);
    for id in [first, second] {
        assert_eq!(id.len(), 32);
        assert!(id.chars().all(|c| matches!(c, '0'..='9' | 'a'..='f')));
        assert_eq!(&id[12..13], "4");
        assert!(matches!(&id[16..17], "8" | "9" | "a" | "b"));
    }
}

#[test]
fn identifiers_with_other_characters_are_refused() {
    for id in ["a b", "a/b", "é", "a\u{0}", &"x".repeat(129)] {
        let payload =
            Json::Object(vec![("request_id".to_string(), Json::Text(id.to_string()))]);
        assert_eq!(
            safe_request_id(&payload),
            Err("request_id contains unsupported characters.".to_string())
        );
    }
    let payload =
        Json::Object(vec![("request_id".to_string(), Json::Text("x".repeat(128)))]);
    assert_eq!(safe_request_id(&payload), Ok("x".repeat(128)));
    assert_eq!(
        request_id_or(&json("{}"), "not valid".to_string()),
        Err("request_id contains unsupported characters.".to_string())
    );
}

#[test]
fn a_schema_is_written_where_it_is_an_object() {
    let schema = schema_document(&json(r#"{"output_schema":{"b":1,"a":2}}"#)).unwrap().unwrap();
    assert_eq!(schema, br#"{"a":2,"b":1}"#);
    assert!(schema_document(&json(r#"{"output_schema":[1]}"#)).is_none());
    assert!(schema_document(&json("{}")).is_none());
}

#[test]
fn a_new_session_is_called_with_its_arguments() {
    assert_eq!(
        codex_arguments(&json("{}"), "/o", "/d", None),
        vec![
            "exec",
            "--json",
            "--color",
            "never",
            "--output-last-message",
            "/o",
            "--cd",
            "/d",
            "--sandbox",
            "read-only",
            "--skip-git-repo-check",
            "-",
        ]
    );
    let payload = json(
        r#"{"model":" m ","reasoning_effort":"high","sandbox":"workspace-write","ephemeral":true,"ignore_user_config":true,"ignore_rules":true}"#,
    );
    assert_eq!(
        codex_arguments(&payload, "/o", "/d", Some("/s")),
        vec![
            "exec",
            "--json",
            "--color",
            "never",
            "--output-last-message",
            "/o",
            "--cd",
            "/d",
            "--model",
            "m",
            "-c",
            "model_reasoning_effort=\"high\"",
            "--sandbox",
            "workspace-write",
            "--skip-git-repo-check",
            "--ephemeral",
            "--ignore-user-config",
            "--ignore-rules",
            "--output-schema",
            "/s",
            "-",
        ]
    );
}

#[test]
fn a_session_that_goes_on_is_called_with_its_arguments() {
    let payload = json(
        r#"{"session_id":"s1","model":"m","reasoning_effort":"low","sandbox":"x","ephemeral":true}"#,
    );
    assert_eq!(
        codex_arguments(&payload, "/o", "/d", Some("/s")),
        vec![
            "exec",
            "resume",
            "--json",
            "--output-last-message",
            "/o",
            "--model",
            "m",
            "-c",
            "model_reasoning_effort=\"low\"",
            "--skip-git-repo-check",
            "s1",
            "-",
        ]
    );
}

#[test]
fn events_are_read_line_by_line() {
    let events = parse_json_lines(" {\"a\":1} \r\nno\n\n[2]\n3");
    assert_eq!(
        events,
        vec![json(r#"{"a":1}"#), Json::Array(vec![Json::Unsigned(2)]), Json::Unsigned(3)]
    );
    assert_eq!(parse_json_lines(""), Vec::<Json>::new());
}

#[test]
fn events_agree_with_the_lines_of_the_standard_library() {
    let texts = ["", "1", " \n", "{\"a\":1}\r\n", "\u{85}\n\n2\nno\n", "[1]\n{\n}\n3"];
    for a in texts {
        let expected: Vec<Json> =
            a.lines().filter_map(|line| parse_json(line.trim().as_bytes())).collect();
        assert_eq!(parse_json_lines(a), expected);
        for b in texts {
            let mut both = parse_json_lines(a);
            both.extend(parse_json_lines(b));
            assert_eq!(parse_json_lines(&format!("{}\n{}", a, b)), both);
        }
    }
}

#[test]
fn the_first_session_is_found() {
    assert_eq!(
        parse_session_id("{\"a\":1}\n{\"x\":{\"threadId\":\"t\"}}\n{\"session_id\":\"s\"}"),
        Some("t".to_string())
    );
    assert_eq!(parse_session_id("{\"sessionId\":7}\nnone"), None);
    assert_eq!(session_of(&vec![json(r#"{"sessionId":"q"}"#)]), Some("q".to_string()));
}

#[test]
fn seconds_have_three_digits_behind_the_point() {
    assert_eq!(seconds(0), "0.000");
    assert_eq!(seconds(7), "0.007");
    assert_eq!(seconds(1250), "1.250");
    assert_eq!(seconds(3600999), "3600.999");
}

#[test]
fn seconds_are_written_as_the_quotient() {
    for millis in [0u64, 1, 7, 10, 100, 999, 1000, 1250, 12345, 86400001] {
        let mut run = run();
        run.elapsed_millis = millis;
        let value: serde_json::Value =
            serde_json::from_slice(&write_json(&codex_answer(&request(true), &run)).unwrap())
                .unwrap();
        assert_eq!(value["elapsed_seconds"].as_f64(), Some(millis as f64 / 1000.0));
    }
}

#[test]
fn a_good_run_is_answered() {
    assert_eq!(
        written(&codex_answer(&request(true), &run())),
        r#"{"cancelled":false,"elapsed_seconds":1.25,"error":"","final_message":"Ready","ok":true,"request_id":"r1","returncode":0,"session_id":"t1","timed_out":false}"#
    );
    assert_eq!(
        written(&codex_answer(&request(false), &run())),
        "{\"cancelled\":false,\"cwd\":\"/w\",\"elapsed_seconds\":1.25,\"error\":\"\",\"events\":[{\"thread_id\":\"t1\"},{\"n\":1}],\"final_message\":\"Ready\",\"ok\":true,\"request_id\":\"r1\",\"returncode\":0,\"session_id\":\"t1\",\"stderr\":\" warn \\n\",\"stdout\":\"{\\\"thread_id\\\":\\\"t1\\\"}\\nnoise\\n{\\\"n\\\":1}\\n\",\"timed_out\":false}"
    );
}

#[test]
fn a_failed_run_tells_its_errors() {
    let mut run = run();
    run.success = false;
    run.exit_code = Some(2);
    run.stdout = String::new();
    let answer = codex_answer(&request(true), &run);
    assert_eq!(answer.bool_in("ok"), Some(false));
    assert_eq!(answer.unsigned_in("returncode"), Some(2));
    assert_eq!(answer.text_in("error"), Some("warn"));
    assert_eq!(answer.text_in("final_message"), Some("Ready"));
    assert_eq!(answer.get("session_id"), Some(&Json::Null));
}

#[test]
fn a_run_that_is_cut_short_gives_no_message() {
    let mut timed_out = run();
    timed_out.timed_out = true;
    timed_out.exit_code = None;
    let answer = codex_answer(&request(true), &timed_out);
    assert_eq!(answer.bool_in("ok"), Some(false));
    assert_eq!(answer.get("returncode"), Some(&Json::Negative(-1)));
    assert_eq!(answer.text_in("final_message"), Some(""));
    assert_eq!(answer.text_in("error"), Some("Codex timed out after 30 seconds."));

    let mut cancelled = timed_out;
    cancelled.cancelled = true;
    let answer = codex_answer(&request(true), &cancelled);
    assert_eq!(answer.text_in("error"), Some("Codex request was cancelled."));
    assert_eq!(answer.text_in("final_message"), Some(""));
}

#[test]
fn the_connection_is_tested() {
    let payload = test_payload();
    assert_eq!(
        written(&payload),
        r#"{"compact_response":true,"ephemeral":true,"ignore_rules":true,"ignore_user_config":true,"isolated_workspace":true,"message":"This is a MarketState connector health check. Reply with exactly: Ready","sandbox":"read-only","timeout_seconds":180}"#
    );
    assert_eq!(test_connection(Ok(codex_answer(&request(true), &run()))), Ok("Ready".to_string()));
    assert_eq!(test_connection(Ok(json(r#"{"ok":true}"#))), Ok("Ready".to_string()));
    assert_eq!(
        test_connection(Ok(json(r#"{"ok":false,"error":"bad"}"#))),
        Err("bad".to_string())
    );
    assert_eq!(test_connection(Ok(json("{}"))), Err("Codex test failed.".to_string()));
    assert_eq!(test_connection(Err("no".to_string())), Err("no".to_string()));
}

fn limits(has_schema: bool) -> RunLimits {
    RunLimits { has_schema, timeout_seconds: 30 }
}

fn go(progress: RunProgress, event: RunEvent, limits: RunLimits) -> RunProgress {
    match advance(progress, &event, limits) {
        RunStep::Go(next) => next,
        RunStep::GiveUp { message, .. } => panic!("{}", message),
    }
}

fn give_up(stage: RunStage, event: RunEvent) -> (String, bool) {
    match advance(RunProgress { stage, timed_out: false }, &event, limits(true)) {
        RunStep::GiveUp { message, kill } => (message, kill),
        RunStep::Go(next) => panic!("{:?}", next),
    }
}

#[test]
fn a_run_goes_through_its_stages() {
    let mut progress = RunProgress::start();
    let mut stages = vec![progress.stage];
    while progress.stage != RunStage::Poll {
        progress = go(progress, RunEvent::Done, limits(true));
        stages.push(progress.stage);
    }
    assert_eq!(
        stages,
        vec![
            RunStage::MakeDirectory,
            RunStage::EncodeSchema,
            RunStage::WriteSchema,
            RunStage::Start,
            RunStage::SendMessage,
            RunStage::TakeOutput,
            RunStage::TakeErrorOutput,
            RunStage::Register,
            RunStage::Poll,
        ]
    );
    let without = go(RunProgress::start(), RunEvent::Done, limits(false));
    assert_eq!(without.stage, RunStage::Start);

    let running = RunEvent::Running { elapsed_seconds: 29, cancelled: false };
    let paused = go(progress, running, limits(true));
    assert_eq!(paused.stage, RunStage::Pause);
    assert_eq!(go(paused, RunEvent::Done, limits(true)), progress);
    let ended = go(progress, RunEvent::Done, limits(true));
    assert_eq!(ended, RunProgress { stage: RunStage::Collect, timed_out: false });
}

#[test]
fn a_run_ends_when_its_time_is_over() {
    let polling = RunProgress { stage: RunStage::Poll, timed_out: false };
    let over = RunEvent::Running { elapsed_seconds: 30, cancelled: true };
    let killed = go(polling, over, limits(false));
    assert_eq!(killed, RunProgress { stage: RunStage::Kill, timed_out: true });
    let waiting = go(killed, RunEvent::Failed("gone".to_string()), limits(false));
    assert_eq!(waiting, RunProgress { stage: RunStage::WaitForEnd, timed_out: true });
    let ended = go(waiting, RunEvent::Done, limits(false));
    assert_eq!(ended, RunProgress { stage: RunStage::Collect, timed_out: true });
}

#[test]
fn a_cancelled_run_is_waited_for() {
    let polling = RunProgress { stage: RunStage::Poll, timed_out: false };
    let cancelled = RunEvent::Running { elapsed_seconds: 1, cancelled: true };
    let waiting = go(polling, cancelled, limits(false));
    assert_eq!(waiting, RunProgress { stage: RunStage::WaitForEnd, timed_out: false });
}

#[test]
fn a_run_is_given_up_where_a_stage_fails() {
    let failed = || RunEvent::Failed("e".to_string());
    let texts = [
        (RunStage::MakeDirectory, "Unable to prepare workspace: e"),
        (RunStage::EncodeSchema, "e"),
        (RunStage::WriteSchema, "Unable to write the response schema: e"),
        (RunStage::Start, "Unable to start Codex: e"),
        (RunStage::SendMessage, "Unable to send the prompt to Codex: e"),
        (RunStage::Poll, "Unable to read Codex status: e"),
        (RunStage::WaitForEnd, "Unable to stop Codex: e"),
    ];
    for (stage, text) in texts {
        assert_eq!(give_up(stage, failed()), (text.to_string(), false));
    }
    let unavailable = [
        (RunStage::TakeOutput, "Codex stdout is unavailable."),
        (RunStage::TakeErrorOutput, "Codex stderr is unavailable."),
        (RunStage::Register, "Request registry is unavailable."),
        (RunStage::Poll, "Codex process is unavailable."),
        (RunStage::WaitForEnd, "Codex process is unavailable."),
    ];
    for (stage, text) in unavailable {
        assert_eq!(give_up(stage, RunEvent::Unavailable), (text.to_string(), false));
    }
    assert_eq!(
        give_up(RunStage::Register, RunEvent::AlreadyActive),
        ("request_id is already active.".to_string(), true)
    );
}

#[test]
fn active_requests_are_entered_once() {
    let mut active: ActiveRequests<u32> = ActiveRequests::new();
    assert_eq!(active.len(), 0);
    assert!(active.register("a", 1));
    assert!(active.register("b", 2));
    assert!(!active.register("a", 3));
    assert_eq!(active.len(), 2);
    assert_eq!(active.cancel_request("a"), Some(&1));
    assert_eq!(active.cancel_request("c"), None);
    assert_eq!(active.cancel_all_requests(), vec![&1, &2]);
    active.remove("a");
    assert_eq!(active.cancel_request("a"), None);
    assert_eq!(active.cancel_request("b"), Some(&2));
    assert!(active.register("a", 4));
    active.remove("unknown");
    assert_eq!(active.len(), 2);
}
