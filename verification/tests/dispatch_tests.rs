use triggers_frontend::dispatch::TriggerWorkflowMessage;
use triggers_frontend::dispatch::customer_headers;
use triggers_frontend::dispatch::build_deliveries;
use triggers_frontend::dispatch::event_deliveries;
use triggers_frontend::status::TriggerStatus;
use triggers_frontend::wire::escape_json;
use triggers_frontend::wire::make_status_reply;
use triggers_frontend::wire::parse_status_reply;
use triggers_frontend::workflow::WorkflowInfo;
use triggers_frontend::actor::TriggerCommand;
use triggers_frontend::actor::actor_handle_command;
use triggers_frontend::timer::TimerParams;
use triggers_frontend::timer::validate_timer_info;

fn wf(name: &str, url: &str, state: &str) -> WorkflowInfo {
    WorkflowInfo {
        workflow_name: name.to_string(),
        workflow_url: url.to_string(),
        workflow_state: state.to_string(),
    }
}

#[test]
fn workflow_message_json_exact() {
    let msg = TriggerWorkflowMessage {
        trigger_status: "ready".to_string(),
        trigger_type: "timer".to_string(),
        trigger_name: "tick".to_string(),
        workflow_name: "wf1".to_string(),
        source: "".to_string(),
        data: "payload".to_string(),
    };
    assert_eq!(
        msg.to_json(),
        "{\"trigger_status\":\"ready\",\"trigger_type\":\"timer\",\"trigger_name\":\"tick\",\"workflow_name\":\"wf1\",\"source\":\"\",\"data\":\"payload\"}"
    );
}

#[test]
fn json_escaping_is_applied_to_values() {
    assert_eq!(escape_json("plain"), "plain");
    assert_eq!(escape_json("say \"hi\""), "say \\\"hi\\\"");
    assert_eq!(escape_json("back\\slash"), "back\\\\slash");
    assert_eq!(escape_json("line\nbreak\ttab\rret"), "line\\nbreak\\ttab\\rret");
    // Control characters outside the short escapes get their \u00XX form.
    assert_eq!(escape_json("\u{1}"), "\\u0001");
    assert_eq!(escape_json("a\u{0}b\u{1f}c"), "a\\u0000b\\u001fc");
    assert_eq!(escape_json("\u{b}\u{10}"), "\\u000b\\u0010");
    let msg = TriggerWorkflowMessage {
        trigger_status: "ready".to_string(),
        trigger_type: "amqp".to_string(),
        trigger_name: "n".to_string(),
        workflow_name: "w".to_string(),
        source: "rk".to_string(),
        data: "a\"b".to_string(),
    };
    assert!(msg.to_json().ends_with("\"data\":\"a\\\"b\"}"));
}

#[test]
fn status_reply_exact() {
    assert_eq!(
        make_status_reply(&TriggerStatus::Ready, ""),
        "{\"status\":\"Ready\",\"status_msg\":\"\"}"
    );
    assert_eq!(
        make_status_reply(&TriggerStatus::StoppedError, "lost \"conn\""),
        "{\"status\":\"StoppedError\",\"status_msg\":\"lost \\\"conn\\\"\"}"
    );
}

#[test]
fn one_delivery_per_target() {
    let workflows = vec![
        wf("w1", "http://a", ""),
        wf("w2", "http://b", "st"),
        wf("w3", "http://c", ""),
    ];
    let name = "t1".to_string();
    let ds = build_deliveries("timer", &name, "", "", &workflows);
    assert_eq!(ds.len(), 3);
    assert_eq!(ds[0].url, "http://a");
    assert_eq!(ds[1].url, "http://b");
    assert_eq!(ds[1].workflow_state, "st");
    assert!(ds[2].body.contains("\"workflow_name\":\"w3\""));
    assert!(ds[0].body.contains("\"trigger_type\":\"timer\""));
}

#[test]
fn empty_target_list_yields_no_deliveries() {
    let name = "t1".to_string();
    let ds = build_deliveries("timer", &name, "", "", &Vec::new());
    assert!(ds.is_empty());
}

#[test]
fn timer_steady_state_dispatch_count() {
    // A timer trigger created with a 100 ms interval and one attached target:
    // ten ticks in one second, each owing one delivery per target — at least
    // eight dispatches within the second.
    let params = TimerParams { field_present: true, field_is_number: true, interval_ms: Some(100) };
    let timer_info = validate_timer_info(&params).unwrap();
    assert_eq!(timer_info.timer_interval, 100);

    let mut workflows: Vec<WorkflowInfo> = Vec::new();
    let step = actor_handle_command(
        &mut workflows,
        TriggerCommand::AddWorkflows(vec![wf("w1", "http://a", "")]),
    );
    assert!(step.reply_ok);
    assert_eq!(workflows.len(), 1);

    let name = "t1".to_string();
    let mut dispatches = 0;
    let mut elapsed = 0;
    while elapsed + timer_info.timer_interval <= 1000 {
        elapsed += timer_info.timer_interval;
        if !workflows.is_empty() {
            dispatches += build_deliveries("timer", &name, "", "", &workflows).len();
        }
    }
    assert!(dispatches >= 8, "only {} dispatches in one second", dispatches);
    assert_eq!(dispatches, 10);
}

#[test]
fn invalid_utf8_payload_is_dropped() {
    let workflows = vec![wf("w1", "http://a", "")];
    let name = "t1".to_string();
    let bad = vec![0xff, 0xfe, 0x80];
    assert!(event_deliveries("amqp", &name, "rk", bad, &workflows).is_none());
    let good = "hello".as_bytes().to_vec();
    let ds = event_deliveries("amqp", &name, "rk", good, &workflows).unwrap();
    assert_eq!(ds.len(), 1);
    assert!(ds[0].body.contains("\"data\":\"hello\""));
    assert!(ds[0].body.contains("\"source\":\"rk\""));
}

#[test]
fn status_reply_round_trip() {
    for (status, msg) in [
        (TriggerStatus::Starting, ""),
        (TriggerStatus::Ready, ""),
        (TriggerStatus::StoppedError, "lost \"the\" conn\nat t\\0"),
        (TriggerStatus::StoppedNormal, "plain words"),
        (TriggerStatus::Stopping, "tab\there"),
        (TriggerStatus::StoppedError, "bell\u{7} escape\u{1b} unit\u{1f}"),
    ] {
        let reply = make_status_reply(&status, msg);
        let (parsed_status, parsed_msg) = parse_status_reply(&reply).unwrap();
        assert_eq!(parsed_status, status);
        assert_eq!(parsed_msg, msg);
    }
}

#[test]
fn malformed_status_replies_are_rejected() {
    assert!(parse_status_reply("").is_none());
    assert!(parse_status_reply("{}").is_none());
    assert!(parse_status_reply("{\"status\":\"Ready\"}").is_none());
    assert!(parse_status_reply("{\"status\":\"NoSuchState\",\"status_msg\":\"\"}").is_none());
    assert!(parse_status_reply("{\"status\":\"Ready\",\"status_msg\":\"x\"} ").is_none());
    assert!(parse_status_reply("{\"status\":\"Ready\",\"status_msg\":\"x\\q\"}").is_none());
    // A parsed reply always re-encodes to the input, so a stray newline fails.
    assert!(parse_status_reply("{\"status\":\"Ready\",\"status_msg\":\"a\nb\"}").is_none());
    // A bare control character, and a long escape for a short-escape
    // character, are not canonical either.
    assert!(parse_status_reply("{\"status\":\"Ready\",\"status_msg\":\"a\u{1}b\"}").is_none());
    assert!(parse_status_reply("{\"status\":\"Ready\",\"status_msg\":\"\\u000a\"}").is_none());
    assert!(parse_status_reply("{\"status\":\"Ready\",\"status_msg\":\"\\u00ZZ\"}").is_none());
    assert!(parse_status_reply("{\"status\":\"Ready\",\"status_msg\":\"\\u0101\"}").is_none());
    // The canonical long escape parses back to the control character.
    let parsed = parse_status_reply("{\"status\":\"Ready\",\"status_msg\":\"\\u0001\"}").unwrap();
    assert_eq!(parsed.1, "\u{1}");
}

#[test]
fn customer_headers_all_or_nothing() {
    assert!(customer_headers(&String::new()).is_empty());
    let pairs = customer_headers(&"blob".to_string());
    assert_eq!(
        pairs,
        vec![
            ("x-mfn-action".to_string(), "trigger-event".to_string()),
            ("x-mfn-action-data".to_string(), "blob".to_string()),
        ]
    );
}
