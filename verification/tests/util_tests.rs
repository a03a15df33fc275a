use triggers_frontend::actor::TriggerCommand;
use triggers_frontend::actor::TriggerError;
use triggers_frontend::actor::actor_handle_command;
use triggers_frontend::actor::channel_closed_error;
use triggers_frontend::actor::retry_outcome;
use triggers_frontend::flow::CreationCheck;
use triggers_frontend::flow::TriggerKind;
use triggers_frontend::flow::alive_of;
use triggers_frontend::flow::creation_precheck;
use triggers_frontend::flow::delete_ignored_reply;
use triggers_frontend::flow::delete_stopped_reply;
use triggers_frontend::flow::parse_trigger_kind;
use triggers_frontend::flow::ready_poll_continues;
use triggers_frontend::flow::ready_wait_outcome;
use triggers_frontend::flow::ready_wait_tick;
use triggers_frontend::flow::reply_to_result;
use triggers_frontend::status::TriggerStatus;
use triggers_frontend::status::string_to_trigger_status;
use triggers_frontend::status::trigger_status_to_string;
use triggers_frontend::util::get_domain_suffix;
use triggers_frontend::util::get_internal_workflow_url;
use triggers_frontend::util::get_unique_id;
use triggers_frontend::util::u32_to_decimal;
use triggers_frontend::workflow::WorkflowInfo;

#[test]
fn status_names_round_trip() {
    for status in [
        TriggerStatus::Starting,
        TriggerStatus::Ready,
        TriggerStatus::Stopping,
        TriggerStatus::StoppedNormal,
        TriggerStatus::StoppedError,
    ] {
        let name = trigger_status_to_string(&status);
        assert_eq!(string_to_trigger_status(&name), status);
    }
    assert_eq!(trigger_status_to_string(&TriggerStatus::Ready), "Ready");
    assert_eq!(
        string_to_trigger_status(&"garbage".to_string()),
        TriggerStatus::StoppedNormal
    );
}

#[test]
fn decimal_formatting_exact() {
    assert_eq!(u32_to_decimal(0), "0");
    assert_eq!(u32_to_decimal(7), "7");
    assert_eq!(u32_to_decimal(42), "42");
    assert_eq!(u32_to_decimal(99999999), "99999999");
    assert_eq!(u32_to_decimal(1000000), "1000000");
}

#[test]
fn unique_id_is_a_bracketed_number() {
    let id = get_unique_id();
    assert!(id.starts_with('['));
    assert!(id.ends_with(']'));
    let inner = &id[1..id.len() - 1];
    assert!(!inner.is_empty() && inner.len() <= 8);
    assert!(inner.chars().all(|c| c.is_ascii_digit()));
}

#[test]
fn domain_suffix_and_internal_url() {
    assert_eq!(get_domain_suffix("https://mgmt.example.com:8080/x"), "example.com:8080/x");
    assert_eq!(get_domain_suffix("no-scheme"), "");
    assert_eq!(
        get_internal_workflow_url("https://wf-abc.public.net/run", "https://mgmt.cluster.local"),
        "http://wf-abc.cluster.local"
    );
    assert_eq!(get_internal_workflow_url("plain", "https://mgmt.cluster.local"), "");
}

#[test]
fn trigger_kind_parsing() {
    assert_eq!(parse_trigger_kind(&"amqp".to_string()), Some(TriggerKind::Amqp));
    assert_eq!(parse_trigger_kind(&"mqtt".to_string()), Some(TriggerKind::Mqtt));
    assert_eq!(parse_trigger_kind(&"timer".to_string()), Some(TriggerKind::Timer));
    assert_eq!(parse_trigger_kind(&"cron".to_string()), None);
}

#[test]
fn reply_result_mapping() {
    assert_eq!(reply_to_result(true, "m".to_string()), Ok("m".to_string()));
    assert_eq!(reply_to_result(false, "m".to_string()), Err("m".to_string()));
}

#[test]
fn creation_precheck_cases() {
    assert_eq!(creation_precheck(&None), CreationCheck::Fresh);
    let active = Some((TriggerStatus::Ready, String::new()));
    assert_eq!(creation_precheck(&active), CreationCheck::AlreadyActive);
    let stale = Some((TriggerStatus::StoppedError, "e".to_string()));
    assert_eq!(creation_precheck(&stale), CreationCheck::ReuseAfterDelete);
}

#[test]
fn ready_wait_decisions() {
    assert!(ready_poll_continues(&Some((TriggerStatus::Starting, String::new()))));
    assert!(ready_poll_continues(&Some((TriggerStatus::Stopping, String::new()))));
    assert!(!ready_poll_continues(&Some((TriggerStatus::Ready, String::new()))));
    assert!(!ready_poll_continues(&None));

    assert_eq!(
        ready_wait_outcome(&Some(TriggerStatus::Ready), &String::new()),
        Ok(TriggerStatus::Ready)
    );
    assert_eq!(
        ready_wait_outcome(&Some(TriggerStatus::Starting), &String::new()),
        Ok(TriggerStatus::Starting)
    );
    assert_eq!(
        ready_wait_outcome(&Some(TriggerStatus::StoppedError), &"boom".to_string()),
        Err("boom".to_string())
    );
    assert_eq!(
        ready_wait_outcome(&None, &String::new()),
        Err("Unable to get status of the trigger".to_string())
    );

    assert_eq!(ready_wait_tick(4000), (3500, true));
    assert_eq!(ready_wait_tick(400), (-100, false));
}

#[test]
fn alive_and_delete_replies() {
    let id = "t1".to_string();
    let (alive, _) = alive_of(&Some((TriggerStatus::Ready, String::new())), &id);
    assert!(alive);
    let (alive, msg) = alive_of(&None, &id);
    assert!(!alive);
    assert_eq!(
        msg,
        "[is_trigger_alive] Trying to get for status of trigger (t1), when status value does not exist"
    );

    assert_eq!(
        delete_stopped_reply(&id, &Ok("ok".to_string())),
        Ok("[handle_delete_trigger] Trigger id t1 stopped. ok".to_string())
    );
    assert_eq!(
        delete_stopped_reply(&id, &Err("bad".to_string())),
        Err("[handle_delete_trigger] Error while stopping Trigger id t1. bad".to_string())
    );
    assert_eq!(
        delete_ignored_reply(&id, &"gone".to_string()),
        "[handle_delete_trigger] Ignoring delete command for trigger id t1. gone"
    );
}

#[test]
fn actor_commands_mutate_workflow_list() {
    let mut workflows: Vec<WorkflowInfo> = Vec::new();
    let w = WorkflowInfo {
        workflow_name: "w".to_string(),
        workflow_url: "http://a".to_string(),
        workflow_state: String::new(),
    };

    let step = actor_handle_command(&mut workflows, TriggerCommand::Status);
    assert!(step.reply_ok && step.reply_message == "ok" && !step.exit);
    assert!(step.report.is_none());

    let step = actor_handle_command(&mut workflows, TriggerCommand::AddWorkflows(vec![w.clone()]));
    assert!(step.reply_ok && !step.exit);
    assert_eq!(workflows.len(), 1);

    let step = actor_handle_command(
        &mut workflows,
        TriggerCommand::RemoveWorkflows(vec![w.clone()]),
    );
    assert!(step.reply_ok && !step.exit);
    assert!(workflows.is_empty());

    let step = actor_handle_command(&mut workflows, TriggerCommand::Stop);
    assert!(step.reply_ok && step.exit);
    assert_eq!(step.report, Some(TriggerStatus::StoppedNormal));
}

#[test]
fn retry_wrapper_reports_errors_only() {
    assert!(retry_outcome(&Ok(())).is_none());
    let err = TriggerError { err_msg: "stream closed".to_string() };
    let (status, msg) = retry_outcome(&Err(err)).unwrap();
    assert_eq!(status, TriggerStatus::StoppedError);
    assert_eq!(msg, "Error: stream closed");
}

#[test]
fn channel_closed_error_message() {
    let e = channel_closed_error("timer_actor_loop", &"t1".to_string());
    assert_eq!(e.err_msg, "[timer_actor_loop] Trigger id t1, None recv on command channel");
    assert_eq!(e.message(), e.err_msg);
}
