use triggers_frontend::registry::Registry;
use triggers_frontend::registry::RegistryEffect;
use triggers_frontend::registry::TriggerManagerCommand;
use triggers_frontend::status::TriggerStatus;
use triggers_frontend::actor::TriggerCommand;
use triggers_frontend::flow::CreationCheck;
use triggers_frontend::flow::already_active_message;
use triggers_frontend::flow::creation_precheck;

fn status_of(r: &Registry, id: &str) -> Option<TriggerStatus> {
    r.statuses.entries.iter().find(|e| e.0 == id).map(|e| e.1)
}

fn error_of(r: &Registry, id: &str) -> Option<String> {
    r.errors.entries.iter().find(|e| e.0 == id).map(|e| e.1.clone())
}

fn has_channel(r: &Registry, id: &str) -> bool {
    r.channels.entries.iter().any(|e| e.0 == id)
}

fn assert_exclusive(r: &Registry) {
    for (id, _) in &r.statuses.entries {
        assert!(
            error_of(r, id).is_none(),
            "identifier {} is in both the status map and the error map",
            id
        );
    }
}

#[test]
fn register_id_starts_in_starting() {
    let mut r = Registry::new();
    let id = "t1".to_string();
    let (ok, msg) = r.register_trigger_id(&id);
    assert!(ok);
    assert_eq!(msg, "ok");
    assert_eq!(status_of(&r, "t1"), Some(TriggerStatus::Starting));
    assert!(!has_channel(&r, "t1"));
    assert!(error_of(&r, "t1").is_none());
    assert_exclusive(&r);
}

#[test]
fn register_channel_succeeds_iff_starting_or_ready() {
    let mut r = Registry::new();
    let id = "t1".to_string();

    // Unregistered identifier: rejected.
    let (ok, msg) = r.register_trigger_channel(&id);
    assert!(!ok);
    assert_eq!(
        msg,
        "[RegisterTriggerChannel] Ignoring attempt to register a channel for non-existent trigger id t1"
    );

    // Starting: accepted.
    r.register_trigger_id(&id);
    let (ok, _) = r.register_trigger_channel(&id);
    assert!(ok);
    assert!(has_channel(&r, "t1"));

    // Ready: accepted.
    let (ok, _) = r.update_trigger_status(&id, TriggerStatus::Ready, String::new());
    assert!(ok);
    let (ok, _) = r.register_trigger_channel(&id);
    assert!(ok);

    // After an error stop: rejected, and the error map is untouched.
    let (ok, _) = r.update_trigger_status(&id, TriggerStatus::StoppedError, "boom".to_string());
    assert!(ok);
    let errors_before = r.errors.entries.clone();
    let (ok, msg) = r.register_trigger_channel(&id);
    assert!(!ok);
    assert_eq!(
        msg,
        "[RegisterTriggerChannel] Ignoring attempt to register a channel for non-existent trigger id t1"
    );
    assert_eq!(r.errors.entries, errors_before);
    assert_exclusive(&r);
}

#[test]
fn update_ready_succeeds_iff_prior_starting() {
    let mut r = Registry::new();
    let id = "t1".to_string();
    r.register_trigger_id(&id);

    let (ok, msg) = r.update_trigger_status(&id, TriggerStatus::Ready, String::new());
    assert!(ok);
    assert_eq!(msg, "ok");
    assert_eq!(status_of(&r, "t1"), Some(TriggerStatus::Ready));

    // A second Ready report is rejected: the trigger is no longer Starting.
    let (ok, msg) = r.update_trigger_status(&id, TriggerStatus::Ready, String::new());
    assert!(!ok);
    assert_eq!(
        msg,
        "[UpdateTriggerStatus] Ignoring attempt to change status of trigger id t1 to Ready from Ready state"
    );

    // Actors may not report Starting or Stopping.
    let (ok, _) = r.update_trigger_status(&id, TriggerStatus::Starting, String::new());
    assert!(!ok);
    let (ok, _) = r.update_trigger_status(&id, TriggerStatus::Stopping, String::new());
    assert!(!ok);
    assert_exclusive(&r);
}

#[test]
fn stopped_error_moves_record_to_error_map() {
    let mut r = Registry::new();
    let id = "t1".to_string();
    r.register_trigger_id(&id);
    r.register_trigger_channel(&id);
    r.update_trigger_status(&id, TriggerStatus::Ready, String::new());
    let (ok, _) = r.update_trigger_status(&id, TriggerStatus::StoppedError, "Error: lost".to_string());
    assert!(ok);
    assert_eq!(status_of(&r, "t1"), None);
    assert!(!has_channel(&r, "t1"));
    assert_eq!(error_of(&r, "t1"), Some("Error: lost".to_string()));
    assert_exclusive(&r);
}

#[test]
fn stopped_normal_clears_record() {
    let mut r = Registry::new();
    let id = "t1".to_string();
    r.register_trigger_id(&id);
    r.register_trigger_channel(&id);
    let (ok, _) = r.update_trigger_status(&id, TriggerStatus::StoppedNormal, String::new());
    assert!(ok);
    assert_eq!(status_of(&r, "t1"), None);
    assert!(!has_channel(&r, "t1"));
    assert!(error_of(&r, "t1").is_none());
}

#[test]
fn create_stop_delete_leaves_no_trace() {
    let mut r = Registry::new();
    let id = "t1".to_string();
    r.register_trigger_id(&id);
    r.register_trigger_channel(&id);
    r.update_trigger_status(&id, TriggerStatus::Ready, String::new());
    let (ok, _, signal) = r.stop_trigger(&id);
    assert!(ok);
    assert!(signal);
    assert_eq!(status_of(&r, "t1"), Some(TriggerStatus::Stopping));
    let (ok, _) = r.delete_trigger(&id);
    assert!(ok);
    assert_eq!(status_of(&r, "t1"), None);
    assert!(!has_channel(&r, "t1"));
    assert!(error_of(&r, "t1").is_none());
}

#[test]
fn get_status_for_ghost_identifier_fails_with_message() {
    let mut r = Registry::new();
    let id = "ghost".to_string();
    let (ok, msg) = r.get_trigger_status(&id);
    assert!(!ok);
    assert_eq!(
        msg,
        "[GetTriggerStatus] Ignoring attempt to get status of a non existent Trigger id ghost"
    );
}

#[test]
fn get_status_reports_status_and_synthesized_error() {
    let mut r = Registry::new();
    let id = "t1".to_string();
    r.register_trigger_id(&id);
    let (ok, msg) = r.get_trigger_status(&id);
    assert!(ok);
    assert_eq!(msg, "{\"status\":\"Starting\",\"status_msg\":\"\"}");

    r.update_trigger_status(&id, TriggerStatus::StoppedError, "lost".to_string());
    let (ok, msg) = r.get_trigger_status(&id);
    assert!(ok);
    assert_eq!(msg, "{\"status\":\"StoppedError\",\"status_msg\":\"lost\"}");
}

#[test]
fn stop_on_errored_trigger_is_a_successful_noop() {
    let mut r = Registry::new();
    let id = "t1".to_string();
    r.register_trigger_id(&id);
    r.register_trigger_channel(&id);
    r.update_trigger_status(&id, TriggerStatus::StoppedError, "gone".to_string());
    let (ok, msg, signal) = r.stop_trigger(&id);
    assert!(ok);
    assert!(!signal);
    assert_eq!(
        msg,
        "[StopTrigger] Ignoring attempt to stop Trigger id t1, which stopped previously with Error: gone"
    );
}

#[test]
fn stop_on_unknown_trigger_fails() {
    let mut r = Registry::new();
    let id = "nope".to_string();
    let (ok, msg, signal) = r.stop_trigger(&id);
    assert!(!ok);
    assert!(!signal);
    assert_eq!(msg, "[StopTrigger] Ignoring attempt to stop a non existent Trigger id nope");
}

#[test]
fn stop_without_channel_fails() {
    let mut r = Registry::new();
    let id = "t1".to_string();
    r.register_trigger_id(&id);
    let (ok, msg, signal) = r.stop_trigger(&id);
    assert!(!ok);
    assert!(!signal);
    assert_eq!(
        msg,
        "[StopTrigger] Ignoring attempt to stop Trigger id t1 in status Starting, with a non-existent channel"
    );
}

#[test]
fn workflow_commands_route_only_to_live_bound_triggers() {
    let mut r = Registry::new();
    let id = "t1".to_string();

    let (ok, msg, signal) = r.add_workflows_route(&id);
    assert!(!ok);
    assert!(!signal);
    assert_eq!(
        msg,
        "[AddWorkflows] Ignoring attempt to add workflows for a non existent Trigger id t1"
    );

    r.register_trigger_id(&id);
    r.register_trigger_channel(&id);
    let (ok, msg, signal) = r.add_workflows_route(&id);
    assert!(ok);
    assert!(signal);
    assert_eq!(msg, "ok");

    let (ok, _, signal) = r.remove_workflows_route(&id);
    assert!(ok);
    assert!(signal);

    // A trigger that stopped with an error is in a terminal state: the
    // command is refused, with the explanatory message.
    r.update_trigger_status(&id, TriggerStatus::StoppedError, "gone".to_string());
    let (ok, msg, signal) = r.remove_workflows_route(&id);
    assert!(!ok);
    assert!(!signal);
    assert_eq!(
        msg,
        "[RemoveWorkflows] Ignoring attempt to remove workflows for Trigger id t1, which stopped previously with Error: gone"
    );
    let (ok, _, signal) = r.add_workflows_route(&id);
    assert!(!ok);
    assert!(!signal);
}

#[test]
fn periodic_report_snapshots_and_clears_errors() {
    let mut r = Registry::new();
    r.register_trigger_id(&"t1".to_string());
    r.register_trigger_id(&"t2".to_string());
    r.update_trigger_status(&"t2".to_string(), TriggerStatus::StoppedError, "bad".to_string());
    let data = r.periodic_report_data(&"1.2.3.4:8080".to_string());
    assert_eq!(data.action, "status");
    assert_eq!(data.self_ip_port, "1.2.3.4:8080");
    assert_eq!(data.trigger_status_map.len(), 1);
    assert_eq!(data.trigger_status_map[0].0, "t1");
    assert_eq!(data.trigger_error_map, vec![("t2".to_string(), "bad".to_string())]);
    assert!(r.errors.entries.is_empty());
    // The status map is untouched by the report.
    assert_eq!(status_of(&r, "t1"), Some(TriggerStatus::Starting));
}

#[test]
fn prepare_shutdown_marks_everything_stopping() {
    let mut r = Registry::new();
    r.register_trigger_id(&"t1".to_string());
    r.register_trigger_channel(&"t1".to_string());
    r.register_trigger_id(&"t2".to_string());
    let (data, to_signal) = r.prepare_shutdown(&"1.2.3.4:8080".to_string());
    assert_eq!(data.action, "stop");
    assert!(data.trigger_status_map.is_empty());
    assert_eq!(data.trigger_error_map.len(), 2);
    for (_, note) in &data.trigger_error_map {
        assert_eq!(note, "TriggerFrontend shutdown initiated");
    }
    assert_eq!(to_signal, vec!["t1".to_string()]);
    assert_eq!(status_of(&r, "t1"), Some(TriggerStatus::Stopping));
    assert_eq!(status_of(&r, "t2"), Some(TriggerStatus::Stopping));
}

#[test]
fn handle_command_dispatches_and_returns_effects() {
    let mut r = Registry::new();
    let here = "1.2.3.4:8080".to_string();

    let out = r.handle_command(TriggerManagerCommand::RegisterTriggerId("t1".to_string()), &here);
    assert!(out.ok);
    assert!(matches!(&out.effects[..], [RegistryEffect::DropChannel(id)] if id == "t1"));

    let out = r.handle_command(
        TriggerManagerCommand::RegisterTriggerChannel("t1".to_string()),
        &here,
    );
    assert!(out.ok);
    assert!(matches!(&out.effects[..], [RegistryEffect::StoreChannel(id)] if id == "t1"));

    let out = r.handle_command(
        TriggerManagerCommand::UpdateTriggerStatus("t1".to_string(), TriggerStatus::Ready, String::new()),
        &here,
    );
    assert!(out.ok);
    assert!(out.effects.is_empty());

    let out = r.handle_command(TriggerManagerCommand::StopTrigger("t1".to_string()), &here);
    assert!(out.ok);
    assert!(matches!(
        &out.effects[..],
        [RegistryEffect::SignalTrigger(id, TriggerCommand::Stop)] if id == "t1"
    ));

    let out = r.handle_command(TriggerManagerCommand::StopManager, &here);
    assert!(out.ok);
    assert!(matches!(out.effects.first(), Some(RegistryEffect::FinalReport(_))));
    assert!(matches!(out.effects.last(), Some(RegistryEffect::ExitLoop)));
    // One signal per bound channel sits between the report and the exit.
    assert_eq!(out.effects.len(), 3);
}

#[test]
fn second_create_observes_active_identifier() {
    let mut r = Registry::new();
    let id = "t1".to_string();
    // The first create registered the identifier; it is now Starting.
    r.register_trigger_id(&id);
    let (ok, _) = r.get_trigger_status(&id);
    assert!(ok);
    // The second create, serialized after the first, sees Starting and is blocked.
    let seen = Some((TriggerStatus::Starting, String::new()));
    assert_eq!(creation_precheck(&seen), CreationCheck::AlreadyActive);
    assert_eq!(
        already_active_message(&id),
        "Trigger t1 exists in either Starting or Ready state"
    );
}
