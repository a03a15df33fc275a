//! The supervisor-side orchestration decisions.
//!
//! Creating, deleting and querying triggers is a conversation over channels:
//! send a command, read a status, decide. The waiting happens in the caller's
//! event loop; every decision along the way is a function here, from the
//! values read to the next step.

use crate::status::TriggerStatus;
use vstd::prelude::*;
use vstd::string::StringExecFns;

verus! {

/// The closed set of trigger kinds.
#[derive(Clone, Copy, Debug, PartialEq, Eq, Structural)]
pub enum TriggerKind {
    Amqp,
    Mqtt,
    Timer,
}

/// The kind named by a request's type tag, if any.
pub fn parse_trigger_kind(trigger_type: &String) -> (r: Option<TriggerKind>)
    ensures
        r == (if trigger_type@ == "amqp"@ {
            Some(TriggerKind::Amqp)
        } else if trigger_type@ == "mqtt"@ {
            Some(TriggerKind::Mqtt)
        } else if trigger_type@ == "timer"@ {
            Some(TriggerKind::Timer)
        } else {
            None::<TriggerKind>
        }),
{
    if *trigger_type == "amqp".to_owned() {
        Some(TriggerKind::Amqp)
    } else if *trigger_type == "mqtt".to_owned() {
        Some(TriggerKind::Mqtt)
    } else if *trigger_type == "timer".to_owned() {
        Some(TriggerKind::Timer)
    } else {
        None
    }
}

/// Turn a raw `(success, message)` reply into a result: the message is the
/// value on success and the error otherwise.
pub fn reply_to_result(ok: bool, message: String) -> (r: Result<String, String>)
    ensures
        ok ==> (r matches Ok(v) && v == message),
        !ok ==> (r matches Err(v) && v == message),
{
    if ok {
        Ok(message)
    } else {
        Err(message)
    }
}

/// What an identifier's current status means for a create request.
#[derive(Clone, Copy, Debug, PartialEq, Eq, Structural)]
pub enum CreationCheck {
    /// The identifier is in `Starting` or `Ready`: creation is blocked.
    AlreadyActive,
    /// The identifier exists in another state: delete it, then register anew.
    ReuseAfterDelete,
    /// The identifier is unknown: register it.
    Fresh,
}

/// Decide whether an identifier may be (re)used, from its queried status.
pub fn creation_precheck(status: &Option<(TriggerStatus, String)>) -> (r: CreationCheck)
    ensures
        r == (match status {
            Some(v) => if v.0.is_live() {
                CreationCheck::AlreadyActive
            } else {
                CreationCheck::ReuseAfterDelete
            },
            None => CreationCheck::Fresh,
        }),
{
    match status {
        Some((current, _)) => match current {
            TriggerStatus::Starting | TriggerStatus::Ready => CreationCheck::AlreadyActive,
            _ => CreationCheck::ReuseAfterDelete,
        },
        None => CreationCheck::Fresh,
    }
}

/// The rejection a create request gets while the identifier is active.
pub fn already_active_message(trigger_id: &String) -> (r: String)
    ensures
        r@ == "Trigger "@ + trigger_id@ + " exists in either Starting or Ready state"@,
{
    let mut out = "Trigger ".to_owned();
    out.append(trigger_id.as_str());
    out.append(" exists in either Starting or Ready state");
    out
}

/// Whether the ready-wait must poll again: only `Starting` and `Stopping`
/// extend the wait; `Ready`, a terminal status, or a lost status end it.
pub fn ready_poll_continues(status: &Option<(TriggerStatus, String)>) -> (r: bool)
    ensures
        r == (match status {
            Some(v) => v.0 == TriggerStatus::Starting || v.0 == TriggerStatus::Stopping,
            None => false,
        }),
{
    match status {
        Some((current, _)) => match current {
            TriggerStatus::Starting | TriggerStatus::Stopping => true,
            _ => false,
        },
        None => false,
    }
}

/// The verdict of the bounded ready-wait: `Ready` or still-`Starting` let
/// creation proceed; a lost status and every other outcome are failures
/// carrying the last message seen.
pub fn ready_wait_outcome(curr_status: &Option<TriggerStatus>, curr_status_msg: &String) -> (r:
    Result<TriggerStatus, String>)
    ensures
        match curr_status {
            None => r matches Err(e) && e@ == "Unable to get status of the trigger"@,
            Some(st) => if st.is_live() {
                r == Ok::<TriggerStatus, String>(*st)
            } else {
                r matches Err(e) && e@ == curr_status_msg@
            },
        },
{
    match curr_status {
        None => Err("Unable to get status of the trigger".to_owned()),
        Some(current) => match current {
            TriggerStatus::Ready | TriggerStatus::Starting => Ok(*current),
            _ => Err(curr_status_msg.clone()),
        },
    }
}

/// The failure a create request reports when the trigger came up but its
/// channel could not be registered.
pub fn register_channel_failure_message(trigger_id: &String, error: &String) -> (r: String)
    ensures
        r@ == "Unable to register channel for trigger "@ + trigger_id@ + ". Error: "@ + error@,
{
    let mut out = "Unable to register channel for trigger ".to_owned();
    out.append(trigger_id.as_str());
    out.append(". Error: ");
    out.append(error.as_str());
    out
}

/// Whether a queried status counts as alive — `Starting` or `Ready` — with
/// the message a delete request passes on.
pub fn alive_of(status: &Option<(TriggerStatus, String)>, trigger_id: &String) -> (r: (
    bool,
    String,
))
    ensures
        match status {
            Some(v) => r.0 == v.0.is_live() && r.1@ == v.1@,
            None => !r.0 && r.1@
                == "[is_trigger_alive] Trying to get for status of trigger ("@ + trigger_id@
                + "), when status value does not exist"@,
        },
{
    match status {
        Some((current, status_msg)) => {
            let alive = match current {
                TriggerStatus::Starting | TriggerStatus::Ready => true,
                _ => false,
            };
            (alive, status_msg.clone())
        },
        None => {
            let mut out = "[is_trigger_alive] Trying to get for status of trigger (".to_owned();
            out.append(trigger_id.as_str());
            out.append("), when status value does not exist");
            (false, out)
        },
    }
}

/// The reply a delete request gives after stopping a live trigger, from the
/// stop's own result.
pub fn delete_stopped_reply(trigger_id: &String, stop_result: &Result<String, String>) -> (r:
    Result<String, String>)
    ensures
        match stop_result {
            Ok(m) => r matches Ok(v) && v@ == "[handle_delete_trigger] Trigger id "@ + trigger_id@
                + " stopped. "@ + m@,
            Err(m) => r matches Err(v) && v@
                == "[handle_delete_trigger] Error while stopping Trigger id "@ + trigger_id@
                + ". "@ + m@,
        },
{
    match stop_result {
        Ok(status_msg) => {
            let mut out = "[handle_delete_trigger] Trigger id ".to_owned();
            out.append(trigger_id.as_str());
            out.append(" stopped. ");
            out.append(status_msg.as_str());
            Ok(out)
        },
        Err(status_msg) => {
            let mut out = "[handle_delete_trigger] Error while stopping Trigger id ".to_owned();
            out.append(trigger_id.as_str());
            out.append(". ");
            out.append(status_msg.as_str());
            Err(out)
        },
    }
}

/// The reply a delete request gives for a trigger that was not alive: the
/// record is still deleted, but the caller is told the delete was a cleanup.
pub fn delete_ignored_reply(trigger_id: &String, status_msg: &String) -> (r: String)
    ensures
        r@ == "[handle_delete_trigger] Ignoring delete command for trigger id "@ + trigger_id@
            + ". "@ + status_msg@,
{
    let mut out = "[handle_delete_trigger] Ignoring delete command for trigger id ".to_owned();
    out.append(trigger_id.as_str());
    out.append(". ");
    out.append(status_msg.as_str());
    out
}

/// One step of the ready-wait clock: the time left after one poll interval,
/// and whether the wait may go on.
pub fn ready_wait_tick(time_remaining: i64) -> (r: (i64, bool))
    requires
        time_remaining >= i64::MIN + 500,
    ensures
        r.0 == time_remaining - 500,
        r.1 == (r.0 >= 0),
{
    let next = time_remaining - 500;
    (next, next >= 0)
}

} // verus!
