//! The command protocol of a trigger actor.
//!
//! Each trigger actor owns a private workflow list and answers the same
//! closed set of commands, whatever its event source. Handling a command
//! never fails: every command is answered with an ok reply, `Stop` asks the
//! actor to tear down and report a normal stop, and the workflow commands
//! mutate the private list.

use crate::status::TriggerStatus;
use crate::workflow::WorkflowInfo;
use crate::workflow::add_targets;
use crate::workflow::add_workflows;
use crate::workflow::remove_targets;
use crate::workflow::remove_workflows;
use vstd::prelude::*;
use vstd::string::StringExecFns;

verus! {

/// A command sent to one trigger actor over its command channel.
#[derive(Debug)]
pub enum TriggerCommand {
    Status,
    Stop,
    AddWorkflows(Vec<WorkflowInfo>),
    RemoveWorkflows(Vec<WorkflowInfo>),
}

/// What one command asks of the actor loop: the reply to send, whether to
/// leave the loop, and which status to report to the supervisor afterwards.
pub struct ActorStep {
    pub reply_ok: bool,
    pub reply_message: String,
    pub exit: bool,
    pub report: Option<TriggerStatus>,
}

/// An error carried out of an actor loop.
#[derive(Debug)]
pub struct TriggerError {
    pub err_msg: String,
}

impl TriggerError {
    /// The error's message.
    pub fn message(&self) -> (r: String)
        ensures
            r@ == self.err_msg@,
    {
        self.err_msg.clone()
    }
}

/// Apply one command to the actor's private workflow list.
///
/// Every command is answered `(true, "ok")`. `Stop` ends the loop and has
/// the actor report a normal stop; the workflow commands rewrite the list;
/// `Status` only confirms liveness.
pub fn actor_handle_command(workflows: &mut Vec<WorkflowInfo>, cmd: TriggerCommand) -> (r: ActorStep)
    requires
        old(workflows)@.len() + cmd_workflow_count(cmd) <= isize::MAX as int,
    ensures
        r.reply_ok,
        r.reply_message@ == "ok"@,
        r.exit == (cmd is Stop),
        r.report == (if cmd is Stop {
            Some(TriggerStatus::StoppedNormal)
        } else {
            None::<TriggerStatus>
        }),
        final(workflows)@ == (match cmd {
            TriggerCommand::AddWorkflows(ws) => add_targets(old(workflows)@, ws@),
            TriggerCommand::RemoveWorkflows(ws) => remove_targets(old(workflows)@, ws@),
            _ => old(workflows)@,
        }),
{
    match cmd {
        TriggerCommand::Status => ActorStep {
            reply_ok: true,
            reply_message: "ok".to_owned(),
            exit: false,
            report: None,
        },
        TriggerCommand::Stop => ActorStep {
            reply_ok: true,
            reply_message: "ok".to_owned(),
            exit: true,
            report: Some(TriggerStatus::StoppedNormal),
        },
        TriggerCommand::AddWorkflows(ws) => {
            add_workflows(workflows, &ws);
            ActorStep {
                reply_ok: true,
                reply_message: "ok".to_owned(),
                exit: false,
                report: None,
            }
        },
        TriggerCommand::RemoveWorkflows(ws) => {
            remove_workflows(workflows, &ws);
            ActorStep {
                reply_ok: true,
                reply_message: "ok".to_owned(),
                exit: false,
                report: None,
            }
        },
    }
}

/// How many workflows a command can add to the list.
pub open spec fn cmd_workflow_count(cmd: TriggerCommand) -> int {
    match cmd {
        TriggerCommand::AddWorkflows(ws) => ws@.len() as int,
        _ => 0,
    }
}

/// The status update an actor's outer wrapper owes the supervisor once the
/// inner loop has returned: nothing after a clean exit, a `StoppedError`
/// carrying `"Error: "` and the loop's message otherwise.
pub fn retry_outcome(res: &Result<(), TriggerError>) -> (r: Option<(TriggerStatus, String)>)
    ensures
        match res {
            Ok(_) => r is None,
            Err(e) => {
                &&& r is Some
                &&& r->Some_0.0 == TriggerStatus::StoppedError
                &&& r->Some_0.1@ == "Error: "@ + e.err_msg@
            },
        },
{
    match res {
        Ok(_) => None,
        Err(e) => {
            let mut msg = "Error: ".to_owned();
            msg.append(e.err_msg.as_str());
            Some((TriggerStatus::StoppedError, msg))
        },
    }
}

/// The error an actor loop returns when its own command channel closes,
/// meaning the supervisor side was dropped.
pub fn channel_closed_error(loop_name: &str, trigger_id: &String) -> (r: TriggerError)
    ensures
        r.err_msg@ == "["@ + loop_name@ + "] Trigger id "@ + trigger_id@
            + ", None recv on command channel"@,
{
    let mut msg = "[".to_owned();
    msg.append(loop_name);
    msg.append("] Trigger id ");
    msg.append(trigger_id.as_str());
    msg.append(", None recv on command channel");
    TriggerError { err_msg: msg }
}

} // verus!
