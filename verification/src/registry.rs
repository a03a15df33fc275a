//! The supervisor registry: the single authority over trigger lifecycles.
//!
//! The registry owns three maps keyed by trigger identifier: the current
//! status of each live trigger, the set of identifiers whose actor command
//! channel is bound, and the last error of each trigger that stopped with
//! one. All mutations go through the command handlers here, which keep the
//! central invariant: an identifier is never in the status map and the error
//! map at once, a bound channel always belongs to a registered identifier,
//! and the status map never holds a terminal status (a normal stop clears
//! the record, an error moves it to the error map).
//!
//! The handlers only decide; what they cannot do themselves (hand a real
//! channel over, signal an actor) they return as effects for the caller's
//! event loop to perform.

use crate::actor::TriggerCommand;
use crate::assoc::AssocList;
use crate::status::TriggerStatus;
use crate::status::spec_status_string;
use crate::status::trigger_status_to_string;
use crate::wire::make_status_reply;
use crate::wire::spec_status_reply;
use crate::workflow::WorkflowInfo;
use vstd::prelude::*;
use vstd::string::StringExecFns;

verus! {

/// Process-wide configuration of the supervisor.
#[derive(Clone, Debug)]
pub struct TriggerManagerInfo {
    pub management_url: String,
    pub management_request_host_header: String,
    pub management_action: String,
    pub update_interval: u32,
    pub self_ip_port: String,
    pub server_url: String,
}

/// The payload of one status push to the management endpoint.
pub struct TriggerManagerStatusUpdateMessageData {
    pub action: String,
    pub self_ip_port: String,
    pub trigger_status_map: Vec<(String, TriggerStatus)>,
    pub trigger_error_map: Vec<(String, String)>,
}

/// One status push to the management endpoint.
pub struct TriggerManagerStatusUpdateMessage {
    pub action: String,
    pub data: TriggerManagerStatusUpdateMessageData,
}

/// A command sent to the supervisor registry.
#[derive(Debug)]
pub enum TriggerManagerCommand {
    RegisterTriggerId(String),
    RegisterTriggerChannel(String),
    UpdateTriggerStatus(String, TriggerStatus, String),
    GetTriggerStatus(String),
    StopTrigger(String),
    DeleteTrigger(String),
    AddWorkflows(String, Vec<WorkflowInfo>),
    RemoveWorkflows(String, Vec<WorkflowInfo>),
    StopManager,
}

/// What a command handler asks of the surrounding event loop: bind or drop
/// the real channel it holds for an identifier, signal an actor without
/// awaiting it, push a final report, or leave the loop.
pub enum RegistryEffect {
    StoreChannel(String),
    DropChannel(String),
    SignalTrigger(String, TriggerCommand),
    FinalReport(TriggerManagerStatusUpdateMessageData),
    ExitLoop,
}

/// The registry state as the specifications see it.
#[verifier::ext_equal]
pub ghost struct RegistryModel {
    pub statuses: Map<Seq<char>, TriggerStatus>,
    pub channels: Set<Seq<char>>,
    pub errors: Map<Seq<char>, Seq<char>>,
}

impl RegistryModel {
    /// The central invariant: a bound channel belongs to a registered
    /// identifier, no identifier is in the status map and the error map at
    /// once, and the status map never holds a terminal status.
    pub open spec fn wf(self) -> bool {
        &&& forall|id: Seq<char>|
            #[trigger] self.channels.contains(id) ==> self.statuses.dom().contains(id)
        &&& forall|id: Seq<char>|
            #[trigger] self.statuses.dom().contains(id) ==> !self.errors.dom().contains(id)
        &&& forall|id: Seq<char>|
            #[trigger] self.statuses.dom().contains(id) ==> !self.statuses[id].is_terminal()
    }

    /// Register an identifier: it starts in `Starting`, with no channel and
    /// no recorded error, whatever was there before.
    pub open spec fn t_register_id(self, id: Seq<char>) -> RegistryModel {
        RegistryModel {
            statuses: self.statuses.insert(id, TriggerStatus::Starting),
            channels: self.channels.remove(id),
            errors: self.errors.remove(id),
        }
    }

    /// A channel may be bound only while the trigger is starting or ready.
    pub open spec fn register_channel_ok(self, id: Seq<char>) -> bool {
        self.statuses.dom().contains(id) && self.statuses[id].is_live()
    }

    /// Bind a channel; a request for an unregistered identifier also clears
    /// any stale binding.
    pub open spec fn t_register_channel(self, id: Seq<char>) -> RegistryModel {
        if self.register_channel_ok(id) {
            RegistryModel { statuses: self.statuses, channels: self.channels.insert(id), errors: self.errors }
        } else if self.statuses.dom().contains(id) {
            self
        } else {
            RegistryModel { statuses: self.statuses, channels: self.channels.remove(id), errors: self.errors }
        }
    }

    /// An actor's status report is accepted for `Ready` only out of
    /// `Starting`, and for the two terminal statuses; actors may not report
    /// `Starting` or `Stopping`.
    pub open spec fn update_status_ok(self, id: Seq<char>, status: TriggerStatus) -> bool {
        self.statuses.dom().contains(id) && match status {
            TriggerStatus::Ready => self.statuses[id] == TriggerStatus::Starting,
            TriggerStatus::StoppedNormal => true,
            TriggerStatus::StoppedError => true,
            _ => false,
        }
    }

    /// Apply an actor's status report. A normal stop clears the record; an
    /// error stop moves the record to the error map; a report for an
    /// unregistered identifier only clears stale channel and error entries.
    pub open spec fn t_update_status(
        self,
        id: Seq<char>,
        status: TriggerStatus,
        msg: Seq<char>,
    ) -> RegistryModel {
        if !self.statuses.dom().contains(id) {
            RegistryModel {
                statuses: self.statuses,
                channels: self.channels.remove(id),
                errors: self.errors.remove(id),
            }
        } else {
            match status {
                TriggerStatus::Ready => {
                    if self.statuses[id] == TriggerStatus::Starting {
                        RegistryModel {
                            statuses: self.statuses.insert(id, TriggerStatus::Ready),
                            channels: self.channels,
                            errors: self.errors,
                        }
                    } else {
                        self
                    }
                },
                TriggerStatus::StoppedNormal => RegistryModel {
                    statuses: self.statuses.remove(id),
                    channels: self.channels.remove(id),
                    errors: self.errors.remove(id),
                },
                TriggerStatus::StoppedError => RegistryModel {
                    statuses: self.statuses.remove(id),
                    channels: self.channels.remove(id),
                    errors: self.errors.insert(id, msg),
                },
                _ => self,
            }
        }
    }

    /// What a status query reports: the current status with an empty
    /// message, the recorded error as a `StoppedError`, or nothing.
    pub open spec fn status_view(self, id: Seq<char>) -> Option<(TriggerStatus, Seq<char>)> {
        if self.statuses.dom().contains(id) {
            Some((self.statuses[id], Seq::<char>::empty()))
        } else if self.errors.dom().contains(id) {
            Some((TriggerStatus::StoppedError, self.errors[id]))
        } else {
            None
        }
    }

    /// A status query mutates nothing but a stale channel binding of an
    /// unregistered identifier.
    pub open spec fn t_get_status(self, id: Seq<char>) -> RegistryModel {
        if self.statuses.dom().contains(id) {
            self
        } else {
            RegistryModel { statuses: self.statuses, channels: self.channels.remove(id), errors: self.errors }
        }
    }

    /// Delete an identifier from all three maps, unconditionally.
    pub open spec fn t_delete(self, id: Seq<char>) -> RegistryModel {
        RegistryModel {
            statuses: self.statuses.remove(id),
            channels: self.channels.remove(id),
            errors: self.errors.remove(id),
        }
    }

    /// A stop, or a workflow-list command, is routed to the actor exactly
    /// when the trigger is registered, has a bound channel, and is live.
    pub open spec fn route_signal(self, id: Seq<char>) -> bool {
        self.statuses.dom().contains(id) && self.channels.contains(id)
            && self.statuses[id].is_live()
    }

    /// A stop is answered ok when the trigger is registered with a channel
    /// (a no-op while it is already stopping), and, as a no-op, when it
    /// already stopped with an error.
    pub open spec fn stop_ok(self, id: Seq<char>) -> bool {
        if self.statuses.dom().contains(id) {
            self.channels.contains(id)
        } else {
            self.errors.dom().contains(id)
        }
    }

    /// A workflow-list command is answered ok only for a registered trigger
    /// with a bound channel (a no-op while it is already stopping); an
    /// identifier in a terminal state — known only through the error map —
    /// is a failure.
    pub open spec fn forward_ok(self, id: Seq<char>) -> bool {
        self.statuses.dom().contains(id) && self.channels.contains(id)
    }

    /// Stop a trigger: a live, bound trigger is marked `Stopping`; a request
    /// for an unregistered identifier only clears a stale channel binding.
    pub open spec fn t_stop_trigger(self, id: Seq<char>) -> RegistryModel {
        if self.statuses.dom().contains(id) {
            if self.channels.contains(id) && self.statuses[id].is_live() {
                RegistryModel {
                    statuses: self.statuses.insert(id, TriggerStatus::Stopping),
                    channels: self.channels,
                    errors: self.errors,
                }
            } else {
                self
            }
        } else {
            RegistryModel {
                statuses: self.statuses,
                channels: self.channels.remove(id),
                errors: self.errors,
            }
        }
    }

    /// Forward a workflow-list command: the registry itself changes nothing
    /// but a stale channel binding of an unregistered identifier.
    pub open spec fn t_forward(self, id: Seq<char>) -> RegistryModel {
        if self.statuses.dom().contains(id) {
            self
        } else {
            RegistryModel {
                statuses: self.statuses,
                channels: self.channels.remove(id),
                errors: self.errors,
            }
        }
    }

    /// Begin shutdown: every registered trigger is marked `Stopping`; the
    /// channel set and the error map stay as they are.
    pub open spec fn t_shutdown(self) -> RegistryModel {
        RegistryModel {
            statuses: Map::new(
                |k: Seq<char>| self.statuses.dom().contains(k),
                |k: Seq<char>| TriggerStatus::Stopping,
            ),
            channels: self.channels,
            errors: self.errors,
        }
    }

    /// Clear the error map, after its content was reported upstream.
    pub open spec fn t_clear_errors(self) -> RegistryModel {
        RegistryModel {
            statuses: self.statuses,
            channels: self.channels,
            errors: Map::empty(),
        }
    }
}

/// No identifier is ever in the status map and the error map at once.
pub proof fn lemma_status_error_exclusive(m: RegistryModel, id: Seq<char>)
    requires
        m.wf(),
    ensures
        !(m.statuses.dom().contains(id) && m.errors.dom().contains(id)),
{
}

/// A full register, bind, ready, stop, delete sequence for one identifier
/// leaves all three maps free of that identifier.
pub proof fn lemma_create_stop_delete_clears(m: RegistryModel, id: Seq<char>)
    requires
        m.wf(),
    ensures
        ({
            let created = m.t_register_id(id).t_register_channel(id).t_update_status(
                id,
                TriggerStatus::Ready,
                Seq::<char>::empty(),
            );
            let done = created.t_stop_trigger(id).t_delete(id);
            &&& !done.statuses.dom().contains(id)
            &&& !done.channels.contains(id)
            &&& !done.errors.dom().contains(id)
        }),
{
}

/// The supervisor registry.
pub struct Registry {
    pub statuses: AssocList<TriggerStatus>,
    pub channels: AssocList<bool>,
    pub errors: AssocList<String>,
}

impl Registry {
    /// The state the specifications speak of.
    pub open spec fn model(&self) -> RegistryModel {
        RegistryModel {
            statuses: self.statuses@,
            channels: self.channels@.dom(),
            errors: self.errors@.map_values(|v: String| v@),
        }
    }

    pub open spec fn wf(&self) -> bool {
        &&& self.statuses.wf()
        &&& self.channels.wf()
        &&& self.errors.wf()
        &&& self.model().wf()
    }

    pub fn new() -> (r: Registry)
        ensures
            r.wf(),
            r.model() == (RegistryModel {
                statuses: Map::empty(),
                channels: Set::empty(),
                errors: Map::empty(),
            }),
    {
        let r = Registry {
            statuses: AssocList::new(),
            channels: AssocList::new(),
            errors: AssocList::new(),
        };
        proof {
            assert(r.model().statuses =~= Map::<Seq<char>, TriggerStatus>::empty());
            assert(r.model().channels =~= Set::<Seq<char>>::empty());
            assert(r.model().errors =~= Map::<Seq<char>, Seq<char>>::empty());
        }
        r
    }

    /// Register `trigger_id` in `Starting` state; any previous record is
    /// overwritten and stale channel and error entries are cleared.
    pub fn register_trigger_id(&mut self, trigger_id: &String) -> (r: (bool, String))
        requires
            old(self).wf(),
        ensures
            final(self).wf(),
            final(self).model() == old(self).model().t_register_id(trigger_id@),
            r.0,
            r.1@ == "ok"@,
    {
        self.statuses.insert(trigger_id.clone(), TriggerStatus::Starting);
        self.channels.remove(trigger_id);
        self.errors.remove(trigger_id);
        proof {
            let m = old(self).model().t_register_id(trigger_id@);
            assert(self.model().statuses =~= m.statuses);
            assert(self.model().channels =~= m.channels);
            assert(self.model().errors =~= m.errors);
            assert(self.model() =~= m);
        }
        (true, "ok".to_owned())
    }

    /// Bind the command channel of `trigger_id`. Succeeds exactly when the
    /// identifier's status is `Starting` or `Ready`; a failure never touches
    /// the error map.
    pub fn register_trigger_channel(&mut self, trigger_id: &String) -> (r: (bool, String))
        requires
            old(self).wf(),
        ensures
            final(self).wf(),
            final(self).model() == old(self).model().t_register_channel(trigger_id@),
            r.0 == old(self).model().register_channel_ok(trigger_id@),
            final(self).model().errors == old(self).model().errors,
            r.0 ==> r.1@ == "ok"@,
            !r.0 && old(self).model().statuses.dom().contains(trigger_id@) ==> r.1@
                == msg_register_channel_bad_state(
                trigger_id@,
                old(self).model().statuses[trigger_id@],
            ),
            !old(self).model().statuses.dom().contains(trigger_id@) ==> r.1@
                == msg_register_channel_missing(trigger_id@),
    {
        let current = self.statuses.get(trigger_id);
        match current {
            Some(status) => {
                match status {
                    TriggerStatus::Ready | TriggerStatus::Starting => {
                        self.channels.insert(trigger_id.clone(), true);
                        proof {
                            let m = old(self).model().t_register_channel(trigger_id@);
                            assert(self.model().channels =~= m.channels);
                            assert(self.model() =~= m);
                        }
                        (true, "ok".to_owned())
                    },
                    _ => {
                        let status_name = trigger_status_to_string(status);
                        let msg = concat4(
                            "[RegisterTriggerChannel] Ignoring attempt to register a channel for trigger id ",
                            trigger_id.as_str(),
                            " in state: ",
                            status_name.as_str(),
                        );
                        (false, msg)
                    },
                }
            },
            None => {
                self.channels.remove(trigger_id);
                let msg = concat2(
                    "[RegisterTriggerChannel] Ignoring attempt to register a channel for non-existent trigger id ",
                    trigger_id.as_str(),
                );
                proof {
                    let m = old(self).model().t_register_channel(trigger_id@);
                    assert(self.model().channels =~= m.channels);
                    assert(self.model() =~= m);
                }
                (false, msg)
            },
        }
    }

    /// Apply an actor's status report. `Ready` is accepted exactly out of
    /// `Starting`; the two terminal statuses are always accepted for a
    /// registered identifier and clear or move its record; `Starting` and
    /// `Stopping` are refused, actors may not report them.
    pub fn update_trigger_status(
        &mut self,
        trigger_id: &String,
        status_update: TriggerStatus,
        status_msg: String,
    ) -> (r: (bool, String))
        requires
            old(self).wf(),
        ensures
            final(self).wf(),
            final(self).model() == old(self).model().t_update_status(
                trigger_id@,
                status_update,
                status_msg@,
            ),
            r.0 == old(self).model().update_status_ok(trigger_id@, status_update),
            r.0 ==> r.1@ == "ok"@,
            !old(self).model().statuses.dom().contains(trigger_id@) ==> r.1@
                == msg_update_status_missing(trigger_id@, status_update),
            old(self).model().statuses.dom().contains(trigger_id@) && status_update
                == TriggerStatus::Ready && old(self).model().statuses[trigger_id@]
                != TriggerStatus::Starting ==> r.1@ == msg_update_status_not_starting(
                trigger_id@,
                old(self).model().statuses[trigger_id@],
            ),
            old(self).model().statuses.dom().contains(trigger_id@) && (status_update
                == TriggerStatus::Starting || status_update == TriggerStatus::Stopping) ==> r.1@
                == msg_update_status_from_actor(trigger_id@, status_update),
    {
        let current = self.statuses.get(trigger_id);
        match current {
            Some(current_status) => {
                let current_status = *current_status;
                match status_update {
                    TriggerStatus::Ready => {
                        match current_status {
                            TriggerStatus::Starting => {
                                self.statuses.insert(trigger_id.clone(), TriggerStatus::Ready);
                                proof {
                                    let m = old(self).model().t_update_status(
                                        trigger_id@,
                                        status_update,
                                        status_msg@,
                                    );
                                    assert(self.model().statuses =~= m.statuses);
                                    assert(self.model() =~= m);
                                }
                                (true, "ok".to_owned())
                            },
                            _ => {
                                let status_name = trigger_status_to_string(&current_status);
                                let msg = concat4(
                                    "[UpdateTriggerStatus] Ignoring attempt to change status of trigger id ",
                                    trigger_id.as_str(),
                                    " to Ready from ",
                                    status_name.as_str(),
                                );
                                let msg = concat2(msg.as_str(), " state");
                                (false, msg)
                            },
                        }
                    },
                    TriggerStatus::StoppedNormal => {
                        self.statuses.remove(trigger_id);
                        self.channels.remove(trigger_id);
                        self.errors.remove(trigger_id);
                        proof {
                            let m = old(self).model().t_update_status(
                                trigger_id@,
                                status_update,
                                status_msg@,
                            );
                            assert(self.model().statuses =~= m.statuses);
                            assert(self.model().channels =~= m.channels);
                            assert(self.model().errors =~= m.errors);
                            assert(self.model() =~= m);
                        }
                        (true, "ok".to_owned())
                    },
                    TriggerStatus::StoppedError => {
                        self.statuses.remove(trigger_id);
                        self.errors.insert(trigger_id.clone(), status_msg);
                        self.channels.remove(trigger_id);
                        proof {
                            let m = old(self).model().t_update_status(
                                trigger_id@,
                                status_update,
                                status_msg@,
                            );
                            assert(self.model().statuses =~= m.statuses);
                            assert(self.model().channels =~= m.channels);
                            assert(self.model().errors =~= m.errors);
                            assert(self.model() =~= m);
                        }
                        (true, "ok".to_owned())
                    },
                    _ => {
                        let status_name = trigger_status_to_string(&status_update);
                        let msg = concat4(
                            "[UpdateTriggerStatus] Ignoring attempt to change status of Trigger id ",
                            trigger_id.as_str(),
                            " to ",
                            status_name.as_str(),
                        );
                        let msg = concat2(msg.as_str(), ", from an actor");
                        (false, msg)
                    },
                }
            },
            None => {
                self.channels.remove(trigger_id);
                self.errors.remove(trigger_id);
                let status_name = trigger_status_to_string(&status_update);
                let msg = concat4(
                    "[UpdateTriggerStatus] Ignoring attempt to change status of a non existent Trigger id ",
                    trigger_id.as_str(),
                    " to ",
                    status_name.as_str(),
                );
                proof {
                    let m = old(self).model().t_update_status(
                        trigger_id@,
                        status_update,
                        status_msg@,
                    );
                    assert(self.model().channels =~= m.channels);
                    assert(self.model().errors =~= m.errors);
                    assert(self.model() =~= m);
                }
                (false, msg)
            },
        }
    }

    /// Answer a status query: the current status with an empty message, the
    /// recorded error as a synthesized `StoppedError`, or a failure naming
    /// the unknown identifier.
    pub fn get_trigger_status(&mut self, trigger_id: &String) -> (r: (bool, String))
        requires
            old(self).wf(),
        ensures
            final(self).wf(),
            final(self).model() == old(self).model().t_get_status(trigger_id@),
            r.0 == (old(self).model().status_view(trigger_id@) is Some),
            old(self).model().status_view(trigger_id@) matches Some(v) ==> r.1@
                == spec_status_reply(v.0, v.1),
            old(self).model().status_view(trigger_id@) is None ==> r.1@
                == msg_get_status_missing(trigger_id@),
    {
        let current = self.statuses.get(trigger_id);
        match current {
            Some(status) => {
                let reply = make_status_reply(status, "");
                proof {
                    reveal_strlit("");
                    assert(""@ =~= Seq::<char>::empty());
                    assert(self.model() =~= old(self).model().t_get_status(trigger_id@));
                }
                (true, reply)
            },
            None => {
                self.channels.remove(trigger_id);
                proof {
                    let m = old(self).model().t_get_status(trigger_id@);
                    assert(self.model().channels =~= m.channels);
                    assert(self.model() =~= m);
                }
                let error_msg = self.errors.get(trigger_id);
                match error_msg {
                    Some(msg) => {
                        let reply = make_status_reply(&TriggerStatus::StoppedError, msg.as_str());
                        (true, reply)
                    },
                    None => {
                        let msg = concat2(
                            "[GetTriggerStatus] Ignoring attempt to get status of a non existent Trigger id ",
                            trigger_id.as_str(),
                        );
                        (false, msg)
                    },
                }
            },
        }
    }

    /// Stop a trigger. A live trigger with a bound channel is marked
    /// `Stopping` and the caller is told to signal its actor (third result);
    /// one already stopping, or already stopped with an error, is answered
    /// ok as a no-op; anything else is a failure.
    pub fn stop_trigger(&mut self, trigger_id: &String) -> (r: (bool, String, bool))
        requires
            old(self).wf(),
        ensures
            final(self).wf(),
            final(self).model() == old(self).model().t_stop_trigger(trigger_id@),
            r.0 == old(self).model().stop_ok(trigger_id@),
            r.2 == old(self).model().route_signal(trigger_id@),
            ({
                let m = old(self).model();
                let id = trigger_id@;
                if m.statuses.dom().contains(id) {
                    if m.channels.contains(id) {
                        r.1@ == "ok"@
                    } else {
                        r.1@ == msg_route_no_channel(
                            "[StopTrigger] Ignoring attempt to stop Trigger id "@,
                            id,
                            m.statuses[id],
                        )
                    }
                } else if m.errors.dom().contains(id) {
                    r.1@ == msg_route_errored(
                        "[StopTrigger] Ignoring attempt to stop Trigger id "@,
                        id,
                        m.errors[id],
                    )
                } else {
                    r.1@ == msg_route_missing(
                        "[StopTrigger] Ignoring attempt to stop a non existent Trigger id "@,
                        id,
                    )
                }
            }),
    {
        let current = self.statuses.get(trigger_id);
        match current {
            Some(status) => {
                let status = *status;
                if self.channels.contains_key(trigger_id) {
                    match status {
                        TriggerStatus::Starting | TriggerStatus::Ready => {
                            self.statuses.insert(trigger_id.clone(), TriggerStatus::Stopping);
                            proof {
                                let m = old(self).model().t_stop_trigger(trigger_id@);
                                assert(self.model().statuses =~= m.statuses);
                                assert(self.model() =~= m);
                            }
                            (true, "ok".to_owned(), true)
                        },
                        _ => (true, "ok".to_owned(), false),
                    }
                } else {
                    let status_name = trigger_status_to_string(&status);
                    let msg = concat4(
                        "[StopTrigger] Ignoring attempt to stop Trigger id ",
                        trigger_id.as_str(),
                        " in status ",
                        status_name.as_str(),
                    );
                    let msg = concat2(msg.as_str(), ", with a non-existent channel");
                    (false, msg, false)
                }
            },
            None => {
                self.channels.remove(trigger_id);
                proof {
                    let m = old(self).model().t_stop_trigger(trigger_id@);
                    assert(self.model().channels =~= m.channels);
                    assert(self.model() =~= m);
                }
                let error_msg = self.errors.get(trigger_id);
                match error_msg {
                    Some(msg) => {
                        let out = concat4(
                            "[StopTrigger] Ignoring attempt to stop Trigger id ",
                            trigger_id.as_str(),
                            ", which stopped previously with Error: ",
                            msg.as_str(),
                        );
                        (true, out, false)
                    },
                    None => {
                        let out = concat2(
                            "[StopTrigger] Ignoring attempt to stop a non existent Trigger id ",
                            trigger_id.as_str(),
                        );
                        (false, out, false)
                    },
                }
            },
        }
    }

    /// Decide the routing of a workflow-list command: forwarded to a live,
    /// bound trigger (third result), answered ok as a no-op while stopping,
    /// and a failure otherwise — also for an identifier that stopped with an
    /// error and survives only in the error map. `p` opens the per-trigger
    /// messages and `q` the unknown-identifier message.
    fn route_workflows(&mut self, trigger_id: &String, p: &str, q: &str) -> (r: (
        bool,
        String,
        bool,
    ))
        requires
            old(self).wf(),
        ensures
            final(self).wf(),
            final(self).model() == old(self).model().t_forward(trigger_id@),
            r.0 == old(self).model().forward_ok(trigger_id@),
            r.2 == old(self).model().route_signal(trigger_id@),
            ({
                let m = old(self).model();
                let id = trigger_id@;
                if m.statuses.dom().contains(id) {
                    if m.channels.contains(id) {
                        r.1@ == "ok"@
                    } else {
                        r.1@ == msg_route_no_channel(p@, id, m.statuses[id])
                    }
                } else if m.errors.dom().contains(id) {
                    r.1@ == msg_route_errored(p@, id, m.errors[id])
                } else {
                    r.1@ == msg_route_missing(q@, id)
                }
            }),
    {
        let current = self.statuses.get(trigger_id);
        match current {
            Some(status) => {
                let status = *status;
                if self.channels.contains_key(trigger_id) {
                    match status {
                        TriggerStatus::Starting | TriggerStatus::Ready => (
                            true,
                            "ok".to_owned(),
                            true,
                        ),
                        _ => (true, "ok".to_owned(), false),
                    }
                } else {
                    let status_name = trigger_status_to_string(&status);
                    let msg = concat4(p, trigger_id.as_str(), " in status ", status_name.as_str());
                    let msg = concat2(msg.as_str(), ", with a non-existent channel");
                    (false, msg, false)
                }
            },
            None => {
                self.channels.remove(trigger_id);
                proof {
                    let m = old(self).model().t_forward(trigger_id@);
                    assert(self.model().channels =~= m.channels);
                    assert(self.model() =~= m);
                }
                let error_msg = self.errors.get(trigger_id);
                match error_msg {
                    Some(msg) => {
                        let out = concat4(
                            p,
                            trigger_id.as_str(),
                            ", which stopped previously with Error: ",
                            msg.as_str(),
                        );
                        (false, out, false)
                    },
                    None => {
                        let out = concat2(q, trigger_id.as_str());
                        (false, out, false)
                    },
                }
            },
        }
    }

    /// Route an add-workflows command; see `route_workflows`.
    pub fn add_workflows_route(&mut self, trigger_id: &String) -> (r: (bool, String, bool))
        requires
            old(self).wf(),
        ensures
            final(self).wf(),
            final(self).model() == old(self).model().t_forward(trigger_id@),
            r.0 == old(self).model().forward_ok(trigger_id@),
            r.2 == old(self).model().route_signal(trigger_id@),
            ({
                let m = old(self).model();
                let id = trigger_id@;
                if m.statuses.dom().contains(id) {
                    if m.channels.contains(id) {
                        r.1@ == "ok"@
                    } else {
                        r.1@ == msg_route_no_channel(
                            "[AddWorkflows] Ignoring attempt to add workflows for Trigger id "@,
                            id,
                            m.statuses[id],
                        )
                    }
                } else if m.errors.dom().contains(id) {
                    r.1@ == msg_route_errored(
                        "[AddWorkflows] Ignoring attempt to add workflows for Trigger id "@,
                        id,
                        m.errors[id],
                    )
                } else {
                    r.1@ == msg_route_missing(
                        "[AddWorkflows] Ignoring attempt to add workflows for a non existent Trigger id "@,
                        id,
                    )
                }
            }),
    {
        self.route_workflows(
            trigger_id,
            "[AddWorkflows] Ignoring attempt to add workflows for Trigger id ",
            "[AddWorkflows] Ignoring attempt to add workflows for a non existent Trigger id ",
        )
    }

    /// Route a remove-workflows command; see `route_workflows`.
    pub fn remove_workflows_route(&mut self, trigger_id: &String) -> (r: (bool, String, bool))
        requires
            old(self).wf(),
        ensures
            final(self).wf(),
            final(self).model() == old(self).model().t_forward(trigger_id@),
            r.0 == old(self).model().forward_ok(trigger_id@),
            r.2 == old(self).model().route_signal(trigger_id@),
            ({
                let m = old(self).model();
                let id = trigger_id@;
                if m.statuses.dom().contains(id) {
                    if m.channels.contains(id) {
                        r.1@ == "ok"@
                    } else {
                        r.1@ == msg_route_no_channel(
                            "[RemoveWorkflows] Ignoring attempt to remove workflows for Trigger id "@,
                            id,
                            m.statuses[id],
                        )
                    }
                } else if m.errors.dom().contains(id) {
                    r.1@ == msg_route_errored(
                        "[RemoveWorkflows] Ignoring attempt to remove workflows for Trigger id "@,
                        id,
                        m.errors[id],
                    )
                } else {
                    r.1@ == msg_route_missing(
                        "[RemoveWorkflows] Ignoring attempt to remove workflows for a non existent Trigger id "@,
                        id,
                    )
                }
            }),
    {
        self.route_workflows(
            trigger_id,
            "[RemoveWorkflows] Ignoring attempt to remove workflows for Trigger id ",
            "[RemoveWorkflows] Ignoring attempt to remove workflows for a non existent Trigger id ",
        )
    }

    /// Delete `trigger_id` from all three maps, unconditionally.
    pub fn delete_trigger(&mut self, trigger_id: &String) -> (r: (bool, String))
        requires
            old(self).wf(),
        ensures
            final(self).wf(),
            final(self).model() == old(self).model().t_delete(trigger_id@),
            r.0,
            r.1@ == "ok"@,
    {
        self.statuses.remove(trigger_id);
        self.channels.remove(trigger_id);
        self.errors.remove(trigger_id);
        proof {
            let m = old(self).model().t_delete(trigger_id@);
            assert(self.model().statuses =~= m.statuses);
            assert(self.model().channels =~= m.channels);
            assert(self.model().errors =~= m.errors);
            assert(self.model() =~= m);
        }
        (true, "ok".to_owned())
    }
}

/// What one supervisor command produced: the reply owed to the sender, and
/// the effects the surrounding event loop must perform.
pub struct CommandOutcome {
    pub ok: bool,
    pub message: String,
    pub effects: Vec<RegistryEffect>,
}

impl Registry {
    /// A copy of the status map's entries, for a report.
    fn status_entries(&self) -> (r: Vec<(String, TriggerStatus)>)
        ensures
            r@ == self.statuses.entries@,
    {
        let mut r: Vec<(String, TriggerStatus)> = Vec::new();
        let n = self.statuses.entries.len();
        for i in 0..n
            invariant
                n == self.statuses.entries@.len(),
                r@.len() == i,
                forall|j: int| 0 <= j < i ==> r@[j] == self.statuses.entries@[j],
        {
            let key = self.statuses.entries[i].0.clone();
            let value = self.statuses.entries[i].1;
            r.push((key, value));
        }
        proof {
            assert(r@ =~= self.statuses.entries@);
        }
        r
    }

    /// A copy of the error map's entries, for a report.
    fn error_entries(&self) -> (r: Vec<(String, String)>)
        ensures
            r@ == self.errors.entries@,
    {
        let mut r: Vec<(String, String)> = Vec::new();
        let n = self.errors.entries.len();
        for i in 0..n
            invariant
                n == self.errors.entries@.len(),
                r@.len() == i,
                forall|j: int| 0 <= j < i ==> r@[j] == self.errors.entries@[j],
        {
            let key = self.errors.entries[i].0.clone();
            let value = self.errors.entries[i].1.clone();
            r.push((key, value));
        }
        proof {
            assert(r@ =~= self.errors.entries@);
        }
        r
    }

    /// The payload of one periodic status push: the current status and error
    /// maps. The error map is cleared afterwards — its content counts as
    /// reported upstream.
    pub fn periodic_report_data(&mut self, self_ip_port: &String) -> (r:
        TriggerManagerStatusUpdateMessageData)
        requires
            old(self).wf(),
        ensures
            final(self).wf(),
            final(self).model() == old(self).model().t_clear_errors(),
            r.action@ == "status"@,
            r.self_ip_port@ == self_ip_port@,
            r.trigger_status_map@ == old(self).statuses.entries@,
            r.trigger_error_map@ == old(self).errors.entries@,
    {
        let data = TriggerManagerStatusUpdateMessageData {
            action: "status".to_owned(),
            self_ip_port: self_ip_port.clone(),
            trigger_status_map: self.status_entries(),
            trigger_error_map: self.error_entries(),
        };
        self.errors = AssocList::new();
        proof {
            let m = old(self).model().t_clear_errors();
            assert(self.model().errors =~= m.errors);
            assert(self.model() =~= m);
        }
        data
    }

    /// Begin shutdown: build the final report — an empty status map, and the
    /// error map extended by a shutdown notice for every registered trigger —
    /// mark every registered trigger `Stopping`, and name the identifiers
    /// whose actors must be signalled to stop.
    pub fn prepare_shutdown(&mut self, self_ip_port: &String) -> (r: (
        TriggerManagerStatusUpdateMessageData,
        Vec<String>,
    ))
        requires
            old(self).wf(),
        ensures
            final(self).wf(),
            final(self).model() == old(self).model().t_shutdown(),
            r.0.action@ == "stop"@,
            r.0.self_ip_port@ == self_ip_port@,
            r.0.trigger_status_map@.len() == 0,
            r.0.trigger_error_map@.len() == old(self).errors.entries@.len() + old(
                self,
            ).statuses.entries@.len(),
            forall|i: int| 0 <= i < old(self).errors.entries@.len() ==> r.0.trigger_error_map@[i]
                == old(self).errors.entries@[i],
            forall|i: int| 0 <= i < old(self).statuses.entries@.len() ==> {
                &&& (#[trigger] r.0.trigger_error_map@[old(self).errors.entries@.len() + i]).0@
                    == old(self).statuses.entries@[i].0@
                &&& r.0.trigger_error_map@[old(self).errors.entries@.len() + i].1@
                    == "TriggerFrontend shutdown initiated"@
            },
            r.1@.len() == old(self).channels.entries@.len(),
            forall|i: int| 0 <= i < r.1@.len() ==> r.1@[i] == old(self).channels.entries@[i].0,
    {
        let mut error_map = self.error_entries();
        let status_ids = self.statuses.keys();
        let ghost e_len = self.errors.entries@.len() as int;
        let n = status_ids.len();
        for i in 0..n
            invariant
                n == status_ids@.len(),
                n == old(self).statuses.entries@.len(),
                forall|j: int| 0 <= j < n ==> status_ids@[j] == old(self).statuses.entries@[j].0,
                error_map@.len() == e_len + i,
                e_len == old(self).errors.entries@.len(),
                forall|j: int| 0 <= j < e_len ==> error_map@[j] == old(self).errors.entries@[j],
                forall|j: int| 0 <= j < i ==> {
                    &&& (#[trigger] error_map@[e_len + j]).0 == old(self).statuses.entries@[j].0
                    &&& error_map@[e_len + j].1@ == "TriggerFrontend shutdown initiated"@
                },
                self == old(self),
        {
            error_map.push((status_ids[i].clone(), "TriggerFrontend shutdown initiated".to_owned()));
        }
        let channel_ids = self.channels.keys();
        let data = TriggerManagerStatusUpdateMessageData {
            action: "stop".to_owned(),
            self_ip_port: self_ip_port.clone(),
            trigger_status_map: Vec::new(),
            trigger_error_map: error_map,
        };
        let stopping_ids = self.statuses.keys();
        let ghost old_statuses = self.statuses@;
        let m = stopping_ids.len();
        for i in 0..m
            invariant
                m == stopping_ids@.len(),
                self.statuses.wf(),
                self.channels == old(self).channels,
                self.errors == old(self).errors,
                self.channels.wf(),
                self.errors.wf(),
                self.statuses@.dom() =~= old_statuses.dom(),
                forall|j: int| 0 <= j < i ==> self.statuses@[stopping_ids@[j]@]
                    == TriggerStatus::Stopping,
                forall|j: int| 0 <= j < m ==> old_statuses.contains_key(
                    #[trigger] stopping_ids@[j]@,
                ),
                forall|k: Seq<char>| #[trigger] old_statuses.contains_key(k) ==> exists|j: int|
                    0 <= j < m && stopping_ids@[j]@ == k,
        {
            let ghost before = self.statuses@;
            self.statuses.insert(stopping_ids[i].clone(), TriggerStatus::Stopping);
            proof {
                assert(self.statuses@.dom() =~= before.dom());
            }
        }
        proof {
            let target = old(self).model().t_shutdown();
            assert forall|k: Seq<char>| #[trigger] self.statuses@.dom().contains(k) implies
                self.statuses@[k] == TriggerStatus::Stopping by {
                let j = choose|j: int| 0 <= j < m && stopping_ids@[j]@ == k;
            }
            assert(self.model().statuses =~= target.statuses);
            assert(self.model() =~= target);
        }
        (data, channel_ids)
    }
}

impl Registry {
    /// Serve one supervisor command: apply it to the registry, and hand the
    /// caller the reply and the effects its event loop owes — binding or
    /// dropping the real channel, detached signals to actors, and, for
    /// `StopManager`, the final report and the order to leave the loop.
    pub fn handle_command(&mut self, cmd: TriggerManagerCommand, self_ip_port: &String) -> (r:
        CommandOutcome)
        requires
            old(self).wf(),
        ensures
            final(self).wf(),
            ({
                let m = old(self).model();
                match cmd {
                    TriggerManagerCommand::RegisterTriggerId(id) => {
                        &&& final(self).model() == m.t_register_id(id@)
                        &&& r.ok
                        &&& r.message@ == "ok"@
                        &&& r.effects@ =~= seq![RegistryEffect::DropChannel(id)]
                    },
                    TriggerManagerCommand::RegisterTriggerChannel(id) => {
                        &&& final(self).model() == m.t_register_channel(id@)
                        &&& r.ok == m.register_channel_ok(id@)
                        &&& final(self).model().errors == m.errors
                        &&& (r.ok ==> r.message@ == "ok"@ && r.effects@ =~= seq![
                            RegistryEffect::StoreChannel(id),
                        ])
                        &&& (!r.ok && m.statuses.dom().contains(id@) ==> r.message@
                            == msg_register_channel_bad_state(id@, m.statuses[id@])
                            && r.effects@.len() == 0)
                        &&& (!m.statuses.dom().contains(id@) ==> r.message@
                            == msg_register_channel_missing(id@) && r.effects@ =~= seq![
                            RegistryEffect::DropChannel(id),
                        ])
                    },
                    TriggerManagerCommand::UpdateTriggerStatus(id, status, msg) => {
                        &&& final(self).model() == m.t_update_status(id@, status, msg@)
                        &&& r.ok == m.update_status_ok(id@, status)
                        &&& (r.ok ==> r.message@ == "ok"@)
                        &&& (!m.statuses.dom().contains(id@) || (r.ok && status
                            is StoppedNormal) || (r.ok && status is StoppedError)
                            ==> r.effects@ =~= seq![RegistryEffect::DropChannel(id)])
                        &&& (m.statuses.dom().contains(id@) && !r.ok ==> r.effects@.len() == 0)
                    },
                    TriggerManagerCommand::GetTriggerStatus(id) => {
                        &&& final(self).model() == m.t_get_status(id@)
                        &&& r.ok == (m.status_view(id@) is Some)
                        &&& (m.status_view(id@) matches Some(v) ==> r.message@
                            == spec_status_reply(v.0, v.1))
                        &&& (m.status_view(id@) is None ==> r.message@ == msg_get_status_missing(
                            id@,
                        ))
                        &&& (m.statuses.dom().contains(id@) ==> r.effects@.len() == 0)
                        &&& (!m.statuses.dom().contains(id@) ==> r.effects@ =~= seq![
                            RegistryEffect::DropChannel(id),
                        ])
                    },
                    TriggerManagerCommand::StopTrigger(id) => {
                        &&& final(self).model() == m.t_stop_trigger(id@)
                        &&& r.ok == m.stop_ok(id@)
                        &&& (m.route_signal(id@) ==> r.effects@ =~= seq![
                            RegistryEffect::SignalTrigger(id, TriggerCommand::Stop),
                        ])
                        &&& (!m.route_signal(id@) && !m.statuses.dom().contains(id@)
                            ==> r.effects@ =~= seq![RegistryEffect::DropChannel(id)])
                        &&& (!m.route_signal(id@) && m.statuses.dom().contains(id@)
                            ==> r.effects@.len() == 0)
                    },
                    TriggerManagerCommand::DeleteTrigger(id) => {
                        &&& final(self).model() == m.t_delete(id@)
                        &&& r.ok
                        &&& r.message@ == "ok"@
                        &&& r.effects@ =~= seq![RegistryEffect::DropChannel(id)]
                    },
                    TriggerManagerCommand::AddWorkflows(id, workflows) => {
                        &&& final(self).model() == m.t_forward(id@)
                        &&& r.ok == m.forward_ok(id@)
                        &&& (m.route_signal(id@) ==> r.effects@ =~= seq![
                            RegistryEffect::SignalTrigger(
                                id,
                                TriggerCommand::AddWorkflows(workflows),
                            ),
                        ])
                        &&& (!m.route_signal(id@) && !m.statuses.dom().contains(id@)
                            ==> r.effects@ =~= seq![RegistryEffect::DropChannel(id)])
                        &&& (!m.route_signal(id@) && m.statuses.dom().contains(id@)
                            ==> r.effects@.len() == 0)
                    },
                    TriggerManagerCommand::RemoveWorkflows(id, workflows) => {
                        &&& final(self).model() == m.t_forward(id@)
                        &&& r.ok == m.forward_ok(id@)
                        &&& (m.route_signal(id@) ==> r.effects@ =~= seq![
                            RegistryEffect::SignalTrigger(
                                id,
                                TriggerCommand::RemoveWorkflows(workflows),
                            ),
                        ])
                        &&& (!m.route_signal(id@) && !m.statuses.dom().contains(id@)
                            ==> r.effects@ =~= seq![RegistryEffect::DropChannel(id)])
                        &&& (!m.route_signal(id@) && m.statuses.dom().contains(id@)
                            ==> r.effects@.len() == 0)
                    },
                    TriggerManagerCommand::StopManager => {
                        &&& final(self).model() == m.t_shutdown()
                        &&& r.ok
                        &&& r.message@ == "ok"@
                        &&& r.effects@.len() == old(self).channels.entries@.len() + 2
                        &&& (r.effects@[0] matches RegistryEffect::FinalReport(d) && {
                            &&& d.action@ == "stop"@
                            &&& d.self_ip_port@ == self_ip_port@
                            &&& d.trigger_status_map@.len() == 0
                            &&& d.trigger_error_map@.len() == old(self).errors.entries@.len()
                                + old(self).statuses.entries@.len()
                            &&& (forall|i: int| 0 <= i < old(self).errors.entries@.len()
                                ==> d.trigger_error_map@[i] == old(self).errors.entries@[i])
                            &&& (forall|i: int| 0 <= i < old(self).statuses.entries@.len() ==> {
                                &&& (#[trigger] d.trigger_error_map@[old(
                                    self,
                                ).errors.entries@.len() + i]).0@ == old(
                                    self,
                                ).statuses.entries@[i].0@
                                &&& d.trigger_error_map@[old(self).errors.entries@.len() + i].1@
                                    == "TriggerFrontend shutdown initiated"@
                            })
                        })
                        &&& (forall|i: int| 0 <= i < old(self).channels.entries@.len() ==> {
                            &&& (#[trigger] r.effects@[1 + i]) matches
                                RegistryEffect::SignalTrigger(cid, c)
                            &&& (r.effects@[1 + i] matches RegistryEffect::SignalTrigger(cid, c)
                                ==> cid@ == old(self).channels.entries@[i].0@ && c is Stop)
                        })
                        &&& r.effects@[r.effects@.len() - 1] is ExitLoop
                    },
                }
            }),
    {
        match cmd {
            TriggerManagerCommand::RegisterTriggerId(id) => {
                let (ok, message) = self.register_trigger_id(&id);
                CommandOutcome { ok, message, effects: vec![RegistryEffect::DropChannel(id)] }
            },
            TriggerManagerCommand::RegisterTriggerChannel(id) => {
                let missing = !self.statuses.contains_key(&id);
                let (ok, message) = self.register_trigger_channel(&id);
                let mut effects: Vec<RegistryEffect> = Vec::new();
                if ok {
                    effects.push(RegistryEffect::StoreChannel(id));
                } else if missing {
                    effects.push(RegistryEffect::DropChannel(id));
                }
                CommandOutcome { ok, message, effects }
            },
            TriggerManagerCommand::UpdateTriggerStatus(id, status, msg) => {
                let missing = !self.statuses.contains_key(&id);
                let (ok, message) = self.update_trigger_status(&id, status, msg);
                let mut effects: Vec<RegistryEffect> = Vec::new();
                let terminal = match status {
                    TriggerStatus::StoppedNormal | TriggerStatus::StoppedError => true,
                    _ => false,
                };
                if missing || (ok && terminal) {
                    effects.push(RegistryEffect::DropChannel(id));
                }
                CommandOutcome { ok, message, effects }
            },
            TriggerManagerCommand::GetTriggerStatus(id) => {
                let missing = !self.statuses.contains_key(&id);
                let (ok, message) = self.get_trigger_status(&id);
                let mut effects: Vec<RegistryEffect> = Vec::new();
                if missing {
                    effects.push(RegistryEffect::DropChannel(id));
                }
                CommandOutcome { ok, message, effects }
            },
            TriggerManagerCommand::StopTrigger(id) => {
                let missing = !self.statuses.contains_key(&id);
                let (ok, message, signal) = self.stop_trigger(&id);
                let mut effects: Vec<RegistryEffect> = Vec::new();
                if signal {
                    effects.push(RegistryEffect::SignalTrigger(id, TriggerCommand::Stop));
                } else if missing {
                    effects.push(RegistryEffect::DropChannel(id));
                }
                CommandOutcome { ok, message, effects }
            },
            TriggerManagerCommand::DeleteTrigger(id) => {
                let (ok, message) = self.delete_trigger(&id);
                CommandOutcome { ok, message, effects: vec![RegistryEffect::DropChannel(id)] }
            },
            TriggerManagerCommand::AddWorkflows(id, workflows) => {
                let missing = !self.statuses.contains_key(&id);
                let (ok, message, signal) = self.add_workflows_route(&id);
                let mut effects: Vec<RegistryEffect> = Vec::new();
                if signal {
                    effects.push(
                        RegistryEffect::SignalTrigger(id, TriggerCommand::AddWorkflows(workflows)),
                    );
                } else if missing {
                    effects.push(RegistryEffect::DropChannel(id));
                }
                CommandOutcome { ok, message, effects }
            },
            TriggerManagerCommand::RemoveWorkflows(id, workflows) => {
                let missing = !self.statuses.contains_key(&id);
                let (ok, message, signal) = self.remove_workflows_route(&id);
                let mut effects: Vec<RegistryEffect> = Vec::new();
                if signal {
                    effects.push(
                        RegistryEffect::SignalTrigger(
                            id,
                            TriggerCommand::RemoveWorkflows(workflows),
                        ),
                    );
                } else if missing {
                    effects.push(RegistryEffect::DropChannel(id));
                }
                CommandOutcome { ok, message, effects }
            },
            TriggerManagerCommand::StopManager => {
                let (data, channel_ids) = self.prepare_shutdown(self_ip_port);
                let mut effects: Vec<RegistryEffect> = Vec::new();
                effects.push(RegistryEffect::FinalReport(data));
                let ghost first_effect = effects@[0];
                let n = channel_ids.len();
                for i in 0..n
                    invariant
                        n == channel_ids@.len(),
                        effects@.len() == 1 + i,
                        effects@[0] == first_effect,
                        forall|j: int| 0 <= j < n ==> channel_ids@[j] == old(
                            self,
                        ).channels.entries@[j].0,
                        forall|j: int| 0 <= j < i ==> {
                            &&& (#[trigger] effects@[1 + j]) matches
                                RegistryEffect::SignalTrigger(cid, c)
                            &&& (effects@[1 + j] matches RegistryEffect::SignalTrigger(cid, c)
                                ==> cid@ == old(self).channels.entries@[j].0@ && c is Stop)
                        },
                {
                    effects.push(
                        RegistryEffect::SignalTrigger(channel_ids[i].clone(), TriggerCommand::Stop),
                    );
                }
                effects.push(RegistryEffect::ExitLoop);
                CommandOutcome { ok: true, message: "ok".to_owned(), effects }
            },
        }
    }
}

/// The rejection a channel registration gets while the trigger is neither
/// starting nor ready.
pub open spec fn msg_register_channel_bad_state(id: Seq<char>, status: TriggerStatus) -> Seq<char> {
    "[RegisterTriggerChannel] Ignoring attempt to register a channel for trigger id "@ + id
        + " in state: "@ + spec_status_string(status)
}

/// The rejection a channel registration gets for an unregistered identifier.
pub open spec fn msg_register_channel_missing(id: Seq<char>) -> Seq<char> {
    "[RegisterTriggerChannel] Ignoring attempt to register a channel for non-existent trigger id "@
        + id
}

/// The rejection a `Ready` report gets when the trigger was not `Starting`.
pub open spec fn msg_update_status_not_starting(id: Seq<char>, current: TriggerStatus) -> Seq<char> {
    "[UpdateTriggerStatus] Ignoring attempt to change status of trigger id "@ + id
        + " to Ready from "@ + spec_status_string(current) + " state"@
}

/// The rejection a `Starting` or `Stopping` report from an actor gets.
pub open spec fn msg_update_status_from_actor(id: Seq<char>, status: TriggerStatus) -> Seq<char> {
    "[UpdateTriggerStatus] Ignoring attempt to change status of Trigger id "@ + id + " to "@
        + spec_status_string(status) + ", from an actor"@
}

/// The rejection a status report for an unregistered identifier gets.
pub open spec fn msg_update_status_missing(id: Seq<char>, status: TriggerStatus) -> Seq<char> {
    "[UpdateTriggerStatus] Ignoring attempt to change status of a non existent Trigger id "@ + id
        + " to "@ + spec_status_string(status)
}

/// The failure a status query for an unknown identifier gets.
pub open spec fn msg_get_status_missing(id: Seq<char>) -> Seq<char> {
    "[GetTriggerStatus] Ignoring attempt to get status of a non existent Trigger id "@ + id
}

/// The failure a routed command gets while the trigger has no bound channel.
pub open spec fn msg_route_no_channel(p: Seq<char>, id: Seq<char>, status: TriggerStatus) -> Seq<
    char,
> {
    p + id + " in status "@ + spec_status_string(status) + ", with a non-existent channel"@
}

/// The no-op reply a routed command gets after an error stop.
pub open spec fn msg_route_errored(p: Seq<char>, id: Seq<char>, error_msg: Seq<char>) -> Seq<char> {
    p + id + ", which stopped previously with Error: "@ + error_msg
}

/// The failure a routed command gets for an unknown identifier.
pub open spec fn msg_route_missing(q: Seq<char>, id: Seq<char>) -> Seq<char> {
    q + id
}

/// Glue two string slices.
fn concat2(a: &str, b: &str) -> (r: String)
    ensures
        r@ == a@ + b@,
{
    let mut out = a.to_owned();
    out.append(b);
    out
}

/// Glue four string slices, left to right.
fn concat4(a: &str, b: &str, c: &str, d: &str) -> (r: String)
    ensures
        r@ == a@ + b@ + c@ + d@,
{
    let mut out = a.to_owned();
    out.append(b);
    out.append(c);
    out.append(d);
    out
}

} // verus!
