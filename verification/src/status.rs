//! The lifecycle status of a registered trigger.

use vstd::prelude::*;

verus! {

/// Lifecycle status of one trigger. Exactly one status value exists per
/// registered identifier at any instant (or none, if the trigger was
/// deleted or moved to the error map).
#[derive(Clone, Copy, Debug, PartialEq, Eq, Structural)]
pub enum TriggerStatus {
    Starting,
    Ready,
    Stopping,
    StoppedNormal,
    StoppedError,
}

impl TriggerStatus {
    /// True for the two states in which a trigger accepts commands.
    pub open spec fn is_live(self) -> bool {
        self == TriggerStatus::Starting || self == TriggerStatus::Ready
    }

    /// True for the two states a trigger can never leave.
    pub open spec fn is_terminal(self) -> bool {
        self == TriggerStatus::StoppedNormal || self == TriggerStatus::StoppedError
    }
}

/// The display name of each status value.
pub open spec fn spec_status_string(status: TriggerStatus) -> Seq<char> {
    match status {
        TriggerStatus::Starting => "Starting"@,
        TriggerStatus::Ready => "Ready"@,
        TriggerStatus::Stopping => "Stopping"@,
        TriggerStatus::StoppedNormal => "StoppedNormal"@,
        TriggerStatus::StoppedError => "StoppedError"@,
    }
}

/// The status named by a string; unrecognized names fall back to
/// `StoppedNormal`.
pub open spec fn spec_status_of_string(s: Seq<char>) -> TriggerStatus {
    if s == "Starting"@ {
        TriggerStatus::Starting
    } else if s == "Ready"@ {
        TriggerStatus::Ready
    } else if s == "Stopping"@ {
        TriggerStatus::Stopping
    } else if s == "StoppedNormal"@ {
        TriggerStatus::StoppedNormal
    } else if s == "StoppedError"@ {
        TriggerStatus::StoppedError
    } else {
        TriggerStatus::StoppedNormal
    }
}

pub fn trigger_status_to_string(status: &TriggerStatus) -> (r: String)
    ensures
        r@ == spec_status_string(*status),
{
    match status {
        TriggerStatus::Starting => "Starting".to_owned(),
        TriggerStatus::Ready => "Ready".to_owned(),
        TriggerStatus::Stopping => "Stopping".to_owned(),
        TriggerStatus::StoppedNormal => "StoppedNormal".to_owned(),
        TriggerStatus::StoppedError => "StoppedError".to_owned(),
    }
}

pub fn string_to_trigger_status(status: &String) -> (r: TriggerStatus)
    ensures
        r == spec_status_of_string(status@),
{
    if *status == "Starting".to_owned() {
        TriggerStatus::Starting
    } else if *status == "Ready".to_owned() {
        TriggerStatus::Ready
    } else if *status == "Stopping".to_owned() {
        TriggerStatus::Stopping
    } else if *status == "StoppedNormal".to_owned() {
        TriggerStatus::StoppedNormal
    } else if *status == "StoppedError".to_owned() {
        TriggerStatus::StoppedError
    } else {
        TriggerStatus::StoppedNormal
    }
}

/// The status a name denotes, exactly: unlike `string_to_trigger_status`,
/// an unknown name yields nothing rather than a fallback.
pub fn status_name_lookup(name: &String) -> (r: Option<TriggerStatus>)
    ensures
        r matches Some(st) ==> name@ == spec_status_string(st),
        r is None ==> forall|st: TriggerStatus| name@ != #[trigger] spec_status_string(st),
{
    if *name == "Starting".to_owned() {
        Some(TriggerStatus::Starting)
    } else if *name == "Ready".to_owned() {
        Some(TriggerStatus::Ready)
    } else if *name == "Stopping".to_owned() {
        Some(TriggerStatus::Stopping)
    } else if *name == "StoppedNormal".to_owned() {
        Some(TriggerStatus::StoppedNormal)
    } else if *name == "StoppedError".to_owned() {
        Some(TriggerStatus::StoppedError)
    } else {
        proof {
            assert forall|st: TriggerStatus| name@ != #[trigger] spec_status_string(st) by {
                if st is Starting {
                } else if st is Ready {
                } else if st is Stopping {
                } else if st is StoppedNormal {
                } else {
                }
            }
        }
        None
    }
}

/// No status name contains a double quote.
pub proof fn lemma_status_name_has_no_quote(st: TriggerStatus)
    ensures
        forall|k: int| 0 <= k < spec_status_string(st).len() ==> #[trigger] spec_status_string(
            st,
        )[k] != '"',
{
    reveal_strlit("Starting");
    reveal_strlit("Ready");
    reveal_strlit("Stopping");
    reveal_strlit("StoppedNormal");
    reveal_strlit("StoppedError");
}

/// Converting a status to its name and back yields the same status: the
/// five names are pairwise distinct, so the round trip is exact.
pub proof fn lemma_status_string_round_trip(status: TriggerStatus)
    ensures
        spec_status_of_string(spec_status_string(status)) == status,
{
    reveal_strlit("Starting");
    reveal_strlit("Ready");
    reveal_strlit("Stopping");
    reveal_strlit("StoppedNormal");
    reveal_strlit("StoppedError");
    assert("Starting"@ != "Stopping"@) by {
        assert("Starting"@[2] != "Stopping"@[2]);
    }
    assert("Starting"@.len() == 8);
    assert("Ready"@.len() == 5);
    assert("Stopping"@.len() == 8);
    assert("StoppedNormal"@.len() == 13);
    assert("StoppedError"@.len() == 12);
}

} // verus!
