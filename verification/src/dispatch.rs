//! Construction of the messages delivered to workflow targets.
//!
//! For one decoded event, the dispatcher owes every workflow target one
//! delivery: a JSON message naming the trigger, the target and the event
//! source, carrying the payload. Sending is left to the caller; this module
//! builds the deliveries and states exactly what each one holds.

use crate::wire::escape_json;
use crate::wire::json_escape;
use crate::workflow::WorkflowInfo;
use vstd::prelude::*;
use vstd::string::StringExecFns;

verus! {

/// The JSON message posted to one workflow target for one event.
#[derive(Debug)]
pub struct TriggerWorkflowMessage {
    pub trigger_status: String,
    pub trigger_type: String,
    pub trigger_name: String,
    pub workflow_name: String,
    pub source: String,
    pub data: String,
}

/// The JSON form of a workflow message: one object, the six fields in
/// declaration order, every value escaped.
pub open spec fn spec_workflow_message_json(
    trigger_status: Seq<char>,
    trigger_type: Seq<char>,
    trigger_name: Seq<char>,
    workflow_name: Seq<char>,
    source: Seq<char>,
    data: Seq<char>,
) -> Seq<char> {
    "{\"trigger_status\":\""@ + json_escape(trigger_status) + "\",\"trigger_type\":\""@
        + json_escape(trigger_type) + "\",\"trigger_name\":\""@ + json_escape(trigger_name)
        + "\",\"workflow_name\":\""@ + json_escape(workflow_name) + "\",\"source\":\""@
        + json_escape(source) + "\",\"data\":\""@ + json_escape(data) + "\"}"@
}

impl TriggerWorkflowMessage {
    /// Write this message as JSON.
    pub fn to_json(&self) -> (r: String)
        ensures
            r@ == spec_workflow_message_json(
                self.trigger_status@,
                self.trigger_type@,
                self.trigger_name@,
                self.workflow_name@,
                self.source@,
                self.data@,
            ),
    {
        let mut out = "{\"trigger_status\":\"".to_owned();
        let part = escape_json(self.trigger_status.as_str());
        out.append(part.as_str());
        out.append("\",\"trigger_type\":\"");
        let part = escape_json(self.trigger_type.as_str());
        out.append(part.as_str());
        out.append("\",\"trigger_name\":\"");
        let part = escape_json(self.trigger_name.as_str());
        out.append(part.as_str());
        out.append("\",\"workflow_name\":\"");
        let part = escape_json(self.workflow_name.as_str());
        out.append(part.as_str());
        out.append("\",\"source\":\"");
        let part = escape_json(self.source.as_str());
        out.append(part.as_str());
        out.append("\",\"data\":\"");
        let part = escape_json(self.data.as_str());
        out.append(part.as_str());
        out.append("\"}");
        proof {
            assert(out@ =~= spec_workflow_message_json(
                self.trigger_status@,
                self.trigger_type@,
                self.trigger_name@,
                self.workflow_name@,
                self.source@,
                self.data@,
            ));
        }
        out
    }
}

/// One outbound delivery: the target URL, the JSON body, and the target's
/// delivery-state blob for the custom headers.
#[derive(Debug)]
pub struct Delivery {
    pub url: String,
    pub body: String,
    pub workflow_state: String,
}

/// The body owed to target `w` for an event of `data` from `source`.
pub open spec fn spec_delivery_body(
    trigger_type: Seq<char>,
    trigger_name: Seq<char>,
    w: WorkflowInfo,
    source: Seq<char>,
    data: Seq<char>,
) -> Seq<char> {
    spec_workflow_message_json(
        "ready"@,
        trigger_type,
        trigger_name,
        w.workflow_name@,
        source,
        data,
    )
}

/// Build one delivery per workflow target for one decoded event: the target's
/// URL and state blob, and a message naming the target.
pub fn build_deliveries(
    trigger_type: &str,
    trigger_name: &String,
    source: &str,
    data: &str,
    workflows: &Vec<WorkflowInfo>,
) -> (r: Vec<Delivery>)
    ensures
        r@.len() == workflows@.len(),
        forall|i: int| 0 <= i < r@.len() ==> {
            &&& (#[trigger] r@[i]).url@ == workflows@[i].workflow_url@
            &&& r@[i].workflow_state@ == workflows@[i].workflow_state@
            &&& r@[i].body@ == spec_delivery_body(
                trigger_type@,
                trigger_name@,
                workflows@[i],
                source@,
                data@,
            )
        },
{
    let mut out: Vec<Delivery> = Vec::new();
    let n = workflows.len();
    for i in 0..n
        invariant
            n == workflows@.len(),
            out@.len() == i,
            forall|j: int| 0 <= j < i ==> {
                &&& (#[trigger] out@[j]).url@ == workflows@[j].workflow_url@
                &&& out@[j].workflow_state@ == workflows@[j].workflow_state@
                &&& out@[j].body@ == spec_delivery_body(
                    trigger_type@,
                    trigger_name@,
                    workflows@[j],
                    source@,
                    data@,
                )
            },
    {
        let msg = TriggerWorkflowMessage {
            trigger_status: "ready".to_owned(),
            trigger_type: trigger_type.to_owned(),
            trigger_name: trigger_name.clone(),
            workflow_name: workflows[i].workflow_name.clone(),
            source: source.to_owned(),
            data: data.to_owned(),
        };
        let body = msg.to_json();
        out.push(Delivery {
            url: workflows[i].workflow_url.clone(),
            body,
            workflow_state: workflows[i].workflow_state.clone(),
        });
    }
    out
}

/// The custom headers a delivery carries when its target has a
/// delivery-state blob: the action tag, and the blob itself; none otherwise.
pub fn customer_headers(workflow_state: &String) -> (r: Vec<(String, String)>)
    ensures
        workflow_state@.len() == 0 ==> r@.len() == 0,
        workflow_state@.len() > 0 ==> {
            &&& r@.len() == 2
            &&& r@[0].0@ == "x-mfn-action"@
            &&& r@[0].1@ == "trigger-event"@
            &&& r@[1].0@ == "x-mfn-action-data"@
            &&& r@[1].1@ == workflow_state@
        },
{
    let mut headers: Vec<(String, String)> = Vec::new();
    if workflow_state.as_str().is_empty() {
        return headers;
    }
    headers.push(("x-mfn-action".to_owned(), "trigger-event".to_owned()));
    headers.push(("x-mfn-action-data".to_owned(), workflow_state.clone()));
    headers
}

/// What decoding a byte payload as UTF-8 yields; a function of the bytes
/// alone.
pub uninterp spec fn utf8_decoded(b: Seq<u8>) -> Option<Seq<char>>;

/// Relies on String::from_utf8: the characters decoded from the bytes, or
/// nothing when the bytes are not valid UTF-8.
#[verifier::external_body]
fn decode_utf8(bytes: Vec<u8>) -> (r: Option<String>)
    ensures
        r is Some <==> utf8_decoded(bytes@) is Some,
        r matches Some(s) ==> utf8_decoded(bytes@) == Some(s@),
{
    String::from_utf8(bytes).ok()
}

/// Build the deliveries for one raw event payload. A payload that is not
/// valid UTF-8 yields nothing: the event is dropped without dispatching.
pub fn event_deliveries(
    trigger_type: &str,
    trigger_name: &String,
    source: &str,
    payload: Vec<u8>,
    workflows: &Vec<WorkflowInfo>,
) -> (r: Option<Vec<Delivery>>)
    ensures
        r is Some <==> utf8_decoded(payload@) is Some,
        r matches Some(ds) ==> {
            &&& utf8_decoded(payload@) matches Some(text)
            &&& ds@.len() == workflows@.len()
            &&& forall|i: int| 0 <= i < ds@.len() ==> {
                &&& (#[trigger] ds@[i]).url@ == workflows@[i].workflow_url@
                &&& ds@[i].workflow_state@ == workflows@[i].workflow_state@
                &&& ds@[i].body@ == spec_delivery_body(
                    trigger_type@,
                    trigger_name@,
                    workflows@[i],
                    source@,
                    text,
                )
            }
        },
{
    let ghost payload_bytes = payload@;
    match decode_utf8(payload) {
        Some(text) => Some(
            build_deliveries(trigger_type, trigger_name, source, text.as_str(), workflows),
        ),
        None => None,
    }
}

} // verus!
