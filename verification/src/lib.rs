//! Supervision and lifecycle coordination for event triggers.
//!
//! A trigger subscribes to one event source (a message queue, a pub/sub
//! broker, or an interval timer) and fans each received event out to a list
//! of workflow targets. This crate holds the verified core: the registry
//! state machine that owns each trigger's lifecycle status, the command
//! protocol shared by all trigger kinds, parameter validation, and the
//! construction of the messages delivered to workflow targets. The
//! asynchronous plumbing (channels, HTTP, broker clients) lives outside.

pub mod actor;
pub mod amqp;
pub mod assoc;
pub mod dispatch;
pub mod flow;
pub mod mqtt;
pub mod registry;
pub mod status;
pub mod timer;
pub mod util;
pub mod wire;
pub mod workflow;

pub use actor::TriggerCommand;
pub use actor::TriggerError;
pub use amqp::AMQPSubscriberInfo;
pub use dispatch::TriggerWorkflowMessage;
pub use mqtt::MQTTSubscriberInfo;
pub use mqtt::MQTTTopicInfo;
pub use registry::Registry;
pub use registry::TriggerManagerCommand;
pub use registry::TriggerManagerInfo;
pub use registry::TriggerManagerStatusUpdateMessage;
pub use registry::TriggerManagerStatusUpdateMessageData;
pub use status::TriggerStatus;
pub use status::string_to_trigger_status;
pub use status::trigger_status_to_string;
pub use timer::TimerInfo;
pub use util::get_internal_workflow_url;
pub use util::get_unique_id;
pub use workflow::WorkflowInfo;
pub use workflow::find_element_index;
