//! Parameter validation for the queue-broker trigger kind.
//!
//! A queue-broker trigger needs the broker address and the routing key; the
//! exchange name and the three flags are optional, with the defaults stated
//! below.

use vstd::prelude::*;

verus! {

/// The validated connection parameters of a queue-broker trigger.
#[derive(Clone, Debug)]
pub struct AMQPSubscriberInfo {
    pub amqp_addr: String,
    pub routing_key: String,
    pub exchange: String,
    pub durable: bool,
    pub exclusive: bool,
    pub auto_ack: bool,
}

/// The raw request fields, each as present or absent.
#[derive(Debug)]
pub struct AmqpParams {
    pub amqp_addr: Option<String>,
    pub routing_key: Option<String>,
    pub exchange: Option<String>,
    pub durable: Option<bool>,
    pub exclusive: Option<bool>,
    pub auto_ack: Option<bool>,
}

/// Whether raw queue-broker parameters pass validation: the address and the
/// routing key must both be present.
pub open spec fn amqp_params_valid(p: AmqpParams) -> bool {
    p.amqp_addr is Some && p.routing_key is Some
}

/// Validate the raw fields. The exchange defaults to the empty name, the
/// durability and exclusivity flags to false, and auto-acknowledgement to
/// true.
pub fn validate_amqp_info(p: AmqpParams) -> (r: Result<AMQPSubscriberInfo, String>)
    ensures
        r is Ok <==> amqp_params_valid(p),
        r matches Ok(info) ==> {
            &&& Some(info.amqp_addr) == p.amqp_addr
            &&& Some(info.routing_key) == p.routing_key
            &&& info.exchange@ == (match p.exchange {
                Some(e) => e@,
                None => Seq::<char>::empty(),
            })
            &&& info.durable == (p.durable matches Some(true))
            &&& info.exclusive == (p.exclusive matches Some(true))
            &&& info.auto_ack == !(p.auto_ack matches Some(false))
        },
        r matches Err(e) ==> e@
            == "One of the required fields, 'amqp_addr' or 'routing_key' is missing"@,
{
    match (p.amqp_addr, p.routing_key) {
        (Some(amqp_addr), Some(routing_key)) => {
            let exchange = match p.exchange {
                Some(e) => e,
                None => {
                    let e = String::new();
                    proof {
                        assert(e@ =~= Seq::<char>::empty());
                    }
                    e
                },
            };
            let durable = match p.durable {
                Some(b) => b,
                None => false,
            };
            let exclusive = match p.exclusive {
                Some(b) => b,
                None => false,
            };
            let auto_ack = match p.auto_ack {
                Some(b) => b,
                None => true,
            };
            Ok(AMQPSubscriberInfo { amqp_addr, routing_key, exchange, durable, exclusive, auto_ack })
        },
        _ => Err("One of the required fields, 'amqp_addr' or 'routing_key' is missing".to_owned()),
    }
}

} // verus!
