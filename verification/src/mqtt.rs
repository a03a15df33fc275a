//! Parameter validation for the pub/sub trigger kind.
//!
//! A pub/sub trigger needs a broker address of the form `host:port` — one
//! colon, with a port that reads as a decimal number up to 65535 — and a
//! non-empty topic list in which every entry names its topic. Each topic's
//! quality-of-service level defaults to one.

use crate::wire::str_chars;
use vstd::prelude::*;

verus! {

/// One topic with its quality-of-service level.
#[derive(Clone, Debug)]
pub struct MQTTTopicInfo {
    pub topic: String,
    pub qos: i32,
}

/// The validated connection parameters of a pub/sub trigger.
#[derive(Clone, Debug)]
pub struct MQTTSubscriberInfo {
    pub mqtt_addr: String,
    pub topic_names: Vec<String>,
    pub qos_values: Vec<u8>,
}

/// One raw topic entry of the request.
#[derive(Debug)]
pub struct MqttTopicParams {
    pub topic: Option<String>,
    pub qos: Option<u8>,
}

/// The raw request fields.
#[derive(Debug)]
pub struct MqttParams {
    pub mqtt_addr: Option<String>,
    pub topics: Option<Vec<MqttTopicParams>>,
}

/// A decimal digit.
pub open spec fn is_digit(c: char) -> bool {
    48 <= c as u32 <= 57
}

/// The number written by a sequence of decimal digits.
pub open spec fn dec_value(s: Seq<char>) -> int
    decreases s.len(),
{
    if s.len() == 0 {
        0
    } else {
        dec_value(s.drop_last()) * 10 + (s.last() as u32 - 48)
    }
}

/// Every character is a decimal digit.
pub open spec fn all_digits(s: Seq<char>) -> bool {
    forall|i: int| 0 <= i < s.len() ==> is_digit(#[trigger] s[i])
}

/// A readable port: non-empty, digits only, and at most 65535.
pub open spec fn valid_port(s: Seq<char>) -> bool {
    s.len() > 0 && all_digits(s) && dec_value(s) <= 65535
}

/// A digit string's value is never negative.
pub proof fn lemma_dec_value_nonneg(s: Seq<char>)
    requires
        all_digits(s),
    ensures
        dec_value(s) >= 0,
    decreases s.len(),
{
    if s.len() > 0 {
        assert(all_digits(s.drop_last())) by {
            assert forall|i: int| 0 <= i < s.drop_last().len() implies is_digit(
                #[trigger] s.drop_last()[i],
            ) by {
                assert(s.drop_last()[i] == s[i]);
            }
        }
        lemma_dec_value_nonneg(s.drop_last());
    }
}

/// A digit string's value is at least any prefix's value.
pub proof fn lemma_dec_value_prefix_le(s: Seq<char>, i: int)
    requires
        all_digits(s),
        0 <= i <= s.len(),
    ensures
        dec_value(s.take(i)) <= dec_value(s),
    decreases s.len() - i,
{
    if i == s.len() {
        assert(s.take(i) =~= s);
    } else {
        assert(s.take(i + 1).drop_last() =~= s.take(i));
        assert(s.take(i + 1).last() == s[i]);
        assert(all_digits(s.take(i))) by {
            assert forall|j: int| 0 <= j < s.take(i).len() implies is_digit(
                #[trigger] s.take(i)[j],
            ) by {
                assert(s.take(i)[j] == s[j]);
            }
        }
        lemma_dec_value_nonneg(s.take(i));
        lemma_dec_value_prefix_le(s, i + 1);
    }
}

/// Read a port number: the whole character sequence as a decimal number, up
/// to 65535.
pub fn parse_port(chars: &Vec<char>) -> (r: Option<u16>)
    ensures
        r matches Some(v) ==> valid_port(chars@) && v as int == dec_value(chars@),
        r is None ==> !valid_port(chars@),
{
    let n = chars.len();
    if n == 0 {
        return None;
    }
    let mut acc: u32 = 0;
    for i in 0..n
        invariant
            n == chars@.len(),
            n > 0,
            acc as int == dec_value(chars@.take(i as int)),
            acc <= 65535,
            forall|j: int| 0 <= j < i ==> is_digit(#[trigger] chars@[j]),
    {
        let c = chars[i];
        let code = c as u32;
        if code < 48 || code > 57 {
            return None;
        }
        proof {
            assert(chars@.take(i + 1 as int).drop_last() =~= chars@.take(i as int));
            assert(chars@.take(i + 1 as int).last() == chars@[i as int]);
        }
        let d = code - 48;
        let next = acc * 10 + d;
        if next > 65535 {
            proof {
                if all_digits(chars@) {
                    lemma_dec_value_prefix_le(chars@, i + 1 as int);
                }
            }
            return None;
        }
        acc = next;
    }
    proof {
        assert(chars@.take(n as int) =~= chars@);
    }
    Some(acc as u16)
}

/// How many colons a sequence holds.
pub open spec fn colon_count(s: Seq<char>) -> int
    decreases s.len(),
{
    if s.len() == 0 {
        0
    } else {
        colon_count(s.drop_last()) + (if s.last() == ':' {
            1int
        } else {
            0int
        })
    }
}

/// A colon count is never negative.
pub proof fn lemma_colon_count_nonneg(s: Seq<char>)
    ensures
        colon_count(s) >= 0,
    decreases s.len(),
{
    if s.len() > 0 {
        lemma_colon_count_nonneg(s.drop_last());
    }
}

/// A colon at one position puts the count at one or more.
pub proof fn lemma_colon_count_at_least_one(s: Seq<char>, i: int)
    requires
        0 <= i < s.len(),
        s[i] == ':',
    ensures
        colon_count(s) >= 1,
    decreases s.len(),
{
    lemma_colon_count_nonneg(s.drop_last());
    if i == s.len() - 1 {
        assert(s.last() == ':');
    } else {
        assert(s.drop_last()[i] == s[i]);
        lemma_colon_count_at_least_one(s.drop_last(), i);
    }
}

/// Colons at two positions put the count at two or more.
pub proof fn lemma_colon_count_at_least_two(s: Seq<char>, i: int, j: int)
    requires
        0 <= i < j < s.len(),
        s[i] == ':',
        s[j] == ':',
    ensures
        colon_count(s) >= 2,
    decreases s.len(),
{
    if j == s.len() - 1 {
        assert(s.last() == ':');
        assert(s.drop_last()[i] == s[i]);
        lemma_colon_count_at_least_one(s.drop_last(), i);
    } else {
        assert(s.drop_last()[i] == s[i]);
        assert(s.drop_last()[j] == s[j]);
        lemma_colon_count_at_least_two(s.drop_last(), i, j);
    }
}

/// Split a broker address at its colon. Succeeds exactly when the address
/// holds one colon; the two parts are the characters before and after it.
pub fn split_host_port(addr: &String) -> (r: Option<(Vec<char>, Vec<char>)>)
    ensures
        r is Some <==> colon_count(addr@) == 1,
        r matches Some(hp) ==> exists|i: int|
            {
                &&& 0 <= i < addr@.len()
                &&& addr@[i] == ':'
                &&& hp.0@ == addr@.take(i)
                &&& hp.1@ == addr@.skip(i + 1)
            },
{
    let chars = str_chars(addr.as_str());
    let n = chars.len();
    let mut count: usize = 0;
    let mut first: usize = 0;
    let mut found = false;
    for i in 0..n
        invariant
            n == chars@.len(),
            chars@ == addr@,
            count == colon_count(addr@.take(i as int)),
            count <= i,
            found <==> count >= 1,
            found ==> first < i && addr@[first as int] == ':' && colon_count(
                addr@.take(first as int),
            ) == 0,
    {
        proof {
            assert(addr@.take(i + 1 as int).drop_last() =~= addr@.take(i as int));
            assert(addr@.take(i + 1 as int).last() == addr@[i as int]);
        }
        if chars[i] == ':' {
            if !found {
                first = i;
                found = true;
            }
            count = count + 1;
        }
    }
    proof {
        assert(addr@.take(n as int) =~= addr@);
    }
    if count != 1 {
        return None;
    }
    let mut host: Vec<char> = Vec::new();
    let mut port: Vec<char> = Vec::new();
    for i in 0..first
        invariant
            chars@ == addr@,
            first < n,
            n == chars@.len(),
            host@ == addr@.take(i as int),
    {
        host.push(chars[i]);
        proof {
            assert(host@ =~= addr@.take(i + 1 as int));
        }
    }
    let mut i = first + 1;
    while i < n
        invariant
            chars@ == addr@,
            first < n,
            n == chars@.len(),
            first + 1 <= i <= n,
            port@ == addr@.skip(first + 1 as int).take(i - first - 1 as int),
        decreases n - i,
    {
        port.push(chars[i]);
        proof {
            assert(port@ =~= addr@.skip(first + 1 as int).take(i + 1 - first - 1 as int));
        }
        i = i + 1;
    }
    proof {
        assert(port@ =~= addr@.skip(first + 1 as int));
        assert(host@ =~= addr@.take(first as int));
    }
    Some((host, port))
}

/// The position of the colon in an address holding exactly one.
pub open spec fn colon_index(s: Seq<char>) -> int {
    choose|i: int| 0 <= i < s.len() && s[i] == ':'
}

/// A well-formed broker address: one colon, followed by a readable port.
pub open spec fn mqtt_addr_valid(s: Seq<char>) -> bool {
    colon_count(s) == 1 && valid_port(s.skip(colon_index(s) + 1))
}

/// In an address holding exactly one colon, any colon position is the colon
/// position.
pub proof fn lemma_single_colon_index(s: Seq<char>, i: int)
    requires
        colon_count(s) == 1,
        0 <= i < s.len(),
        s[i] == ':',
    ensures
        colon_index(s) == i,
{
    let j = colon_index(s);
    assert(0 <= j < s.len() && s[j] == ':');
    if j < i {
        lemma_colon_count_at_least_two(s, j, i);
    }
    if i < j {
        lemma_colon_count_at_least_two(s, i, j);
    }
}

/// Whether raw pub/sub parameters pass validation.
pub open spec fn mqtt_params_valid(p: MqttParams) -> bool {
    &&& p.mqtt_addr matches Some(a) && mqtt_addr_valid(a@)
    &&& p.topics matches Some(ts) && ts@.len() > 0 && (forall|i: int|
        0 <= i < ts@.len() ==> (#[trigger] ts@[i].topic) is Some)
}

/// Validate the raw fields: address and a non-empty topic list present, the
/// address of the form `host:port`, the port readable, and every topic entry
/// naming its topic. Quality-of-service defaults to one.
pub fn validate_mqtt_info(p: MqttParams) -> (r: Result<MQTTSubscriberInfo, String>)
    ensures
        r is Ok <==> mqtt_params_valid(p),
        r matches Ok(info) ==> {
            &&& Some(info.mqtt_addr) == p.mqtt_addr
            &&& p.topics matches Some(ts) && {
                &&& info.topic_names@.len() == ts@.len()
                &&& info.qos_values@.len() == ts@.len()
                &&& forall|i: int| 0 <= i < ts@.len() ==> Some(#[trigger] info.topic_names@[i])
                    == ts@[i].topic
                &&& forall|i: int| 0 <= i < ts@.len() ==> (#[trigger] info.qos_values@[i])
                    == (match ts@[i].qos {
                    Some(q) => q,
                    None => 1u8,
                })
            }
        },
        !(p.mqtt_addr is Some && (p.topics matches Some(ts) && ts@.len() > 0)) ==> (r matches Err(e)
            && e@ == "One of the required fields, 'mqtt_addr' or 'topics' is missing"@),
        p.mqtt_addr is Some && (p.topics matches Some(ts) && ts@.len() > 0) && colon_count(
            p.mqtt_addr->Some_0@,
        ) != 1 ==> (r matches Err(e) && e@
            == "'mqtt_addr' should be of the format <host>:<port>"@),
        p.mqtt_addr is Some && (p.topics matches Some(ts) && ts@.len() > 0) && colon_count(
            p.mqtt_addr->Some_0@,
        ) == 1 && !valid_port(p.mqtt_addr->Some_0@.skip(colon_index(p.mqtt_addr->Some_0@) + 1))
            ==> (r matches Err(e) && e@ == "unable to parse 'mqtt_addr'"@),
        mqtt_addr_valid(match p.mqtt_addr {
            Some(a) => a@,
            None => Seq::<char>::empty(),
        }) && (p.topics matches Some(ts) && ts@.len() > 0 && (exists|i: int|
            0 <= i < ts@.len() && (#[trigger] ts@[i].topic) is None)) ==> (r matches Err(e) && e@
            == "topic missing in topics list"@),
{
    let MqttParams { mqtt_addr: addr_opt, topics: topics_opt } = p;
    let mqtt_addr = match addr_opt {
        Some(a) => a,
        None => {
            return Err(
                "One of the required fields, 'mqtt_addr' or 'topics' is missing".to_owned(),
            );
        },
    };
    let topics = match topics_opt {
        Some(ts) => ts,
        None => {
            return Err(
                "One of the required fields, 'mqtt_addr' or 'topics' is missing".to_owned(),
            );
        },
    };
    if topics.len() == 0 {
        return Err("One of the required fields, 'mqtt_addr' or 'topics' is missing".to_owned());
    }
    proof {
        assert(p.mqtt_addr == Some(mqtt_addr));
        assert(p.topics == Some(topics));
    }
    let parts = split_host_port(&mqtt_addr);
    match parts {
        None => {
            proof {
                assert(p.mqtt_addr == Some(mqtt_addr));
                assert(colon_count(mqtt_addr@) != 1);
                assert(!mqtt_params_valid(p));
            }
            Err("'mqtt_addr' should be of the format <host>:<port>".to_owned())
        },
        Some((_host, port_chars)) => {
            proof {
                let i = choose|i: int|
                    {
                        &&& 0 <= i < mqtt_addr@.len()
                        &&& mqtt_addr@[i] == ':'
                        &&& _host@ == mqtt_addr@.take(i)
                        &&& port_chars@ == mqtt_addr@.skip(i + 1)
                    };
                lemma_single_colon_index(mqtt_addr@, i);
            }
            match parse_port(&port_chars) {
                None => Err("unable to parse 'mqtt_addr'".to_owned()),
                Some(_port) => {
                    let mut topic_names: Vec<String> = Vec::new();
                    let mut qos_values: Vec<u8> = Vec::new();
                    let n = topics.len();
                    let mut k: usize = 0;
                    while k < n
                        invariant
                            p.mqtt_addr == Some(mqtt_addr),
                            p.topics == Some(topics),
                            mqtt_addr_valid(mqtt_addr@),
                            n == topics@.len(),
                            n > 0,
                            0 <= k <= n,
                            topic_names@.len() == k,
                            qos_values@.len() == k,
                            forall|j: int| 0 <= j < k ==> Some(#[trigger] topic_names@[j])
                                == topics@[j].topic,
                            forall|j: int| 0 <= j < k ==> (#[trigger] topics@[j].topic) is Some,
                            forall|j: int| 0 <= j < k ==> (#[trigger] qos_values@[j])
                                == (match topics@[j].qos {
                                Some(q) => q,
                                None => 1u8,
                            }),
                        decreases n - k,
                    {
                        let entry = &topics[k];
                        match &entry.topic {
                            None => {
                                proof {
                                    assert(p.topics matches Some(ts) && ts@[k as int].topic
                                        is None);
                                }
                                return Err("topic missing in topics list".to_owned());
                            },
                            Some(name) => {
                                topic_names.push(name.clone());
                            },
                        }
                        let qos = match entry.qos {
                            Some(q) => q,
                            None => 1,
                        };
                        qos_values.push(qos);
                        k = k + 1;
                    }
                    Ok(MQTTSubscriberInfo { mqtt_addr, topic_names, qos_values })
                },
            }
        },
    }
}

} // verus!
