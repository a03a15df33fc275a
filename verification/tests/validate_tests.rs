use triggers_frontend::amqp::AmqpParams;
use triggers_frontend::amqp::validate_amqp_info;
use triggers_frontend::mqtt::MqttParams;
use triggers_frontend::mqtt::MqttTopicParams;
use triggers_frontend::mqtt::parse_port;
use triggers_frontend::mqtt::validate_mqtt_info;
use triggers_frontend::timer::TimerParams;
use triggers_frontend::timer::validate_timer_info;

#[test]
fn timer_interval_below_twenty_is_rejected() {
    let p = TimerParams { field_present: true, field_is_number: true, interval_ms: Some(19) };
    assert_eq!(validate_timer_info(&p).unwrap_err(), "Timer interval must be >= 20ms");
    let p = TimerParams { field_present: true, field_is_number: true, interval_ms: Some(10) };
    assert!(validate_timer_info(&p).is_err());
}

#[test]
fn timer_interval_at_twenty_is_accepted() {
    let p = TimerParams { field_present: true, field_is_number: true, interval_ms: Some(20) };
    assert_eq!(validate_timer_info(&p).unwrap().timer_interval, 20);
    let p = TimerParams { field_present: true, field_is_number: true, interval_ms: Some(100) };
    assert_eq!(validate_timer_info(&p).unwrap().timer_interval, 100);
}

#[test]
fn timer_field_missing_or_not_a_number() {
    let p = TimerParams { field_present: false, field_is_number: false, interval_ms: None };
    assert_eq!(
        validate_timer_info(&p).unwrap_err(),
        "One of the required fields, 'timer_interval_ms' is missing"
    );
    let p = TimerParams { field_present: true, field_is_number: false, interval_ms: None };
    assert_eq!(
        validate_timer_info(&p).unwrap_err(),
        "One of the required fields, 'timer_interval_ms' is missing"
    );
    let p = TimerParams { field_present: true, field_is_number: true, interval_ms: None };
    assert_eq!(validate_timer_info(&p).unwrap_err(), "Unable to parse 'timer_interval_ms' field");
}

#[test]
fn amqp_requires_address_and_routing_key() {
    let p = AmqpParams {
        amqp_addr: None,
        routing_key: Some("k".to_string()),
        exchange: None,
        durable: None,
        exclusive: None,
        auto_ack: None,
    };
    assert_eq!(
        validate_amqp_info(p).unwrap_err(),
        "One of the required fields, 'amqp_addr' or 'routing_key' is missing"
    );
    let p = AmqpParams {
        amqp_addr: Some("amqp://h".to_string()),
        routing_key: None,
        exchange: None,
        durable: None,
        exclusive: None,
        auto_ack: None,
    };
    assert!(validate_amqp_info(p).is_err());
}

#[test]
fn amqp_defaults_are_applied() {
    let p = AmqpParams {
        amqp_addr: Some("amqp://h".to_string()),
        routing_key: Some("rk".to_string()),
        exchange: None,
        durable: None,
        exclusive: None,
        auto_ack: None,
    };
    let info = validate_amqp_info(p).unwrap();
    assert_eq!(info.amqp_addr, "amqp://h");
    assert_eq!(info.routing_key, "rk");
    assert_eq!(info.exchange, "");
    assert!(!info.durable);
    assert!(!info.exclusive);
    assert!(info.auto_ack);
}

#[test]
fn amqp_explicit_flags_are_kept() {
    let p = AmqpParams {
        amqp_addr: Some("amqp://h".to_string()),
        routing_key: Some("rk".to_string()),
        exchange: Some("ex".to_string()),
        durable: Some(true),
        exclusive: Some(true),
        auto_ack: Some(false),
    };
    let info = validate_amqp_info(p).unwrap();
    assert_eq!(info.exchange, "ex");
    assert!(info.durable);
    assert!(info.exclusive);
    assert!(!info.auto_ack);
}

fn one_topic(name: &str) -> Vec<MqttTopicParams> {
    vec![MqttTopicParams { topic: Some(name.to_string()), qos: None }]
}

#[test]
fn mqtt_requires_address_and_topics() {
    let p = MqttParams { mqtt_addr: None, topics: Some(one_topic("t")) };
    assert_eq!(
        validate_mqtt_info(p).unwrap_err(),
        "One of the required fields, 'mqtt_addr' or 'topics' is missing"
    );
    let p = MqttParams { mqtt_addr: Some("h:1883".to_string()), topics: None };
    assert!(validate_mqtt_info(p).is_err());
    let p = MqttParams { mqtt_addr: Some("h:1883".to_string()), topics: Some(Vec::new()) };
    assert!(validate_mqtt_info(p).is_err());
}

#[test]
fn mqtt_address_must_be_host_colon_port() {
    let p = MqttParams { mqtt_addr: Some("justahost".to_string()), topics: Some(one_topic("t")) };
    assert_eq!(
        validate_mqtt_info(p).unwrap_err(),
        "'mqtt_addr' should be of the format <host>:<port>"
    );
    let p = MqttParams { mqtt_addr: Some("a:b:c".to_string()), topics: Some(one_topic("t")) };
    assert_eq!(
        validate_mqtt_info(p).unwrap_err(),
        "'mqtt_addr' should be of the format <host>:<port>"
    );
}

#[test]
fn mqtt_port_must_parse() {
    let p = MqttParams { mqtt_addr: Some("h:99999".to_string()), topics: Some(one_topic("t")) };
    assert_eq!(validate_mqtt_info(p).unwrap_err(), "unable to parse 'mqtt_addr'");
    let p = MqttParams { mqtt_addr: Some("h:18x3".to_string()), topics: Some(one_topic("t")) };
    assert_eq!(validate_mqtt_info(p).unwrap_err(), "unable to parse 'mqtt_addr'");
    let p = MqttParams { mqtt_addr: Some("h:".to_string()), topics: Some(one_topic("t")) };
    assert_eq!(validate_mqtt_info(p).unwrap_err(), "unable to parse 'mqtt_addr'");
}

#[test]
fn mqtt_topics_must_name_their_topic() {
    let topics = vec![
        MqttTopicParams { topic: Some("a".to_string()), qos: None },
        MqttTopicParams { topic: None, qos: Some(2) },
    ];
    let p = MqttParams { mqtt_addr: Some("h:1883".to_string()), topics: Some(topics) };
    assert_eq!(validate_mqtt_info(p).unwrap_err(), "topic missing in topics list");
}

#[test]
fn mqtt_valid_parameters_pass_with_qos_default_one() {
    let topics = vec![
        MqttTopicParams { topic: Some("a".to_string()), qos: None },
        MqttTopicParams { topic: Some("b".to_string()), qos: Some(2) },
    ];
    let p = MqttParams { mqtt_addr: Some("broker:1883".to_string()), topics: Some(topics) };
    let info = validate_mqtt_info(p).unwrap();
    assert_eq!(info.mqtt_addr, "broker:1883");
    assert_eq!(info.topic_names, vec!["a".to_string(), "b".to_string()]);
    assert_eq!(info.qos_values, vec![1, 2]);
}

#[test]
fn port_parser_exact_values() {
    assert_eq!(parse_port(&"1883".chars().collect()), Some(1883));
    assert_eq!(parse_port(&"0".chars().collect()), Some(0));
    assert_eq!(parse_port(&"65535".chars().collect()), Some(65535));
    assert_eq!(parse_port(&"65536".chars().collect()), None);
    assert_eq!(parse_port(&"".chars().collect()), None);
    assert_eq!(parse_port(&"-1".chars().collect()), None);
    assert_eq!(parse_port(&"00042".chars().collect()), Some(42));
}
