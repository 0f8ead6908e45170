use gg_sdk::bridge::topic_event;
use gg_sdk::{
    Arena, Error, Kv, Qos, Registry, Request, Sdk, SubscribeToTopicPayload, Timestamp, Value,
};

fn kv(key: &str, val: Value) -> Kv {
    Kv::new(key.to_string(), val)
}

#[test]
fn second_connect_is_refused() {
    let mut sdk = Sdk::init();
    assert!(!sdk.connected());
    match sdk.connect_with_token("/run/sock", "SECRET-REDACTED") {
        Ok(Request::Connect { socket_path, auth_token }) => {
            assert_eq!(socket_path, "/run/sock");
            assert_eq!(auth_token, "SECRET-REDACTED");
        }
        _ => panic!("expected a connect request"),
    }
    assert_eq!(sdk.connect_done(0), Ok(()));
    assert!(sdk.connected());
    // nothing is handed to the channel the second time
    assert!(matches!(sdk.connect_with_token("/run/sock", "t"), Err(Error::Failure)));
    assert!(matches!(sdk.connect(Some("/run/sock"), Some("t")), Err(Error::Failure)));
}

#[test]
fn failed_connect_can_be_retried() {
    let mut sdk = Sdk::init();
    assert!(sdk.connect_with_token("p", "t").is_ok());
    assert_eq!(sdk.connect_done(10), Err(Error::NoConn));
    assert!(!sdk.connected());
    assert!(sdk.connect_with_token("p", "t").is_ok());
}

#[test]
fn connect_needs_both_bootstrap_values() {
    let sdk = Sdk::init();
    assert!(matches!(sdk.connect(None, Some("t")), Err(Error::Config)));
    assert!(matches!(sdk.connect(Some("p"), None), Err(Error::Config)));
    assert!(matches!(sdk.connect(Some("p"), Some("t")), Ok(Request::Connect { .. })));
}

#[test]
fn publish_map_round_trip() {
    let sdk = Sdk::init();
    let sent = vec![kv("a", Value::I64(1)), kv("b", Value::Buf(b"x".to_vec()))];
    let req = sdk.publish_to_topic_json("my/topic", &sent);
    let echoed = match req {
        Request::PublishToTopicJson { topic, map } => {
            assert_eq!(topic, "my/topic");
            Value::KvMap(map)
        }
        _ => panic!("expected a publish request"),
    };
    let (topic, payload) = topic_event(b"my/topic", &echoed).unwrap();
    assert_eq!(topic, "my/topic");
    match payload {
        SubscribeToTopicPayload::Json(pairs) => {
            assert_eq!(format!("{:?}", pairs), format!("{:?}", sent));
            assert_eq!(pairs[0].key, "a");
            assert!(matches!(pairs[0].val, Value::I64(1)));
            assert_eq!(pairs[1].key, "b");
            assert!(matches!(&pairs[1].val, Value::Buf(b) if b == b"x"));
        }
        _ => panic!("expected a map"),
    }
}

#[test]
fn binary_topic_delivery_invokes_callback_once() {
    let sdk = Sdk::init();
    assert!(matches!(
        sdk.subscribe_to_topic("my/topic"),
        Request::SubscribeToTopic { topic } if topic == "my/topic"
    ));
    let mut calls: Vec<(String, Vec<u8>)> = Vec::new();
    let mut reg: Registry<Box<dyn FnMut(&str, SubscribeToTopicPayload) + '_>> = Registry::new();
    let sub = reg
        .register(
            Box::new(|t: &str, p: SubscribeToTopicPayload| match p {
                SubscribeToTopicPayload::Binary(b) => calls.push((t.to_string(), b.to_vec())),
                SubscribeToTopicPayload::Json(_) => panic!("decoded as a map"),
            }),
            Ok(9),
        )
        .unwrap();
    let delivered = Value::Buf(vec![1, 2, 3]);
    if let Some((topic, payload)) = topic_event(b"my/topic", &delivered) {
        let i = reg.position(sub.handle()).unwrap();
        (reg.context_at(i))(&topic, payload);
    }
    let closed = reg.close(sub);
    assert_eq!(closed.as_ref().map(|c| c.0), Some(9));
    drop(closed);
    drop(reg);
    assert_eq!(calls, vec![("my/topic".to_string(), vec![1, 2, 3])]);
}

#[test]
fn config_text_with_bad_utf8_is_an_error() {
    let sdk = Sdk::init();
    assert!(matches!(
        sdk.get_config_str(&["foo"], None),
        Request::GetConfigStr { key_path, component_name: None } if key_path == vec!["foo".to_string()]
    ));
    assert_eq!(sdk.get_config_str_done(0, b"\xff\xfe"), Err(Error::Utf8));
    assert_eq!(sdk.get_config_str_done(0, b"bar"), Ok("bar"));
    assert_eq!(sdk.get_config_str_done(12, b"bar"), Err(Error::NoEntry));
}

#[test]
fn config_value_lands_in_arena() {
    let sdk = Sdk::init();
    assert!(matches!(
        sdk.get_config(&["a", "b"], Some("comp")),
        Request::GetConfig { key_path, component_name: Some(c) }
            if key_path == vec!["a".to_string(), "b".to_string()] && c == "comp"
    ));
    let stored = Value::Buf(b"hello".to_vec());
    let mut arena = Arena::init(vec![0u8; 5]);
    let v = sdk.get_config_done(0, &stored, &mut arena).unwrap();
    assert!(matches!(v, Value::Buf(ref b) if b == b"hello"));
    assert_eq!(arena.into_buffer(), b"hello".to_vec());

    let mut tiny = Arena::init(vec![0u8; 4]);
    assert!(matches!(sdk.get_config_done(0, &stored, &mut tiny), Err(Error::OutOfMemory)));
    let mut any = Arena::init(vec![0u8; 64]);
    assert!(matches!(sdk.get_config_done(11, &stored, &mut any), Err(Error::NoData)));
    assert_eq!(any.used(), 0);
}

#[test]
fn update_config_carries_timestamp() {
    let sdk = Sdk::init();
    let t1 = Timestamp::since_epoch(1_700_000_000, 5);
    let v = Value::KvMap(vec![kv("x", Value::I64(3))]);
    match sdk.update_config(&["a", "b"], Some(t1), &v) {
        Request::UpdateConfig { key_path, timestamp, value } => {
            assert_eq!(key_path, vec!["a".to_string(), "b".to_string()]);
            assert_eq!(timestamp, Some(Timestamp { secs: 1_700_000_000, nanos: 5 }));
            assert_eq!(format!("{:?}", value), format!("{:?}", v));
        }
        _ => panic!("expected an update request"),
    }
    assert!(matches!(
        sdk.update_config(&[], None, &Value::Null),
        Request::UpdateConfig { timestamp: None, .. }
    ));
    assert_eq!(Timestamp::since_epoch(u64::MAX, 0).secs, -1);
}

#[test]
fn other_requests_carry_their_arguments() {
    let sdk = Sdk::init();
    assert!(matches!(
        sdk.publish_to_topic_binary("t", &[1, 2]),
        Request::PublishToTopicBinary { topic, payload } if topic == "t" && payload == vec![1, 2]
    ));
    assert!(matches!(
        sdk.publish_to_iot_core("t", &[3], Qos::AtLeastOnce),
        Request::PublishToIotCore { topic, payload, qos: 1 } if topic == "t" && payload == vec![3]
    ));
    assert!(matches!(
        sdk.subscribe_to_iot_core("t/#", Qos::AtMostOnce),
        Request::SubscribeToIotCore { topic_filter, qos: 0 } if topic_filter == "t/#"
    ));
    assert!(matches!(
        sdk.restart_component("comp"),
        Request::RestartComponent { component } if component == "comp"
    ));
    assert!(matches!(
        sdk.subscribe_to_configuration_update(None, &["k"]),
        Request::SubscribeToConfigurationUpdate { component_name: None, key_path } if key_path == vec!["k".to_string()]
    ));
    let params = vec![kv("p", Value::Bool(true))];
    assert!(matches!(
        sdk.call("Op", "aws#Req", &params),
        Request::Call { operation, service_model_type, params: p }
            if operation == "Op" && service_model_type == "aws#Req" && p.len() == 1
    ));
    assert!(matches!(
        sdk.subscribe("Op", "aws#Req", &params, 77),
        Request::Subscribe { operation, params: p, aux_ctx: 77, .. } if operation == "Op" && p.len() == 1
    ));
    assert!(matches!(sdk.close_subscription(4), Request::CloseSubscription { handle: 4 }));
}

#[test]
fn config_read_takes_its_layout_and_keeps_earlier_bytes() {
    let sdk = Sdk::init();
    let stored = Value::KvMap(vec![kv("k", Value::Buf(b"vv".to_vec()))]);
    // one entry cell of 32 bytes at 8, then "k" and "vv"
    let mut first = Arena::init(vec![0u8; 43]);
    first.put_bytes(&[1, 2, 3]).unwrap();
    let mut second = Arena::init(vec![0u8; 43]);
    second.put_bytes(&[4, 5, 6]).unwrap();
    assert!(sdk.get_config_done(0, &stored, &mut first).is_ok());
    assert!(sdk.get_config_done(0, &stored, &mut second).is_ok());
    assert_eq!(first.used(), 43);
    assert_eq!(second.used(), 43);
    let a = first.into_buffer();
    let b = second.into_buffer();
    assert_eq!(&a[0..3], &[1, 2, 3]);
    assert_eq!(&b[0..3], &[4, 5, 6]);
    assert_eq!(&a[40..43], b"kvv");
    assert_eq!(&a[3..], &b[3..]);

    let mut short = Arena::init(vec![0u8; 42]);
    short.put_bytes(&[9, 9, 9]).unwrap();
    assert!(matches!(sdk.get_config_done(0, &stored, &mut short), Err(Error::OutOfMemory)));
    assert_eq!(&short.into_buffer()[0..3], &[9, 9, 9]);
}
