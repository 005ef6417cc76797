use log::Level;
use mqtt_appender::appender::{publish_result, MqttAppender, PublishError, KEEP_ALIVE_SECS};
use mqtt_appender::broker::ParseError;
use mqtt_appender::buffer::MqttBuffer;
use mqtt_appender::config::{MqttAppenderConfig, MqttAppenderDeserializer};
use rumqttc::{ClientError, PingReq, QoS, Request};

fn buffer_of(bytes: &[u8]) -> MqttBuffer {
    let mut b = MqttBuffer::new();
    b.write(bytes);
    b
}

#[test]
fn buffer_collects_writes() {
    let mut b = MqttBuffer::new();
    assert_eq!(b.write(b"he"), 2);
    assert_eq!(b.write(b""), 0);
    assert_eq!(b.write(b"llo"), 3);
    b.flush();
    assert_eq!(b.into_bytes(), b"hello".to_vec());
}

#[test]
fn default_settings() {
    let s = MqttAppender::builder().connect_settings().unwrap();
    assert_eq!(s.host, "localhost");
    assert_eq!(s.port, 1883);
    assert_eq!(s.client_id, "log4rs_client");
    assert_eq!(s.keep_alive_secs, KEEP_ALIVE_SECS);
    assert_eq!(s.keep_alive_secs, 30);
    assert!(s.credentials.is_none());
}

#[test]
fn credentials_need_both_parts() {
    let both = MqttAppender::builder()
        .username(Some("user".to_string()))
        .password(Some("pass".to_string()))
        .connect_settings()
        .unwrap();
    assert_eq!(both.credentials, Some(("user".to_string(), "pass".to_string())));
    let only_user = MqttAppender::builder().username(Some("user".to_string())).connect_settings().unwrap();
    assert!(only_user.credentials.is_none());
    let only_pass = MqttAppender::builder().password(Some("pass".to_string())).connect_settings().unwrap();
    assert!(only_pass.credentials.is_none());
}

#[test]
fn settings_follow_builder() {
    let s = MqttAppender::builder()
        .broker("tcp://broker:1884".to_string())
        .client_id("me".to_string())
        .connect_settings()
        .unwrap();
    assert_eq!(s.host, "broker");
    assert_eq!(s.port, 1884);
    assert_eq!(s.client_id, "me");
}

#[test]
fn build_fails_on_bad_port() {
    let r = MqttAppender::builder().broker("mqtt://host:abc".to_string()).build();
    assert!(matches!(r, Err(ParseError::InvalidPort)));
    let r = MqttAppender::builder().broker("host:99999".to_string()).build();
    assert!(matches!(r, Err(ParseError::InvalidPort)));
}

#[test]
fn end_to_end_publication() {
    let (appender, _connection) = MqttAppender::builder()
        .broker("mqtt://localhost:1883".to_string())
        .topic("test/logs/{level}".to_string())
        .qos(0)
        .build()
        .unwrap();
    let p = appender.publication(Level::Info, buffer_of(b"hello\n"));
    assert_eq!(p.topic, "test/logs/info");
    assert_eq!(p.qos, QoS::AtMostOnce);
    assert!(!p.retain);
    assert_eq!(p.payload, b"hello\n".to_vec());
}

#[test]
fn appender_keeps_qos_and_default_topic() {
    let (appender, _connection) = MqttAppender::builder().qos(2).build().unwrap();
    assert_eq!(appender.topic_for(Level::Error), "logs");
    let p = appender.publication(Level::Trace, MqttBuffer::new());
    assert_eq!(p.qos, QoS::ExactlyOnce);
    assert!(p.payload.is_empty());
}

#[test]
fn disconnected_publish_fails_and_appender_stays_usable() {
    let (appender, connection) = MqttAppender::builder().build().unwrap();
    drop(connection);
    assert_eq!(appender.append(Level::Info, buffer_of(b"one")), Err(PublishError::RequestRejected));
    assert_eq!(appender.append(Level::Warn, buffer_of(b"two")), Err(PublishError::RequestRejected));
    appender.flush();
}

#[test]
fn publish_result_mapping() {
    assert_eq!(publish_result(Ok(())), Ok(()));
    let e = ClientError::Request(Request::PingReq(PingReq));
    assert_eq!(publish_result(Err(e)), Err(PublishError::RequestRejected));
}

fn config(broker: &str, topic: &str, qos: Option<u8>) -> MqttAppenderConfig {
    MqttAppenderConfig {
        broker: broker.to_string(),
        client_id: "cfg_client".to_string(),
        topic: topic.to_string(),
        qos,
        username: None,
        password: None,
    }
}

#[test]
fn deserializer_builds_from_config() {
    let d = MqttAppenderDeserializer;
    let (appender, _connection) = d.deserialize(config("mqtt://localhost:1883", "x/{level}", Some(1))).unwrap();
    let p = appender.publication(Level::Warn, MqttBuffer::new());
    assert_eq!(p.topic, "x/warn");
    assert_eq!(p.qos, QoS::AtLeastOnce);
}

#[test]
fn deserializer_without_qos_is_at_most_once() {
    let d = MqttAppenderDeserializer;
    let (appender, _connection) = d.deserialize(config("localhost", "t", None)).unwrap();
    assert_eq!(appender.publication(Level::Info, MqttBuffer::new()).qos, QoS::AtMostOnce);
}

#[test]
fn deserializer_settings_from_config() {
    let d = MqttAppenderDeserializer;
    let mut c = config("tcp://b:7", "t", Some(9));
    c.username = Some("u".to_string());
    c.password = Some("p".to_string());
    let s = d.builder_for(c).connect_settings().unwrap();
    assert_eq!(s.host, "b");
    assert_eq!(s.port, 7);
    assert_eq!(s.client_id, "cfg_client");
    assert_eq!(s.credentials, Some(("u".to_string(), "p".to_string())));
}

#[test]
fn deserializer_rejects_bad_port() {
    let d = MqttAppenderDeserializer;
    assert!(matches!(d.deserialize(config("h:abc", "t", None)), Err(ParseError::InvalidPort)));
}

