use log::Level;
use mqtt_appender::qos::qos_from_u8;
use mqtt_appender::topic::resolve_topic;
use rumqttc::QoS;

#[test]
fn placeholder_becomes_lowercase_level() {
    assert_eq!(resolve_topic("logs/{level}", Level::Warn), "logs/warn");
}

#[test]
fn template_without_placeholder_is_unchanged() {
    assert_eq!(resolve_topic("logs", Level::Warn), "logs");
    assert_eq!(resolve_topic("logs", Level::Error), "logs");
}

#[test]
fn every_level_is_lowercase() {
    assert_eq!(resolve_topic("{level}", Level::Error), "error");
    assert_eq!(resolve_topic("{level}", Level::Warn), "warn");
    assert_eq!(resolve_topic("{level}", Level::Info), "info");
    assert_eq!(resolve_topic("{level}", Level::Debug), "debug");
    assert_eq!(resolve_topic("{level}", Level::Trace), "trace");
}

#[test]
fn only_first_placeholder_is_replaced() {
    assert_eq!(resolve_topic("a/{level}/b/{level}", Level::Info), "a/info/b/{level}");
}

#[test]
fn placeholder_in_the_middle() {
    assert_eq!(resolve_topic("app/{level}/events", Level::Debug), "app/debug/events");
}

#[test]
fn empty_template() {
    assert_eq!(resolve_topic("", Level::Info), "");
}

#[test]
fn qos_mapping() {
    assert_eq!(qos_from_u8(0), QoS::AtMostOnce);
    assert_eq!(qos_from_u8(1), QoS::AtLeastOnce);
    assert_eq!(qos_from_u8(2), QoS::ExactlyOnce);
    assert_eq!(qos_from_u8(9), QoS::AtMostOnce);
    assert_eq!(qos_from_u8(255), QoS::AtMostOnce);
}
