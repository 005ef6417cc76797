use mqtt_appender::broker::{parse_broker_url, ParseError};

fn parsed(url: &str) -> (String, u16) {
    parse_broker_url(url).expect("address should parse")
}

#[test]
fn mqtt_scheme_host_port() {
    assert_eq!(parsed("mqtt://localhost:1883"), ("localhost".to_string(), 1883));
}

#[test]
fn mqtts_scheme_host_port() {
    assert_eq!(parsed("mqtts://broker.example.com:8883"), ("broker.example.com".to_string(), 8883));
}

#[test]
fn tcp_scheme_host_port() {
    assert_eq!(parsed("tcp://10.0.0.7:1"), ("10.0.0.7".to_string(), 1));
}

#[test]
fn no_scheme_host_port() {
    assert_eq!(parsed("host:65535"), ("host".to_string(), 65535));
}

#[test]
fn no_colon_gets_default_port() {
    assert_eq!(parsed("localhost"), ("localhost".to_string(), 1883));
    assert_eq!(parsed("mqtt://localhost"), ("localhost".to_string(), 1883));
}

#[test]
fn empty_address_is_empty_host() {
    assert_eq!(parsed(""), ("".to_string(), 1883));
}

#[test]
fn port_out_of_range_is_invalid() {
    assert_eq!(parse_broker_url("host:99999"), Err(ParseError::InvalidPort));
    assert_eq!(parse_broker_url("host:65536"), Err(ParseError::InvalidPort));
}

#[test]
fn port_not_numeric_is_invalid() {
    assert_eq!(parse_broker_url("host:abc"), Err(ParseError::InvalidPort));
    assert_eq!(parse_broker_url("host:"), Err(ParseError::InvalidPort));
    assert_eq!(parse_broker_url("host:-1"), Err(ParseError::InvalidPort));
    assert_eq!(parse_broker_url("host:+"), Err(ParseError::InvalidPort));
}

#[test]
fn port_with_plus_sign_and_leading_zeros() {
    assert_eq!(parsed("host:+80"), ("host".to_string(), 80));
    assert_eq!(parsed("host:00080"), ("host".to_string(), 80));
}

#[test]
fn last_colon_separates_port() {
    assert_eq!(parsed("a:b:42"), ("a:b".to_string(), 42));
}

#[test]
fn repeated_schemes_are_all_stripped() {
    assert_eq!(parsed("mqtt://mqtt://h:5"), ("h".to_string(), 5));
    assert_eq!(parsed("mqtt://tcp://h:5"), ("h".to_string(), 5));
}
