//! A log appender that publishes each record to an MQTT broker: broker
//! addresses, topic templates and delivery levels, checked against their
//! contracts, and the publish path around a shared, locked client.

pub mod appender;
pub mod broker;
pub mod buffer;
pub mod client;
pub mod config;
pub mod qos;
pub mod topic;
