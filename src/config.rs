use vstd::prelude::*;
use crate::appender::{opt_view, MqttAppender, MqttAppenderBuilder};
use crate::broker::{broker_address, ParseError};
use crate::qos::qos_of;

verus! {

/// The MQTT appender's configuration.
#[derive(Clone, Eq, PartialEq, Hash, Debug, Default)]
pub struct MqttAppenderConfig {
    pub broker: String,
    pub client_id: String,
    pub topic: String,
    pub qos: Option<u8>,
    pub username: Option<String>,
    pub password: Option<String>,
}

/// Delivery level of a configuration: at most once when none is given.
pub open spec fn config_qos(q: Option<u8>) -> rumqttc::QoS {
    match q {
        Some(v) => qos_of(v),
        None => rumqttc::QoS::AtMostOnce,
    }
}

/// A deserializer for the `MqttAppender`.
#[derive(Copy, Clone, Eq, PartialEq, Hash, Debug, Default)]
pub struct MqttAppenderDeserializer;

impl MqttAppenderDeserializer {
    /// A builder carrying every setting of the configuration.
    pub fn builder_for(&self, config: MqttAppenderConfig) -> (r: MqttAppenderBuilder)
        ensures
            r.spec_broker() == config.broker@,
            r.spec_client_id() == config.client_id@,
            r.spec_topic() == config.topic@,
            r.spec_qos() == config_qos(config.qos),
            r.spec_username() == opt_view(config.username),
            r.spec_password() == opt_view(config.password),
    {
        let mut builder = MqttAppender::builder().broker(config.broker).client_id(
            config.client_id,
        ).topic(config.topic).username(config.username).password(config.password);
        match config.qos {
            Some(q) => {
                builder = builder.qos(q);
            },
            None => {},
        }
        builder
    }

    /// Builds the appender a configuration describes, with the connection
    /// that the caller must keep driving.
    pub fn deserialize(&self, config: MqttAppenderConfig) -> (r: Result<
        (MqttAppender, rumqttc::Connection),
        ParseError,
    >)
        ensures
            r is Err <==> broker_address(config.broker@) is None,
            r is Err ==> r matches Err(ParseError::InvalidPort),
            r matches Ok((a, _)) ==> a.spec_topic_template() == config.topic@ && a.spec_qos()
                == config_qos(config.qos),
    {
        self.builder_for(config).build()
    }
}

} // verus!
