use vstd::prelude::*;
use crate::broker::{broker_address, parse_broker_url, ParseError};
use crate::buffer::MqttBuffer;
use crate::client::{
    new_client, new_options, new_shared_client, publish_locked, set_credentials, set_keep_alive,
    SharedClient,
};
use crate::qos::qos_of;
use crate::topic::{level_name, resolve, resolve_topic};

verus! {

/// Seconds between keep-alive pings of the session.
pub const KEEP_ALIVE_SECS: u64 = 30;

/// Places in the channel that carries publish requests to the connection.
pub const REQUEST_CAPACITY: usize = 10;

pub open spec fn opt_view(o: Option<String>) -> Option<Seq<char>> {
    match o {
        Some(s) => Some(s@),
        None => None,
    }
}

/// The credentials a session logs in with: only a user name and a password
/// together are used.
pub open spec fn credentials_of(username: Option<Seq<char>>, password: Option<Seq<char>>) -> Option<(Seq<char>, Seq<char>)> {
    match (username, password) {
        (Some(u), Some(p)) => Some((u, p)),
        _ => None,
    }
}

pub open spec fn credentials_view(c: Option<(String, String)>) -> Option<(Seq<char>, Seq<char>)> {
    match c {
        Some((u, p)) => Some((u@, p@)),
        None => None,
    }
}

/// Why a publish was not taken.
#[derive(Debug, Clone, Copy, PartialEq, Eq, Structural)]
pub enum PublishError {
    /// The client could not hand the request to its connection.
    RequestRejected,
}

/// What the session is opened with.
pub struct ConnectSettings {
    pub host: String,
    pub port: u16,
    pub client_id: String,
    pub keep_alive_secs: u64,
    pub credentials: Option<(String, String)>,
}

/// One publish: where, how and what.
pub struct Publication {
    pub topic: String,
    pub qos: rumqttc::QoS,
    pub retain: bool,
    pub payload: Vec<u8>,
}

/// An appender which logs to an MQTT broker.
pub struct MqttAppender {
    client: SharedClient,
    topic_template: String,
    qos: rumqttc::QoS,
}

/// A builder for `MqttAppender`s.
pub struct MqttAppenderBuilder {
    broker: String,
    client_id: String,
    topic: String,
    qos: rumqttc::QoS,
    username: Option<String>,
    password: Option<String>,
}

fn clone_opt(o: &Option<String>) -> (r: Option<String>)
    ensures
        opt_view(r) == opt_view(*o),
{
    match o {
        Some(s) => Some(s.clone()),
        None => None,
    }
}

/// Maps what the client answered to a publish.
pub fn publish_result(res: Result<(), rumqttc::ClientError>) -> (r: Result<(), PublishError>)
    ensures
        r is Ok <==> res is Ok,
        r is Err ==> r == Err::<(), PublishError>(PublishError::RequestRejected),
{
    match res {
        Ok(()) => Ok(()),
        Err(_) => Err(PublishError::RequestRejected),
    }
}

/// Opens a client as the settings say, behind its lock, and the connection
/// that must be driven for it to make progress.
fn open_connection(settings: ConnectSettings) -> (SharedClient, rumqttc::Connection) {
    let mut options = new_options(settings.client_id, settings.host, settings.port);
    set_keep_alive(&mut options, settings.keep_alive_secs);
    match settings.credentials {
        Some((u, p)) => set_credentials(&mut options, u, p),
        None => {},
    }
    let (client, connection) = new_client(options, REQUEST_CAPACITY);
    (new_shared_client(client), connection)
}

impl MqttAppender {
    pub closed spec fn spec_topic_template(&self) -> Seq<char> {
        self.topic_template@
    }

    pub closed spec fn spec_qos(&self) -> rumqttc::QoS {
        self.qos
    }

    /// Creates a new `MqttAppender` builder with the default settings.
    pub fn builder() -> (r: MqttAppenderBuilder)
        ensures
            r.spec_broker() == "mqtt://localhost:1883"@,
            r.spec_client_id() == "log4rs_client"@,
            r.spec_topic() == "logs"@,
            r.spec_qos() == rumqttc::QoS::AtMostOnce,
            r.spec_username() is None,
            r.spec_password() is None,
    {
        MqttAppenderBuilder {
            broker: "mqtt://localhost:1883".to_owned(),
            client_id: "log4rs_client".to_owned(),
            topic: "logs".to_owned(),
            qos: rumqttc::QoS::AtMostOnce,
            username: None,
            password: None,
        }
    }

    /// The topic a record of this severity goes to.
    pub fn topic_for(&self, level: log::Level) -> (r: String)
        ensures
            r@ == resolve(self.spec_topic_template(), level_name(level)),
    {
        resolve_topic(self.topic_template.as_str(), level)
    }

    /// The publish made for an encoded record of this severity.
    pub fn publication(&self, level: log::Level, buffer: MqttBuffer) -> (r: Publication)
        ensures
            r.topic@ == resolve(self.spec_topic_template(), level_name(level)),
            r.qos == self.spec_qos(),
            !r.retain,
            r.payload@ == buffer@,
    {
        Publication {
            topic: self.topic_for(level),
            qos: self.qos,
            retain: false,
            payload: buffer.into_bytes(),
        }
    }

    /// Publishes an encoded record of this severity; the client is locked for
    /// the publish alone.
    pub fn append(&self, level: log::Level, buffer: MqttBuffer) -> (r: Result<(), PublishError>)
        ensures
            r is Err ==> r == Err::<(), PublishError>(PublishError::RequestRejected),
    {
        let p = self.publication(level, buffer);
        publish_result(publish_locked(&self.client, p.topic, p.qos, p.retain, p.payload))
    }

    /// Nothing is held back by the appender itself.
    pub fn flush(&self) {
    }
}

impl MqttAppenderBuilder {
    pub closed spec fn spec_broker(&self) -> Seq<char> {
        self.broker@
    }

    pub closed spec fn spec_client_id(&self) -> Seq<char> {
        self.client_id@
    }

    pub closed spec fn spec_topic(&self) -> Seq<char> {
        self.topic@
    }

    pub closed spec fn spec_qos(&self) -> rumqttc::QoS {
        self.qos
    }

    pub closed spec fn spec_username(&self) -> Option<Seq<char>> {
        opt_view(self.username)
    }

    pub closed spec fn spec_password(&self) -> Option<Seq<char>> {
        opt_view(self.password)
    }

    /// Sets the MQTT broker URL.
    pub fn broker(self, broker: String) -> (r: MqttAppenderBuilder)
        ensures
            r.spec_broker() == broker@,
            r.spec_client_id() == self.spec_client_id(),
            r.spec_topic() == self.spec_topic(),
            r.spec_qos() == self.spec_qos(),
            r.spec_username() == self.spec_username(),
            r.spec_password() == self.spec_password(),
    {
        MqttAppenderBuilder { broker, ..self }
    }

    /// Sets the MQTT client ID.
    pub fn client_id(self, client_id: String) -> (r: MqttAppenderBuilder)
        ensures
            r.spec_broker() == self.spec_broker(),
            r.spec_client_id() == client_id@,
            r.spec_topic() == self.spec_topic(),
            r.spec_qos() == self.spec_qos(),
            r.spec_username() == self.spec_username(),
            r.spec_password() == self.spec_password(),
    {
        MqttAppenderBuilder { client_id, ..self }
    }

    /// Sets the MQTT topic template; a `{level}` in it is replaced by the
    /// record's severity.
    pub fn topic(self, topic: String) -> (r: MqttAppenderBuilder)
        ensures
            r.spec_broker() == self.spec_broker(),
            r.spec_client_id() == self.spec_client_id(),
            r.spec_topic() == topic@,
            r.spec_qos() == self.spec_qos(),
            r.spec_username() == self.spec_username(),
            r.spec_password() == self.spec_password(),
    {
        MqttAppenderBuilder { topic, ..self }
    }

    /// Sets the MQTT QoS level (0, 1, or 2; anything else means 0).
    pub fn qos(self, qos: u8) -> (r: MqttAppenderBuilder)
        ensures
            r.spec_broker() == self.spec_broker(),
            r.spec_client_id() == self.spec_client_id(),
            r.spec_topic() == self.spec_topic(),
            r.spec_qos() == qos_of(qos),
            r.spec_username() == self.spec_username(),
            r.spec_password() == self.spec_password(),
    {
        MqttAppenderBuilder { qos: crate::qos::qos_from_u8(qos), ..self }
    }

    /// Sets the username for MQTT authentication.
    pub fn username(self, username: Option<String>) -> (r: MqttAppenderBuilder)
        ensures
            r.spec_broker() == self.spec_broker(),
            r.spec_client_id() == self.spec_client_id(),
            r.spec_topic() == self.spec_topic(),
            r.spec_qos() == self.spec_qos(),
            r.spec_username() == opt_view(username),
            r.spec_password() == self.spec_password(),
    {
        MqttAppenderBuilder { username, ..self }
    }

    /// Sets the password for MQTT authentication.
    pub fn password(self, password: Option<String>) -> (r: MqttAppenderBuilder)
        ensures
            r.spec_broker() == self.spec_broker(),
            r.spec_client_id() == self.spec_client_id(),
            r.spec_topic() == self.spec_topic(),
            r.spec_qos() == self.spec_qos(),
            r.spec_username() == self.spec_username(),
            r.spec_password() == opt_view(password),
    {
        MqttAppenderBuilder { password, ..self }
    }

    /// The settings the session is opened with, or the reason the broker
    /// address was refused.
    pub fn connect_settings(&self) -> (r: Result<ConnectSettings, ParseError>)
        ensures
            broker_address(self.spec_broker()) is None ==> r == Err::<ConnectSettings, ParseError>(
                ParseError::InvalidPort,
            ),
            broker_address(self.spec_broker()) matches Some(a) ==> r matches Ok(s) && s.host@
                == a.0 && s.port == a.1 && s.client_id@ == self.spec_client_id()
                && s.keep_alive_secs == KEEP_ALIVE_SECS && credentials_view(s.credentials)
                == credentials_of(self.spec_username(), self.spec_password()),
    {
        let (host, port) = match parse_broker_url(self.broker.as_str()) {
            Ok(hp) => hp,
            Err(e) => {
                return Err(e);
            },
        };
        let credentials = match (&self.username, &self.password) {
            (Some(u), Some(p)) => Some((u.clone(), p.clone())),
            _ => None,
        };
        Ok(
            ConnectSettings {
                host,
                port,
                client_id: self.client_id.clone(),
                keep_alive_secs: KEEP_ALIVE_SECS,
                credentials,
            },
        )
    }

    /// Consumes the builder: opens the client and hands back the appender with
    /// the connection, which the caller must keep driving.
    pub fn build(self) -> (r: Result<(MqttAppender, rumqttc::Connection), ParseError>)
        ensures
            r is Err <==> broker_address(self.spec_broker()) is None,
            r is Err ==> r matches Err(ParseError::InvalidPort),
            r matches Ok((a, _)) ==> a.spec_topic_template() == self.spec_topic() && a.spec_qos()
                == self.spec_qos(),
    {
        let settings = match self.connect_settings() {
            Ok(s) => s,
            Err(e) => {
                return Err(e);
            },
        };
        let (client, connection) = open_connection(settings);
        Ok((MqttAppender { client, topic_template: self.topic, qos: self.qos }, connection))
    }
}

} // verus!
