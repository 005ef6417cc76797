use vstd::prelude::*;
use std::sync::Arc;

verus! {

#[verifier::external_type_specification]
#[verifier::external_body]
pub struct ExMqttOptions(rumqttc::MqttOptions);

#[verifier::external_type_specification]
#[verifier::external_body]
pub struct ExClient(rumqttc::Client);

#[verifier::external_type_specification]
#[verifier::external_body]
pub struct ExConnection(rumqttc::Connection);

#[verifier::external_type_specification]
#[verifier::external_body]
pub struct ExClientError(rumqttc::ClientError);

#[verifier::external_type_specification]
#[verifier::external_body]
#[verifier::reject_recursive_types(R)]
#[verifier::reject_recursive_types(T)]
pub struct ExMutex<R, T: ?Sized>(parking_lot::lock_api::Mutex<R, T>);

#[verifier::external_type_specification]
#[verifier::external_body]
pub struct ExRawMutex(parking_lot::RawMutex);

/// The client behind its lock, shared by every caller of one appender.
pub type SharedClient = Arc<parking_lot::Mutex<rumqttc::Client>>;

/// Relies on rumqttc::MqttOptions::new: options naming the client id and the
/// broker's host and port.
#[verifier::external_body]
pub(crate) fn new_options(id: String, host: String, port: u16) -> rumqttc::MqttOptions {
    rumqttc::MqttOptions::new(id, host, port)
}

/// Relies on rumqttc::MqttOptions::set_keep_alive, which panics only on a
/// nonzero interval under a second; whole seconds never are.
#[verifier::external_body]
pub(crate) fn set_keep_alive(o: &mut rumqttc::MqttOptions, secs: u64) {
    o.set_keep_alive(std::time::Duration::from_secs(secs));
}

/// Relies on rumqttc::MqttOptions::set_credentials: the session logs in with
/// this user name and password.
#[verifier::external_body]
pub(crate) fn set_credentials(o: &mut rumqttc::MqttOptions, username: String, password: String) {
    o.set_credentials(username, password);
}

/// Relies on rumqttc::Client::new: a client and the connection whose
/// notifications drive it, joined by a request channel of `cap` places.
#[verifier::external_body]
pub(crate) fn new_client(o: rumqttc::MqttOptions, cap: usize) -> (rumqttc::Client, rumqttc::Connection) {
    rumqttc::Client::new(o, cap)
}

/// Relies on parking_lot::Mutex::new: a lock around the client.
#[verifier::external_body]
pub(crate) fn new_shared_client(c: rumqttc::Client) -> SharedClient {
    Arc::new(parking_lot::Mutex::new(c))
}

/// Relies on parking_lot::Mutex::lock and rumqttc::Client::publish: the lock
/// is held for this one publish and released when it returns. Whether the
/// request is taken depends on the connection, so nothing is promised of it.
#[verifier::external_body]
pub(crate) fn publish_locked(
    client: &SharedClient,
    topic: String,
    qos: rumqttc::QoS,
    retain: bool,
    payload: Vec<u8>,
) -> Result<(), rumqttc::ClientError> {
    client.lock().publish(topic, qos, retain, payload)
}

} // verus!
