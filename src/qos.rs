use vstd::prelude::*;

verus! {

#[verifier::external_type_specification]
pub struct ExQoS(rumqttc::QoS);

/// Delivery level for a configured integer: 0, 1 and 2 name the three
/// levels, and any other value means at most once.
pub open spec fn qos_of(q: u8) -> rumqttc::QoS {
    if q == 1 {
        rumqttc::QoS::AtLeastOnce
    } else if q == 2 {
        rumqttc::QoS::ExactlyOnce
    } else {
        rumqttc::QoS::AtMostOnce
    }
}

/// Maps a configured integer to a delivery level.
pub fn qos_from_u8(q: u8) -> (r: rumqttc::QoS)
    ensures
        r == qos_of(q),
{
    match q {
        1 => rumqttc::QoS::AtLeastOnce,
        2 => rumqttc::QoS::ExactlyOnce,
        _ => rumqttc::QoS::AtMostOnce,
    }
}

} // verus!
