//! Fixed configuration of the sequence: the broker endpoint, the transport
//! and client parameters, the published message.
use vstd::prelude::*;

verus! {

/// Interval between two polls of the address-configuration status.
pub const POLL_INTERVAL_MS: u64 = 100;

/// Idle time after which the transport connection is considered dead.
pub const IDLE_TIMEOUT_SECS: u64 = 10;

/// Size of each of the transport's receive and send buffers.
pub const SOCKET_BUFFER_LEN: usize = 4096;

/// Size of each of the MQTT client's read and write buffers.
pub const CLIENT_BUFFER_LEN: usize = 1000;

/// Depth of the MQTT client's queue of operations in flight.
pub const MAX_IN_FLIGHT: usize = 20;

/// Keep-alive interval announced to the broker: the largest the protocol allows.
pub const KEEP_ALIVE_SECS: u16 = 65535;

/// MQTT protocol version spoken to the broker.
pub const PROTOCOL_VERSION: u8 = 5;

pub const BROKER_PORT: u16 = 1883;

pub const BROKER_USERNAME: &'static str = "tasmota_plug";

pub const BROKER_PASSWORD: &'static str = "plugs";

pub const TOPIC: &'static str = "test-topic";

pub const PAYLOAD: &'static str = "{'temp':42}";

/// Host name advertised to the DHCP server.
pub const HOSTNAME: &'static str = "PicoWSwitchRS";

/// Most bytes a DHCP host name may hold.
pub const HOSTNAME_CAPACITY: usize = 32;

/// An IPv4 address and a port.
#[derive(Clone, Copy, Debug, PartialEq, Eq)]
pub struct Endpoint {
    pub octets: (u8, u8, u8, u8),
    pub port: u16,
}

/// What the transport connection is built with.
#[derive(Clone, Copy, Debug, PartialEq, Eq)]
pub struct TransportSettings {
    pub remote: Endpoint,
    pub idle_timeout_secs: u64,
    pub rx_buffer_len: usize,
    pub tx_buffer_len: usize,
}

/// Delivery guarantee negotiated with the broker.
#[derive(Clone, Copy, Debug, PartialEq, Eq)]
pub enum QualityOfService {
    AtMostOnce,
    AtLeastOnce,
    ExactlyOnce,
}

/// What the MQTT client is built with.
#[derive(Clone, Copy, Debug, PartialEq, Eq)]
pub struct ClientSettings {
    pub protocol_version: u8,
    pub max_subscribe_qos: QualityOfService,
    pub username: &'static str,
    pub password: &'static str,
    pub keep_alive_secs: u16,
    pub write_buffer_len: usize,
    pub read_buffer_len: usize,
    pub max_in_flight: usize,
}

/// The one message that the sequence publishes.
#[derive(Clone, Copy, Debug, PartialEq, Eq)]
pub struct Message {
    pub topic: &'static str,
    pub payload: &'static str,
}

pub open spec fn spec_transport_settings() -> TransportSettings {
    TransportSettings {
        remote: Endpoint { octets: (192u8, 168u8, 5u8, 85u8), port: BROKER_PORT },
        idle_timeout_secs: IDLE_TIMEOUT_SECS,
        rx_buffer_len: SOCKET_BUFFER_LEN,
        tx_buffer_len: SOCKET_BUFFER_LEN,
    }
}

pub open spec fn spec_client_settings() -> ClientSettings {
    ClientSettings {
        protocol_version: PROTOCOL_VERSION,
        max_subscribe_qos: QualityOfService::AtMostOnce,
        username: BROKER_USERNAME,
        password: BROKER_PASSWORD,
        keep_alive_secs: KEEP_ALIVE_SECS,
        write_buffer_len: CLIENT_BUFFER_LEN,
        read_buffer_len: CLIENT_BUFFER_LEN,
        max_in_flight: MAX_IN_FLIGHT,
    }
}

pub open spec fn spec_message() -> Message {
    Message { topic: TOPIC, payload: PAYLOAD }
}

/// The broker at 192.168.5.85:1883, with a ten-second idle timeout and
/// 4096-byte buffers.
pub fn transport_settings() -> (r: TransportSettings)
    ensures
        r == spec_transport_settings(),
{
    TransportSettings {
        remote: Endpoint { octets: (192, 168, 5, 85), port: BROKER_PORT },
        idle_timeout_secs: IDLE_TIMEOUT_SECS,
        rx_buffer_len: SOCKET_BUFFER_LEN,
        tx_buffer_len: SOCKET_BUFFER_LEN,
    }
}

/// MQTT v5, subscriptions at most once, the broker's credentials, a keep-alive
/// that never expires, 1000-byte buffers and twenty operations in flight.
pub fn client_settings() -> (r: ClientSettings)
    ensures
        r == spec_client_settings(),
{
    ClientSettings {
        protocol_version: PROTOCOL_VERSION,
        max_subscribe_qos: QualityOfService::AtMostOnce,
        username: BROKER_USERNAME,
        password: BROKER_PASSWORD,
        keep_alive_secs: KEEP_ALIVE_SECS,
        write_buffer_len: CLIENT_BUFFER_LEN,
        read_buffer_len: CLIENT_BUFFER_LEN,
        max_in_flight: MAX_IN_FLIGHT,
    }
}

/// The status message: `{'temp':42}` on `test-topic`.
pub fn message() -> (r: Message)
    ensures
        r == spec_message(),
{
    Message { topic: TOPIC, payload: PAYLOAD }
}

} // verus!
