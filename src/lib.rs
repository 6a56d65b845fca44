//! Bring-up sequence of a Wi-Fi board that joins a network, waits for an
//! address, connects to an MQTT broker and publishes one status message.
//!
//! The sequence is a state machine: the driver feeds it the outcome of each
//! outside operation and carries out the action it hands back.
pub mod settings;
pub mod hostname;
pub mod sequence;
pub mod laws;
