//! Manage the communication with an Zigbee2MQTT instance via an MQTT broker.

pub mod connection;
pub mod exposes;
pub mod handlers;
pub mod laws;
pub mod manager;
#[allow(clippy::module_inception)]
pub mod mqtt;
pub mod subscription;

pub use handlers::group::BridgeGroup;
pub use manager::{
    ConnectionStatus, Manager, Options, OptionsCredentials, OptionsTLS, OptionsTLSClient, Status,
    Z2MStatus,
};
