//! Host-side BLE provisioning and session protocol for mobile cameras.
//!
//! The library holds the protocol logic: the chunk codec that carries
//! payloads larger than one GATT exchange, the per-peer session state
//! machine, the request dispatcher that ties them together, and the logic
//! of the access-point subsystem: the DHCP address range, the controller
//! over the platform's link, DHCP and WiFi interfaces, and the reading of
//! nl80211 replies.

mod addr_map;
pub mod ble_cmd_api;
pub mod mobile_buffer;
pub mod app_data;
pub mod mobile_sdp_types;
pub mod mobile_comm;
pub mod ble_server;
pub mod decimal;
pub mod interface_index;
pub mod ip_range;
pub mod access_point;
pub mod vcam;
pub mod nl80211;
pub mod transfer_laws;
