//! Verified core of a bridge between Dahua VTO door stations and home automation.

pub mod bafa_cloud;
pub mod broker_laws;
pub mod client_laws;
pub mod config;
pub mod config_laws;
pub mod course;
pub mod dahuavto;
pub mod digest;
pub mod door;
pub mod events;
pub mod frame;
pub mod gpio;
pub mod gpio_laws;
pub mod http_server;
pub mod json;
pub mod mqtt;
pub mod server_laws;
pub mod session;
pub mod sip;
pub mod sip_laws;
pub mod table;
pub mod text;
pub mod text_laws;
pub mod wire_laws;
