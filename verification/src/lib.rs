//! Chat server and client core: the room broker, the connection protocol
//! decisions, the user store and the message conversions, with their contracts.

pub mod protocol;
pub mod addr;
pub mod channel;
pub mod ws_messages;
pub mod clock;
pub mod broker_msgs;
pub mod keyed;
pub mod broker_model;
pub mod broker;
pub mod broker_laws;
pub mod users;
pub mod connection;
pub mod client;
