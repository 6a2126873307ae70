//! Alert-relay core: an HTTP alert endpoint broadcasts a message to a fixed
//! list of admin chats through a messaging bot, fail-fast on the first
//! delivery error, while a bot update loop runs independently alongside it.

pub mod alert;
pub mod botloop;
pub mod config;
pub mod delivery;
pub mod handler;
pub mod json;
pub mod main_client;
