//! Encrypted group voice chat: the relay server's state and rules, the wire
//! protocol, and the decisions of the clients.

pub mod addr;
pub mod audio;
pub mod command_laws;
pub mod commands;
pub mod config;
pub mod deeplink;
pub mod desktop;
pub mod desktop_laws;
pub mod dev_log;
pub mod digest;
pub mod dm;
pub mod events;
pub mod history;
pub mod hotkeys;
pub mod identity;
pub mod invite;
pub mod jitter;
pub mod loadtest;
pub mod messages;
pub mod metrics;
pub mod names;
pub mod network;
pub mod overlay;
pub mod peer_gain;
pub mod protocol;
pub mod quality;
pub mod rain;
pub mod random;
pub mod rate_limit;
pub mod receiver;
pub mod relay;
pub mod screen;
pub mod sender;
pub mod server_laws;
pub mod server_model;
pub mod server_registry;
pub mod session;
pub mod session_laws;
pub mod settings;
pub mod state;
pub mod table;
pub mod terminal;
pub mod text;
pub mod tls;
pub mod update_check;
pub mod voice_actor;
pub mod voice_crypto;
pub mod wire;
