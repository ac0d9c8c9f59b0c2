//! Core of a realtime subscription client: it keeps one GraphQL-over-WebSocket
//! session alive, keeps the set of topic subscriptions in step with a list of
//! topics of interest, and recovers from network failures and expired
//! credentials. Everything here is pure decision logic; sockets, timers and
//! credential storage live with the caller.

pub mod backoff;
pub mod chance;
pub mod codec;
pub mod control;
pub mod dev_store;
pub mod events;
pub mod frames;
pub mod handshake;
pub mod json;
pub mod oauth;
pub mod outputs;
pub mod pending;
pub mod protocol;
pub mod sorting;
pub mod streamers;
pub mod strmap;
pub mod subscriptions;
pub mod text;
pub mod topic_source;
pub mod topics;
pub mod worker;
