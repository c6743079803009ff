//! Live chat from two streaming platforms, normalised into one feed and fanned
//! out to local consumers.
//!
//! The crate holds the decisions of the aggregation session: parsing of chat
//! lines and page state, the per-frame protocol of the socket ingester, the
//! de-duplication of polled batches, the consumer registry of the broadcast hub
//! and the start/stop coordinator. Sockets, HTTP and timers are driven by the
//! caller, which hands the results of that work back in as plain values.
pub mod text;
pub mod message;
pub mod deps;
pub mod twitch;
pub mod youtube;
pub mod poller;
pub mod hub;
pub mod session;
pub mod irc;
