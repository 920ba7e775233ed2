//! Live session protocol layer of a chat bot: handshake state machines,
//! single-slot event dispatch, the event-stream reconnect supervisor and the
//! correlated request/response channel to the overlay client.
pub mod auth;
pub mod chat;
pub mod chat_stream;
pub mod comet;
pub mod command;
pub mod component;
pub mod connection;
pub mod dispatch;
pub mod envelope;
pub mod event;
pub mod eventsub;
pub mod feature;
pub mod handshake;
pub mod history;
pub mod line;
pub mod listener;
pub mod options;
pub mod random;
pub mod store;
pub mod tags;
pub mod text;
pub mod twitch;
