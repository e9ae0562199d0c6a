//! Event-processing core of the Sneaky Mouse cheese game server: decimal
//! encoding and parsing, currency transaction rules, database-reply parsing,
//! the command pipeline sent to the database, and the per-event decision
//! procedures. Network and database I/O live in the application around it.
pub mod config;
pub mod field;
pub mod key;
pub mod stream;
pub mod util;
pub mod reply;
pub mod pipe;
pub mod db;
pub mod com;
pub mod exchange;
pub mod rules;
pub mod event;
pub mod event_laws;
pub mod http_server;
pub mod inbox;
