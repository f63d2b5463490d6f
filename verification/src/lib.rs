//! A reverse tunnel: an agent inside a private network dials out to a public
//! broker, authenticates with a secret key, and serves the requests that the
//! broker relays to it.
//!
//! The core is the wire format of the handshake (`protocol`), the handshake
//! of the broker (`tunnel`) and of the agent (`agent`), and the connection
//! registry with the relay router (`connection`). Around it stand the secret
//! keys (`utils`), account linking (`auth`, `models`), the agent's
//! configuration (`config`) and the decisions of the chat command (`discord`).
//!
//! Nothing in this library reads a socket, a file or a clock. Where work of
//! that kind alternates with decisions, the decisions are a step function
//! here, and the caller runs the loop.

pub mod agent;
pub mod auth;
pub mod config;
pub mod connection;
pub mod discord;
pub mod models;
pub mod protocol;
pub mod tunnel;
pub mod utils;
