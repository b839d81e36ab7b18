//! Verified core of the Octos app client: capability negotiation, cursor
//! bookkeeping, reconnect backoff, connection-state folding, A2App card
//! text processing and the pure app-state reducer.

pub mod text;
pub mod json;

pub mod keys;
pub mod strmap;
pub mod capability;
pub mod transport;
pub mod protocol;
pub mod cursor;
pub mod backoff;
pub mod search;
pub mod numfmt;
pub mod a2app;
pub mod keyed;
pub mod ids;
pub mod toasts;
pub mod notification;
pub mod approvals;
pub mod records;
pub mod state;
pub mod reducer;
pub mod connection;
pub mod agent;
pub mod chat;
pub mod login;
pub mod laws;
