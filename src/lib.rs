//! A minimal peer-to-peer application process: a counter and a message log,
//! handlers for local callers and for peers, and the decisions around an
//! outbound call to a peer.

pub mod json;
pub mod outbound;
pub mod state;

pub use outbound::{finish_send, plan_send, OutboundCall, SendFailure, SendRequest};
pub use state::AppState;
