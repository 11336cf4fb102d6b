//! The logic of a WebSocket relay that splices manager connections to agents
//! parked behind NAT: who may connect, which session goes where, and how the
//! relay enrolls itself with a control plane.

pub mod agents;
pub mod auth;
pub mod base64;
pub mod bridge;
pub mod control;
pub mod enroll;
pub mod headers;
pub mod ids;
pub mod json;
pub mod jwt;
pub mod object;
pub mod sessions;
pub mod startup;
pub mod text;
pub mod tls;
