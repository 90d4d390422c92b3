//! Core of a realtime chat backend: a signed, time-bounded bearer-token
//! scheme, a reversible bit-permutation codec that hides sequential ids,
//! a room registry with broadcast fan-out, and the decision logic of a
//! per-connection session with heartbeat supervision.
pub mod id;
pub mod strutil;
pub mod jwt;
pub mod session;
pub mod room;
pub mod uuid;
pub mod event;
pub mod account;
