//! The decision engine of a fee-taking swap forwarder.
//!
//! A requester asks for a token swap that a third-party program carries out.
//! The engine decodes the request, charges the protocol's fee, works out the
//! accounts that the forwarded call may use and the privileges it may have
//! on them, and holds what each leg realized against the minimum that the
//! request demands. It never moves anything itself: it hands out actions and
//! is told how they ended.
//!
//! Two rules carry the engine's safety. No account is presented to a
//! forwarded call with more privilege than the outer call holds on it, and
//! the program-derived authority never signs a forwarded call.

pub mod account;
pub mod authority;
pub mod balance;
pub mod config;
pub mod custodial;
pub mod dispatch;
pub mod error;
pub mod fee;
pub mod key;
pub mod passthrough;
pub mod permissions;
pub mod raceswap_codec;
pub mod swap_codec;
pub mod wire;
