//! Route resolution and message-flow access control for a relay-based
//! message-routing system.
//!
//! The crate has three parts. `addr`, `lookup` and `resolve` turn an abstract
//! multi-protocol address (node aliases, project aliases, raw endpoints) into
//! a concrete route plus a mapping from sub-route to required identity,
//! pausing when a project alias needs a remote cache refresh. `relay` builds
//! the relay-creation request from a resolved route, deriving the relay's
//! registered name. `access` is the composable authorization algebra that
//! decides, per message, whether delivery may proceed.

pub mod access;
pub mod addr;
pub mod error;
pub mod lookup;
pub mod relay;
pub mod resolve;
