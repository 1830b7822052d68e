//! Filter pipeline engine, filter logic and benchmark planning for the
//! Praxis proxy, with contracts proved by Verus.

pub mod actions;
pub mod text;
pub mod message;
pub mod body;
pub mod condition;
pub mod pipeline;
pub mod registry;
pub mod net;
pub mod context;
pub mod observability;
pub mod payload;
pub mod security;
pub mod balancer;
pub mod routing;
pub mod transform;
pub mod guardrails;
pub mod extproc;
pub mod fallback;
pub mod bench;
