//! Control plane that keeps a single DNS hostname pointed at the best
//! currently-reachable backend of a configured candidate set.
//!
//! The crate holds the verified core: the per-endpoint monitoring state
//! machine, the central selector with its weight and stickiness rules, the
//! provider reconciliation planner with its record cache, and the
//! notification queue.  Network transports live outside the library and
//! exchange plain values with it.

pub mod cloudflare;
pub mod config;
pub mod dns_state;
pub mod dnswire;
pub mod endpoint;
pub mod http_probe;
pub mod ip;
pub mod monitor;
pub mod reconciler;
pub mod selector;
pub mod telegram;
pub mod text;
