//! A verified core for a challenge deployment orchestrator.
//!
//! The library models the deployment subsystem of a competitive-security
//! event platform: a catalog of declarative challenge specs, deterministic
//! network addressing, persisted deployment rows with transactional state
//! transitions, scoped cleanup guards, a lease reaper, and the decision
//! logic of the HTTP control surface.  Remote effects (the container
//! daemon, the reverse proxy, the database, the clock) are performed by a
//! thin driver outside this crate; every decision and every computed value
//! is specified and verified here.

pub mod addr;
pub mod attach;
pub mod catalog;
pub mod challenge;
pub mod digest;
pub mod engine;
pub mod error;
pub mod guard;
pub mod ident;
pub mod keychain;
pub mod numfmt;
pub mod platform;
pub mod reaper;
pub mod row;
pub mod store;
