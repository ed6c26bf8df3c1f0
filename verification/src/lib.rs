//! A light-client verification engine for a BFT blockchain of the Tendermint
//! family.
//!
//! The heart of the crate is the [`scheduler`] module: a driver for skipping
//! verification with recursive bisection. Starting from a trusted state at
//! some height, it establishes trust in a light block at a higher height by
//! attempting a direct jump and, when the validator overlap is insufficient,
//! recursively verifying an intermediate pivot height.
//!
//! The verifier and the block fetcher are external collaborators reached
//! through the [`router::Router`] capability trait; their contracts are pinned
//! down by `router::router_wf`. The [`tester`] module holds the bookkeeping
//! core of a table-driven test harness; everything that touches the file
//! system lives outside this crate.

pub mod mock;
pub mod router;
pub mod scheduler;
pub mod store;
pub mod strutil;
pub mod tester;
pub mod testenv;
pub mod types;
