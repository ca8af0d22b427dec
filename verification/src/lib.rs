//! Sending transactions to Solana until they land.
//!
//! A transaction that is sent once may be lost on its way to the leader. This library decides
//! what to do about it:
//! - [`retry_engine`]: when to simulate, send, wait, sign anew, back off or give up;
//! - [`backoff`]: how long to wait between two attempts;
//! - [`preflight_cache`]: which simulations need not be run again;
//! - [`tx_monitor`]: how far a transaction has come, and whether to go on waiting for it;
//! - [`leader_tracker`]: who leads the current slot, and where the leader can be reached;
//! - [`transaction`]: what is told apart by its key, and how it is signed anew;
//! - [`config`] and [`error`]: what to do, and what can go wrong.
//!
//! What a session does after each event stands in [`step_laws`], and what holds of it as a whole,
//! whatever the network answers, in [`session_laws`].
//!
//! The library talks to no network itself. Whoever uses it performs the actions that it asks for and
//! tells it what came of them.

pub mod backoff;
pub mod config;
pub mod error;
pub mod keys;
pub mod leader_tracker;
pub mod preflight_cache;
pub mod retry_engine;
pub mod session_laws;
pub mod step_laws;
pub mod text;
pub mod time;
pub mod transaction;
pub mod tx_monitor;

pub use config::{CommitmentLevel, RetryConfig};
pub use error::{Result, RetryError};
pub use retry_engine::{RetryEngine, RetryStats};
pub use tx_monitor::TxStatus;
