//! Rewards those who approve a tracked author's pull requests, once per
//! pull request and approver.
//!
//! The crate holds the decisions of the daemon: how an approver's account is
//! matched to a rewards account, which reviews are candidates in a cycle, what
//! is sent, and how the durable state moves. The network and the disk stay
//! with the caller, who hands in what was fetched and carries out what is
//! decided.

pub mod api;
pub mod bonusly;
pub mod clock;
pub mod config;
pub mod github;
pub mod laws;
pub mod notify_send;
pub mod program;
pub mod state;
pub mod text;

pub use config::Config;
pub use program::{Delivery, Program, ReviewStatus};
pub use state::{MissingEmail, RepliedReview, State};
