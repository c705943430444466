//! A single-election voting registry: registration, owner approval, time-boxed
//! voting by approved voters for approved candidates, tallies and a winner.

pub mod types;
pub mod store;
pub mod election;
pub mod laws;

pub use types::{Address, Candidate, Status, Voter, VotingError};
pub use election::VotingOrganization;
