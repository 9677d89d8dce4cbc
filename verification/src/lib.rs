//! Core logic of an anonymous-confession service for chat communities.
//!
//! Members submit confessions that moderators vet before publication; the
//! submitter is shown behind a per-community pseudonymous display tag derived
//! from a rotatable salt. Moderators may, by quorum vote, unmask the identity
//! behind a tag. This crate holds the verified core: the pseudonym registry
//! and deriver, the channel role registry, the confession workflow state
//! machine, and the reveal-vote protocol. Platform I/O and persistence stay
//! outside, handing plain values in and out.

pub mod auth;
pub mod button;
pub mod channels;
pub mod error;
pub mod guilds;
pub mod pseudonym;
pub mod salts;
pub mod tag;
pub mod vote;
pub mod workflow;
