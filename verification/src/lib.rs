//! Core of a transactional newsletter-publishing pipeline.
//!
//! The hard problem solved here is making a slow, side-effecting command
//! ("send an email to every confirmed subscriber") safe to retry at every
//! layer. Two pieces carry that guarantee:
//!
//! * the idempotent command cache ([`idempotency`]): it claims a
//!   (principal, key) pair exactly once and replays the saved response,
//!   byte for byte, on every later submission with the same key;
//! * the delivery queue worker ([`issue_delivery_worker`]): it drains the
//!   fan-out queue one row at a time under a skip-locked claim, so several
//!   worker instances never process the same row twice.
//!
//! Durable state (the idempotency, issue, queue and subscription tables)
//! is modelled by [`store::Store`], an explicit state machine with a
//! mathematical view; every transition on it is verified. The unverified
//! edges — the HTTP server, the SQL driver and the real email transport —
//! live outside this crate and only exchange plain values with it.

pub mod admin_newsletter;
pub mod admin_password;
pub mod authentication;
pub mod domain;
pub mod email_client;
pub mod idempotency;
pub mod issue_delivery_worker;
pub mod login;
pub mod newsletters;
pub mod response;
pub mod startup;
pub mod store;
pub mod subscriptions_confirm;
pub mod utils;
