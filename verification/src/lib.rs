//! The core of a subscriber-newsletter service, verified.
//!
//! Publishing is idempotent: a publish request carries a key chosen by
//! the client, and of all requests of one operator under one key exactly
//! one does the work; every other one is answered with the response that
//! was saved for the first. Delivery goes through an outbox: the issue,
//! one delivery task per confirmed subscriber and the saved response
//! become durable in one transaction, and a worker drains the tasks on
//! its own schedule, removing a task once it is delivered or can never be
//! delivered, and keeping it where delivery failed for now.
//!
//! * [`idempotency`] holds the key, the response envelope, the records
//!   and the functions that admit a request or replay a response.
//! * [`storage`] holds the durable state and its transactions.
//! * [`routes`] holds what the request handlers decide, the publish
//!   request first of all.
//! * [`delivery`] holds the delivery tasks and the worker.
//! * [`domain`] holds the validated values of the subscriber domain.
//! * [`model`] states what every operation does, over mathematical
//!   values; [`laws`] proves what follows for the service as a whole.
//! * [`trusted`] holds the calls into other crates, with what is
//!   believed of them.

pub mod authentication;
pub mod delivery;
pub mod domain;
pub mod error;
pub mod idempotency;
pub mod issues;
pub mod laws;
pub mod model;
pub mod routes;
pub mod storage;
pub mod trusted;
pub mod util;

pub use util::error_chain_fmt;
