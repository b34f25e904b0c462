//! Asynchronous delivery of published issues from the outbox.

pub mod task;
pub mod worker;

pub use crate::model::DeliveryOutcome;
pub use task::DeliveryTask;
pub use worker::try_execute_task;
pub use worker::ExecutionOutcome;
