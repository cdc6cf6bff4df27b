//! Decision logic of a transactional mail dispatch pipeline: failure
//! classification, retry and backoff, idempotent suppression of duplicate
//! sends, bounded send concurrency, acknowledgement discipline, event
//! validation and template rendering.
pub mod backoff;
pub mod consumer;
pub mod dispatch;
pub mod event;
pub mod message;
pub mod outcome;
pub mod queue;
pub mod render;
pub mod slots;
pub mod store;
