//! Rental requests for cars, kept in a durable store.
//!
//! A request is created from a payload, may be approved or rejected any
//! number of times, and leaves the store when the car is returned. The store
//! is a counter that hands out identifiers and an ordered map from
//! identifier to encoded request. Both live in regions of one byte space
//! that outlasts the process, so a store that is opened again holds what it
//! held before.
//!
//! * [`record`]: the request, the payload and the status.
//! * [`codec`]: the byte format of a stored request, with the proof that
//!   decoding undoes encoding.
//! * [`storage`]: the counter and the map of `ic_stable_structures`, behind
//!   trusted contracts.
//! * [`service`]: the store and the operations on it.
//! * [`history`]: what holds of a store over any run of operations.
//! * [`error`]: the failures.

pub mod codec;
pub mod error;
pub mod history;
pub mod record;
pub mod service;
pub mod storage;
