//! Per-device request scheduling core of a lump (blob) storage engine.
//!
//! A device binds one storage instance to a single worker. Requests are built
//! with [`command::DeviceRequest`], admitted under an overload policy, ordered
//! by deadline in a [`queue::DeadlineQueue`] and executed one at a time against
//! the [`storage::Storage`] that the device owns.
pub mod command;
pub mod deadline;
pub mod device;
pub mod error;
pub mod gate;
pub mod lump;
pub mod queue;
pub mod storage;
