//! A verified kernel boundary layer: translation of user virtual addresses,
//! validated creation and destruction of user memory mappings, and collection
//! of per-task execution metadata, exposed through a syscall facade.

pub mod page;
pub mod space;
pub mod task;
pub mod kernel;
pub mod mapper;
pub mod wire;
pub mod facade;
pub mod laws;
