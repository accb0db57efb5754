//! A verified booking backend: service-provider listings, client records and
//! bookings with status transitions, review aggregation, and an identity
//! allocator over durable keyed stores.
//!
//! The library owns the whole data model and every domain rule; the host
//! process around it only moves bytes in and out of persistent memory.

pub mod model;
pub mod ops;
pub mod registry;
pub mod store;
pub mod text;

