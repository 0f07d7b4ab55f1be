//! The audio session logic: what a session identifier says of its process, how a
//! session is named, where it is routed, and which per-process handles are kept.

pub mod cache;
pub mod device;
pub mod manager;
pub mod policy;
pub mod routing;
pub mod scan;
pub mod session;
