//! The operator socket as the driver sees it.

pub mod conns;
pub mod dispatch;
pub mod hub;
pub mod lines;
pub mod project;
