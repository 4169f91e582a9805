//! The guest's side: a service inside Windows that does what it is told and reports what happened.
pub mod capture;
pub mod chunk;
pub mod deadline;
pub mod dispatch;
pub mod fsio;
pub mod log;
pub mod paths;
pub mod pull;
pub mod transfer;
pub mod transport;
pub mod win32;
