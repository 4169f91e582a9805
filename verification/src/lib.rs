//! A control plane for a Windows virtual machine: the wire protocol, the rules that a host and a
//! guest apply to it, and the decisions behind each operation.
pub mod base64;
pub mod framing;
pub mod guest;
pub mod host;
pub mod ipc;
pub mod json;
pub mod png;
pub mod posix;
pub mod segments;
pub mod text;
