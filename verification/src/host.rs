//! The host's side: the daemon that decides what is allowed, and drives the virtual machine.
pub mod capabilities;
pub mod cli;
pub mod display;
pub mod doctor;
pub mod guestclient;
pub mod image;
pub mod input;
pub mod journal;
pub mod lifecycle;
pub mod policy;
pub mod pull;
pub mod push;
pub mod qmp;
pub mod report;
pub mod server;
pub mod shell;
pub mod supervisor;
pub mod vm;
