//! Command bridge between an untrusted webview frontend and a privileged
//! backend: callback script formatting, capability-based authorization,
//! command dispatch decisions and salt validation.

pub mod acl;
pub mod attributes;
pub mod bridge;
pub mod capability;
pub mod command;
pub mod config;
pub mod dispatch;
pub mod endpoints;
pub mod envelope;
pub mod error;
pub mod event;
pub mod expand;
pub mod guarantees;
pub mod manifest;
pub mod pattern;
pub mod pending;
pub mod permission;
pub mod rpc;
pub mod salt;
pub mod scope;
pub mod text;
