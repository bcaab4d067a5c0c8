//! Core of a modular browser engine built on least privilege: lifecycle of the
//! core architecture, the capability-based security framework, sandbox
//! bookkeeping, and the inter-process communication layer with its message
//! format.
pub mod clock;
pub mod lifecycle;
pub mod sandbox;
pub mod security;
pub mod text;
pub mod architecture;
pub mod ipc;
