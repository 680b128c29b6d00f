//! The decisions of a minimal GPU guest init.
//!
//! The init loads the NVIDIA driver, starts its daemons and hands the guest over to an
//! agent. This library decides what is done and in which order, edits the files that
//! are edited on the way, and says what each observation leads to. It touches nothing
//! itself: it asks for steps, and a driver performs them.

pub mod action;
pub mod boot;
pub mod config;
pub mod daemon;
pub mod gpu_state;
pub mod kmsg;
pub mod nvrc;
pub mod text;
pub mod time;
pub mod toolkit;
