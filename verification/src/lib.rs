//! Core of a desktop notification service: the `org.freedesktop.Notifications`
//! protocol state, the orchestrator that keeps the on-screen popup set and its
//! stacking order, and the per-popup lifecycle state machine, together with the
//! pure text utilities the surrounding bar uses (application lookup, status
//! formatting, configuration defaults).
//!
//! Everything here is plain data and decisions; the bus transport, rendering,
//! timers and file access live outside and feed these functions with values.

pub mod app_resolver;
pub mod battery;
pub mod config;
pub mod distro;
pub mod network;
pub mod notification;
pub mod notification_manager;
pub mod notification_popup;
pub mod notification_server;
pub mod seq_util;
pub mod text;
