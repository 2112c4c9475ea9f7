//! Reactive property-binding core for a scriptable desktop-shell widget
//! toolkit.
//!
//! Widget properties are either plain values or dynamic values that are
//! recomputed on a timer or whenever a named signal fires.  This crate holds
//! the verified core of that machinery: the dynamic-value model and its
//! parser, the publish/subscribe signal bus, the binding lifecycle engine,
//! and the event-dispatch step that feeds the bus from window-manager
//! events.  The host process (the GUI toolkit, the embedded script runtime,
//! and the background IPC threads) drives this core and performs the actual
//! side effects it decides on.

pub mod binding;
pub mod bus;
pub mod config;
pub mod dynamic;
pub mod error;
pub mod events;
pub mod layout;
pub mod text;
pub mod value;
pub mod widgets;
