//! A small reactive UI core: declarative node trees, rendering to a plain
//! output tree, event routing by identity token, a key-to-identity registry
//! swept once per cycle, a typed state store, and the cycle state machine.

pub mod context;
pub mod event;
pub mod node;
pub mod runtime;
pub mod state;
pub mod token;
