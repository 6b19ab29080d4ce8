//! Session-authenticated booking client core: anti-forgery token extraction,
//! cookie synchronization, catalog resolution, and the view state machine.

pub mod bytes;
pub mod catalog;
pub mod errors;
pub mod json;
pub mod session;
pub mod state;
pub mod token;
