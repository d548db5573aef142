//! The web APIs the app talks to.
pub mod typing;
