//! Keystroke's library: the rules by which the app talks to the typing.com
//! teacher API, caches its bearer token, keeps passwords in the platform
//! keyring and holds its settings.
use vstd::prelude::*;

pub mod api;
pub mod json;
pub mod numbers;
pub mod timestamp;
mod keyring;
pub mod secrets;
pub mod settings;
pub mod text;

verus! {

/// The application's name, used to qualify keyring services.
pub const APP_NAME: &'static str = "keystroke";

} // verus!
