//! Safari automation through AppleScript and JavaScript.
pub mod ops;
pub mod observe;
pub mod ai;
pub mod eval;
pub mod inspect;
pub mod interaction;
pub mod script;
pub mod scroll;
pub mod social;
pub mod target;
pub mod throttle;
pub mod types;
pub mod wait;
