//! Verified logic of the macOS adapter: AppleScript and JavaScript builders,
//! parsers for the records that those scripts return, and the decisions taken
//! between automation steps.
pub mod applescript;
pub mod error;
pub mod json;
pub mod reddit;
pub mod reminders;
pub mod safari;
pub mod scan_state;
pub mod screenshot;
pub mod send;
pub mod shortcuts;
pub mod stickies;
pub mod text;
