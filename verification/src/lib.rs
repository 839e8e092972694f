//! Verified core of a guild onboarding workflow: the stage state machine,
//! the tracking store's semantics, the decimal identifier codec at the
//! store edge, and the chapter roster.

pub mod chapters;
pub mod decimal;
pub mod member_db;
pub mod secrets;
pub mod text;
pub mod workflow;
