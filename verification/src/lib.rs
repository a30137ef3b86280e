//! Daily Commando — a daily-standup timer: the session state machine, the
//! big clock font, the landscape scene and the rules of its screens.

pub mod text;
pub mod color;
pub mod session;
pub mod ascii_fonts;
pub mod landscape;
pub mod roster;
pub mod welcome;
pub mod screens;
pub mod flow;
pub mod lifecycle;
pub mod telemetry;
pub mod cli;
