//! A small registry of named habits, each with a completion flag for the
//! current day and a streak counter, and the line-oriented text format in
//! which the registry is kept between runs.
//!
//! [`HabitTracker`] is the registry and [`Habit`] one entry of it. The
//! modules [`tracker`] and [`format`] say in mathematical terms what the
//! operations do and what a stored text means, and prove the laws that hold
//! of them; [`store`] writes and reads the text. Nothing here touches a
//! file or a terminal: the caller reads the text and hands it over.

pub mod chars;
pub mod decimal;
pub mod format;
pub mod habit;
pub mod menu;
pub mod store;
pub mod tracker;
pub mod trusted;

pub use crate::decimal::parse_number;
pub use crate::format::LoadError;
pub use crate::habit::Habit;
pub use crate::menu::MenuOption;
pub use crate::tracker::HabitTracker;
