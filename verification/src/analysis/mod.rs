//! Holdings analysis: which research blocks a request wants, how requested
//! symbols match book rows, and the earnings calendar's selection rules.
pub mod earnings_calendar;
pub mod news;
pub mod providers;
pub mod selection;
