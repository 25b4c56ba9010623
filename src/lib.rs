//! A log writer that sends records to a file named after the current date and
//! moves to a new file when the day changes.
//!
//! The library holds the decisions: when a day boundary has been crossed, which
//! file a date maps to, and when the cached handle must be dropped or opened.
//! The handle itself is a type parameter, opened and written by the caller.
pub mod appender;
pub mod date;
pub mod template;
pub mod trigger;

pub use appender::{
    AppenderView, BuildError, DateRollingAppender, DateRollingAppenderBuilder, OpenRequest,
};
pub use date::{CurrentDate, Date, SystemDate};
pub use trigger::{DateTrigger, RollingTrigger};
