//! Verified core of the bucklog log viewer: log records and their timestamp
//! format, RabbitMQ connection settings, the log store, the settings form and
//! the decision logic of the background worker that consumes log messages.

pub mod config;
pub mod duration;
pub mod json_log;
pub mod logs;
pub mod text;
pub mod timestamp;
pub mod ui_state;
pub mod worker;

pub use timestamp::default_time_format;
