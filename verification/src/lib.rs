//! Weekly work-log records for an apprenticeship report book: week keys,
//! the week cache, calendar windows and the plain-text report.

pub mod assoc;
pub mod cache;
pub mod calendar;
pub mod config;
pub mod error;
pub mod key;
pub mod model;
pub mod report;
pub mod text;

pub use key::{get_config_path, get_data_dir_name, get_week_file_path, get_week_key};
pub use model::{DayEntries, DayEntry, WeekData};
pub use config::Config;
pub use error::{ErrorKind, Failure, StoreError};
pub use cache::WeekCache;
pub use calendar::{get_current_week_info, get_weeks_around_current, weeks_around_day};
pub use report::{generate_report, get_report_file_name, render_report, sanitize_name, Report};
