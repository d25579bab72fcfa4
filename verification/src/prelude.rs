//! What most users need.

pub use crate::config::{RedFolderConfig, RedFolderConfigBuilder};
pub use crate::curfew::WeekendMode;
pub use crate::engine::BlackoutEngine;
pub use crate::error::{RedFolderError, Result};
pub use crate::events::RedFolderEvent;
pub use crate::service::ServiceInner;
pub use crate::types::{BlackoutNotification, BlackoutWindow, Currency, Impact, WindowEvent};
