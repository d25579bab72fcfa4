//! Economic calendar events and the trading blackouts around them.
//!
//! Calendar events ([`calendar`]) and the weekend market close ([`curfew`]) are turned into each
//! worker's blackout windows ([`engine`], [`merge`]) by its configuration ([`config`]). The decisions
//! of fetching ([`client`], [`fetch`]), caching ([`cache`]) and alerting ([`service`]) are functions
//! of what was observed; what they guarantee together stands in [`guarantees`] and beside them.

pub mod cache;
pub mod calendar;
pub mod client;
pub mod config;
pub mod curfew;
pub mod engine;
pub mod error;
pub mod events;
pub mod fetch;
pub mod guarantees;
pub mod json;
pub mod merge;
pub mod prelude;
pub mod service;
pub mod text;
pub mod time;
pub mod types;
pub mod views;
pub mod watch;
pub mod zone;

pub use calendar::{CacheMetadata, CachedCalendarData, CalendarClient, RawCalendarEvent, CALENDAR_URL};
pub use calendar::DEFAULT_CACHE_FILENAME;
pub use config::{NewsConfig, RedFolderConfig, RedFolderConfigBuilder};
pub use curfew::{next_weekend_window, parse_time, weekend_window_title, WeekendMode};
pub use engine::{current_window_for_config, event_matches_config, event_matches_economic_event};
pub use engine::{is_blackout_for_config, BlackoutEngine};
pub use error::{RedFolderError, Result};
pub use events::RedFolderEvent;
pub use types::{BlackoutNotification, BlackoutWindow, Currency, EconomicEvent, Impact, NewsEvent};
pub use types::WindowEvent;
