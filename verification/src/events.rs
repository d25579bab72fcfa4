//! Events that workers and listeners receive.

use crate::types::{BlackoutWindow, WindowModel};
use crate::views::option_view;
use vstd::prelude::*;

verus! {

/// What happens to workers and to the calendar.
#[derive(Debug, PartialEq, Eq)]
pub enum RedFolderEvent {
    /// A blackout begins in that many minutes.
    BlackoutWarning {
        window: BlackoutWindow,
        minutes_until_start: i64,
        worker_id: Option<String>,
    },
    /// A blackout has begun: trading is to halt.
    BlackoutStarted { window: BlackoutWindow, worker_id: Option<String> },
    /// A blackout is over: trading may go on.
    BlackoutEnded { window: BlackoutWindow, worker_id: Option<String> },
    /// New calendar events have been taken in.
    CalendarUpdated { total_events: usize, total_windows: usize },
    /// Taking in new calendar events has failed.
    CalendarSyncFailed { error: String },
}

/// What a [`RedFolderEvent`] is.
pub ghost enum EventModel {
    BlackoutWarning {
        window: WindowModel,
        minutes_until_start: int,
        worker_id: Option<Seq<char>>,
    },
    BlackoutStarted { window: WindowModel, worker_id: Option<Seq<char>> },
    BlackoutEnded { window: WindowModel, worker_id: Option<Seq<char>> },
    CalendarUpdated { total_events: nat, total_windows: nat },
    CalendarSyncFailed { error: Seq<char> },
}

impl View for RedFolderEvent {
    type V = EventModel;

    open spec fn view(&self) -> EventModel {
        match self {
            RedFolderEvent::BlackoutWarning { window, minutes_until_start, worker_id } =>
                EventModel::BlackoutWarning {
                window: window@,
                minutes_until_start: *minutes_until_start as int,
                worker_id: option_view(*worker_id),
            },
            RedFolderEvent::BlackoutStarted { window, worker_id } => EventModel::BlackoutStarted {
                window: window@,
                worker_id: option_view(*worker_id),
            },
            RedFolderEvent::BlackoutEnded { window, worker_id } => EventModel::BlackoutEnded {
                window: window@,
                worker_id: option_view(*worker_id),
            },
            RedFolderEvent::CalendarUpdated { total_events, total_windows } =>
                EventModel::CalendarUpdated {
                total_events: *total_events as nat,
                total_windows: *total_windows as nat,
            },
            RedFolderEvent::CalendarSyncFailed { error } => EventModel::CalendarSyncFailed {
                error: error@,
            },
        }
    }
}

fn clone_id(id: &Option<String>) -> (r: Option<String>)
    ensures
        option_view(r) == option_view(*id),
{
    match id {
        Some(s) => Some(s.clone()),
        None => None,
    }
}

impl Clone for RedFolderEvent {
    fn clone(&self) -> (r: Self)
        ensures
            r@ == self@,
    {
        match self {
            RedFolderEvent::BlackoutWarning { window, minutes_until_start, worker_id } =>
                RedFolderEvent::BlackoutWarning {
                window: window.clone(),
                minutes_until_start: *minutes_until_start,
                worker_id: clone_id(worker_id),
            },
            RedFolderEvent::BlackoutStarted { window, worker_id } =>
                RedFolderEvent::BlackoutStarted {
                window: window.clone(),
                worker_id: clone_id(worker_id),
            },
            RedFolderEvent::BlackoutEnded { window, worker_id } => RedFolderEvent::BlackoutEnded {
                window: window.clone(),
                worker_id: clone_id(worker_id),
            },
            RedFolderEvent::CalendarUpdated { total_events, total_windows } =>
                RedFolderEvent::CalendarUpdated {
                total_events: *total_events,
                total_windows: *total_windows,
            },
            RedFolderEvent::CalendarSyncFailed { error } => RedFolderEvent::CalendarSyncFailed {
                error: error.clone(),
            },
        }
    }
}

impl EventModel {
    /// The window that the event is about.
    pub open spec fn window(self) -> Option<WindowModel> {
        match self {
            EventModel::BlackoutWarning { window, .. } => Some(window),
            EventModel::BlackoutStarted { window, .. } => Some(window),
            EventModel::BlackoutEnded { window, .. } => Some(window),
            _ => None,
        }
    }

    /// The worker that the event is for.
    pub open spec fn worker_id(self) -> Option<Seq<char>> {
        match self {
            EventModel::BlackoutWarning { worker_id, .. } => worker_id,
            EventModel::BlackoutStarted { worker_id, .. } => worker_id,
            EventModel::BlackoutEnded { worker_id, .. } => worker_id,
            _ => None,
        }
    }
}

impl RedFolderEvent {
    /// Whether a blackout has begun.
    #[must_use]
    pub fn is_blackout_started(&self) -> (r: bool)
        ensures
            r == (self@ is BlackoutStarted),
    {
        matches!(self, RedFolderEvent::BlackoutStarted { .. })
    }

    /// Whether a blackout is over.
    #[must_use]
    pub fn is_blackout_ended(&self) -> (r: bool)
        ensures
            r == (self@ is BlackoutEnded),
    {
        matches!(self, RedFolderEvent::BlackoutEnded { .. })
    }

    /// Whether a blackout is announced.
    #[must_use]
    pub fn is_warning(&self) -> (r: bool)
        ensures
            r == (self@ is BlackoutWarning),
    {
        matches!(self, RedFolderEvent::BlackoutWarning { .. })
    }

    /// Whether taking in new calendar events has failed.
    #[must_use]
    pub fn is_sync_failed(&self) -> (r: bool)
        ensures
            r == (self@ is CalendarSyncFailed),
    {
        matches!(self, RedFolderEvent::CalendarSyncFailed { .. })
    }

    /// The window that the event is about, if it is about one.
    #[must_use]
    pub fn window(&self) -> (r: Option<&BlackoutWindow>)
        ensures
            (match r {
                Some(w) => Some(w@),
                None => None,
            }) == self@.window(),
    {
        match self {
            RedFolderEvent::BlackoutWarning { window, .. } => Some(window),
            RedFolderEvent::BlackoutStarted { window, .. } => Some(window),
            RedFolderEvent::BlackoutEnded { window, .. } => Some(window),
            RedFolderEvent::CalendarUpdated { .. } => None,
            RedFolderEvent::CalendarSyncFailed { .. } => None,
        }
    }

    /// The worker that the event is for, if it is for one.
    #[must_use]
    pub fn worker_id(&self) -> (r: Option<&str>)
        ensures
            (match r {
                Some(s) => Some(s@),
                None => None,
            }) == self@.worker_id(),
    {
        let id: &Option<String> = match self {
            RedFolderEvent::BlackoutWarning { worker_id, .. } => worker_id,
            RedFolderEvent::BlackoutStarted { worker_id, .. } => worker_id,
            RedFolderEvent::BlackoutEnded { worker_id, .. } => worker_id,
            RedFolderEvent::CalendarUpdated { .. } => return None,
            RedFolderEvent::CalendarSyncFailed { .. } => return None,
        };
        match id {
            Some(s) => Some(s.as_str()),
            None => None,
        }
    }
}

/// An event about a blackout carries its window and its worker; the others carry neither.
pub proof fn law_events_carry_windows(
    window: WindowModel,
    minutes: int,
    id: Option<Seq<char>>,
    events: nat,
    windows: nat,
    error: Seq<char>,
)
    ensures
        ({
            let warning = EventModel::BlackoutWarning {
                window,
                minutes_until_start: minutes,
                worker_id: id,
            };
            let started = EventModel::BlackoutStarted { window, worker_id: id };
            let ended = EventModel::BlackoutEnded { window, worker_id: id };
            let updated = EventModel::CalendarUpdated {
                total_events: events,
                total_windows: windows,
            };
            let failed = EventModel::CalendarSyncFailed { error };
            &&& warning.window() == Some(window) && warning.worker_id() == id
            &&& started.window() == Some(window) && started.worker_id() == id
            &&& ended.window() == Some(window) && ended.worker_id() == id
            &&& updated.window() is None && updated.worker_id() is None
            &&& failed.window() is None && failed.worker_id() is None
        }),
{
}

/// Every event shows its kind and what it carries.
pub proof fn law_events_by_kind(
    window: BlackoutWindow,
    minutes: i64,
    id: Option<String>,
    events: usize,
    windows: usize,
    error: String,
)
    ensures
        (RedFolderEvent::BlackoutWarning {
            window,
            minutes_until_start: minutes,
            worker_id: id,
        })@ == (EventModel::BlackoutWarning {
            window: window@,
            minutes_until_start: minutes as int,
            worker_id: option_view(id),
        }),
        (RedFolderEvent::BlackoutStarted { window, worker_id: id })@ == (EventModel::BlackoutStarted {
            window: window@,
            worker_id: option_view(id),
        }),
        (RedFolderEvent::BlackoutEnded { window, worker_id: id })@ == (EventModel::BlackoutEnded {
            window: window@,
            worker_id: option_view(id),
        }),
        (RedFolderEvent::CalendarUpdated { total_events: events, total_windows: windows })@ == (
        EventModel::CalendarUpdated {
            total_events: events as nat,
            total_windows: windows as nat,
        }),
        (RedFolderEvent::CalendarSyncFailed { error })@ == (EventModel::CalendarSyncFailed {
            error: error@,
        }),
{
}

} // verus!
