//! The service's decisions: registered workers, their alerts, and when the calendar is taken in.

use crate::calendar::RawCalendarEvent;
use crate::config::{ConfigModel, RedFolderConfig};
use crate::engine::{earlier, option_seq, starting_within, BlackoutEngine, EngineModel};
use crate::error::{ErrorModel, RedFolderError, Result};
use crate::events::{EventModel, RedFolderEvent};
use crate::guarantees::{law_blocked_exactly_while_in_a_window, law_windows_are_sorted_and_apart};
use crate::merge::bounded;
use crate::text::{join3, same_text};
use crate::time::{floor_div, in_calendar, utc_now, CalendarDate, TimeSpan, UtcTime};
use crate::time::{Moment, MomentModel, DAY, MINUTE, SECOND};
use crate::types::{BlackoutNotification, BlackoutWindow, NotificationModel, WindowEvent};
use crate::types::WindowModel;
use crate::views::{lemma_filter_map_step, lemma_filter_step, lemma_take_push, lemma_views_push};
use crate::views::{lemma_filter_order, lemma_first_kept, option_view, views};
use crate::zone::{zone_view, SourceZone};
use vstd::prelude::*;

verus! {

/// A registered worker.
#[derive(Debug)]
pub struct WorkerState {
    id: String,
    config: RedFolderConfig,
    in_blackout: bool,
    last_warned_window_start: Option<Moment>,
}

/// What a [`WorkerState`] is.
pub ghost struct WorkerModel {
    pub id: Seq<char>,
    pub config: ConfigModel,
    pub in_blackout: bool,
    pub last_warned_window_start: Option<MomentModel>,
}

impl View for WorkerState {
    type V = WorkerModel;

    closed spec fn view(&self) -> WorkerModel {
        WorkerModel {
            id: self.id@,
            config: self.config@,
            in_blackout: self.in_blackout,
            last_warned_window_start: option_view(self.last_warned_window_start),
        }
    }
}

/// A message to a worker: an event, and where its blackout state has changed, the change.
#[derive(Debug, PartialEq, Eq)]
pub struct Alert {
    pub event: RedFolderEvent,
    pub notification: Option<BlackoutNotification>,
}

/// What an [`Alert`] is.
pub ghost struct AlertModel {
    pub event: EventModel,
    pub notification: Option<NotificationModel>,
}

impl View for Alert {
    type V = AlertModel;

    open spec fn view(&self) -> AlertModel {
        AlertModel { event: self.event@, notification: option_view(self.notification) }
    }
}

impl ConfigModel {
    /// How far ahead a worker looks for a window to warn of: two hours, or as far as it asks for.
    pub open spec fn warning_horizon(self) -> int {
        if self.warning_before_min is Some && self.warning_before_min->Some_0 > 120 {
            self.warning_before_min->Some_0 * MINUTE
        } else {
            120 * MINUTE
        }
    }
}

impl WorkerModel {
    /// A worker that has just been registered.
    pub open spec fn new(id: Seq<char>, config: ConfigModel) -> WorkerModel {
        WorkerModel { id, config, in_blackout: false, last_warned_window_start: None }
    }

    /// The worker with its blackout state brought up to date, and the message that this has changed
    /// if it has. The message that a blackout is over carries an empty window.
    pub open spec fn turned(self, engine: EngineModel, now: int) -> (WorkerModel, Option<
        AlertModel,
    >) {
        let active = engine.blackout_at(self.config, now);
        if active == self.in_blackout {
            (self, None)
        } else if active {
            let window = engine.window_at(self.config, now)->Some_0;
            (
                WorkerModel { in_blackout: true, ..self },
                Some(
                    AlertModel {
                        event: EventModel::BlackoutStarted { window, worker_id: Some(self.id) },
                        notification: Some(
                            NotificationModel { active: true, window: Some(window) },
                        ),
                    },
                ),
            )
        } else {
            (
                WorkerModel { in_blackout: false, ..self },
                Some(
                    AlertModel {
                        event: EventModel::BlackoutEnded {
                            window: WindowModel::lasting(
                                MomentModel::plain(now),
                                MomentModel::plain(now),
                                Seq::empty(),
                            ),
                            worker_id: Some(self.id),
                        },
                        notification: Some(NotificationModel { active: false, window: None }),
                    },
                ),
            )
        }
    }

    /// The worker after a look at its next window, and the warning that it is due if one is: the
    /// worker asked for warnings and is not in a blackout, the window starts in as many whole
    /// minutes as it asked for or fewer, but in one at least, and there was no warning of it before.
    pub open spec fn warned(self, engine: EngineModel, now: int) -> (WorkerModel, Option<
        AlertModel,
    >) {
        let upcoming = engine.starting(self.config, now, self.config.warning_horizon());
        if self.in_blackout || self.config.warning_before_min is None || upcoming.len() == 0 {
            (self, None)
        } else {
            let window = upcoming[0];
            let minutes = window.from().since(MomentModel::plain(now)) / (MINUTE as int);
            if 0 < minutes <= self.config.warning_before_min->Some_0
                && self.last_warned_window_start != Some(window.from()) {
                (
                    WorkerModel { last_warned_window_start: Some(window.from()), ..self },
                    Some(
                        AlertModel {
                            event: EventModel::BlackoutWarning {
                                window,
                                minutes_until_start: minutes,
                                worker_id: Some(self.id),
                            },
                            notification: None,
                        },
                    ),
                )
            } else {
                (self, None)
            }
        }
    }

    /// The worker after checks one behind the other, each as of a calendar and a time.
    pub open spec fn after_checks(self, checks: Seq<(EngineModel, int)>) -> WorkerModel
        decreases checks.len(),
    {
        if checks.len() == 0 {
            self
        } else {
            self.after_checks(checks.drop_last()).checked(checks.last().0, checks.last().1).0
        }
    }

    /// The warning that comes of a check, if one does.
    pub open spec fn warning(self, engine: EngineModel, now: int) -> Option<AlertModel> {
        if self.config.enabled {
            self.turned(engine, now).0.warned(engine, now).1
        } else {
            None
        }
    }

    /// The worker after a check, and the messages that come of it. A disabled worker is left as it
    /// is.
    pub open spec fn checked(self, engine: EngineModel, now: int) -> (WorkerModel, Seq<AlertModel>) {
        if self.config.enabled {
            let (turned, change) = self.turned(engine, now);
            let (warned, warning) = turned.warned(engine, now);
            (warned, option_seq(change) + option_seq(warning))
        } else {
            (self, Seq::empty())
        }
    }
}

/// The workers after a check, each on its own.
pub open spec fn checked_workers(
    workers: Seq<WorkerModel>,
    engine: EngineModel,
    now: int,
) -> Seq<WorkerModel> {
    Seq::new(workers.len(), |i: int| workers[i].checked(engine, now).0)
}

/// The messages that come of a check of all workers, one worker after the other.
pub open spec fn alerts_of(
    workers: Seq<WorkerModel>,
    engine: EngineModel,
    now: int,
) -> Seq<AlertModel>
    decreases workers.len(),
{
    if workers.len() == 0 {
        Seq::empty()
    } else {
        alerts_of(workers.drop_last(), engine, now) + workers.last().checked(engine, now).1
    }
}

/// The windows that end after `now`.
pub open spec fn ends_after(now: int) -> spec_fn(WindowModel) -> bool {
    |w: WindowModel| now < w.end
}

fn drop_ended(windows: Vec<BlackoutWindow>, now: UtcTime) -> (r: Vec<BlackoutWindow>)
    ensures
        views(r@) == views(windows@).filter(ends_after(now@)),
{
    let ghost given = windows@;
    let ghost all = views(given);
    let ghost f = ends_after(now@);
    let mut out: Vec<BlackoutWindow> = Vec::new();
    proof {
        reveal(Seq::filter);
        assert(views(out@) =~= all.take(0).filter(f));
    }
    for window in it: windows
        invariant
            it.seq() == given,
            all == views(given),
            f == ends_after(now@),
            views(out@) == all.take(it.index() as int).filter(f),
    {
        proof {
            lemma_filter_step(all, it.index() as int, f);
            assert(all[it.index() as int] == window@);
        }
        if now.nanos < window.end.time.nanos {
            proof {
                lemma_views_push(out@, window);
            }
            out.push(window);
        }
    }
    assert(all.take(all.len() as int) =~= all);
    out
}

impl WorkerState {
    fn turn(self, engine: &BlackoutEngine, now: UtcTime, alerts: &mut Vec<Alert>) -> (r: Self)
        requires
            now.in_range(),
        ensures
            r@ == self@.turned(engine@, now@).0,
            views(final(alerts)@) == views(old(alerts)@) + option_seq(
                self@.turned(engine@, now@).1,
            ),
    {
        proof {
            law_blocked_exactly_while_in_a_window(engine@, self@.config, now@);
        }
        let ghost before = views(alerts@);
        let mut worker: Self = self;
        match engine.current_window_at(&worker.config, now) {
            Some(window) => {
                if !worker.in_blackout {
                    worker.in_blackout = true;
                    let alert: Alert = Alert {
                        event: RedFolderEvent::BlackoutStarted {
                            window: window.clone(),
                            worker_id: Some(worker.id.clone()),
                        },
                        notification: Some(
                            BlackoutNotification { active: true, window: Some(window) },
                        ),
                    };
                    proof {
                        lemma_views_push(alerts@, alert);
                    }
                    alerts.push(alert);
                }
            },
            None => {
                if worker.in_blackout {
                    worker.in_blackout = false;
                    let events: Vec<WindowEvent> = Vec::new();
                    assert(views(events@) =~= Seq::empty());
                    let alert: Alert = Alert {
                        event: RedFolderEvent::BlackoutEnded {
                            window: BlackoutWindow {
                                start: Moment::plain(now),
                                end: Moment::plain(now),
                                events,
                            },
                            worker_id: Some(worker.id.clone()),
                        },
                        notification: Some(BlackoutNotification { active: false, window: None }),
                    };
                    proof {
                        lemma_views_push(alerts@, alert);
                    }
                    alerts.push(alert);
                }
            },
        }
        assert(views(alerts@) =~= before + option_seq(self@.turned(engine@, now@).1));
        worker
    }

    fn warn(self, engine: &BlackoutEngine, now: UtcTime, alerts: &mut Vec<Alert>) -> (r: Self)
        requires
            now.in_range(),
        ensures
            r@ == self@.warned(engine@, now@).0,
            views(final(alerts)@) == views(old(alerts)@) + option_seq(
                self@.warned(engine@, now@).1,
            ),
    {
        let ghost before = views(alerts@);
        let mut worker: Self = self;
        if !worker.in_blackout {
            if let Some(warn_min) = worker.config.warning_before_min {
                let minutes_ahead: i64 = if warn_min > 120 {
                    warn_min
                } else {
                    120
                };
                let upcoming: Vec<BlackoutWindow> = engine.windows_until(
                    &worker.config,
                    now,
                    now.plus_minutes(minutes_ahead),
                );
                if upcoming.len() > 0 {
                    let ghost all = engine@.windows_for(self@.config, now@);
                    proof {
                        all.lemma_filter_pred(starting_within(now@, self@.config.warning_horizon()), 0);
                        assert(views(upcoming@)[0] == upcoming@[0]@);
                    }
                    let next: &BlackoutWindow = &upcoming[0];
                    assert(bounded(upcoming@[0]@));
                    let nanos: i128 = next.start.since(Moment::plain(now));
                    let minutes: i64 = if nanos > 0 {
                        (nanos / MINUTE) as i64
                    } else {
                        0
                    };
                    let already_warned: bool = match worker.last_warned_window_start {
                        Some(t) => t == next.start,
                        None => false,
                    };
                    if minutes > 0 && minutes <= warn_min && !already_warned {
                        worker.last_warned_window_start = Some(next.start);
                        let alert: Alert = Alert {
                            event: RedFolderEvent::BlackoutWarning {
                                window: next.clone(),
                                minutes_until_start: minutes,
                                worker_id: Some(worker.id.clone()),
                            },
                            notification: None,
                        };
                        proof {
                            lemma_views_push(alerts@, alert);
                        }
                        alerts.push(alert);
                    }
                }
            }
        }
        assert(views(alerts@) =~= before + option_seq(self@.warned(engine@, now@).1));
        worker
    }

    /// The worker after a check; the messages that come of it are added to `alerts`.
    fn check(self, engine: &BlackoutEngine, now: UtcTime, alerts: &mut Vec<Alert>) -> (r: Self)
        requires
            now.in_range(),
        ensures
            r@ == self@.checked(engine@, now@).0,
            views(final(alerts)@) == views(old(alerts)@) + self@.checked(engine@, now@).1,
    {
        let ghost before = views(alerts@);
        if !self.config.enabled {
            assert(before + Seq::empty() =~= before);
            return self;
        }
        let turned: Self = self.turn(engine, now, alerts);
        let warned: Self = turned.warn(engine, now, alerts);
        assert(views(alerts@) =~= before + self@.checked(engine@, now@).1);
        warned
    }
}

/// Shortest time between two checks of the workers.
pub const MIN_CHECK_INTERVAL_NANOS: u128 = 100_000_000;

/// Seconds after which a fetch of the calendar that has failed is tried again.
pub const SYNC_RETRY_SECS: u64 = 900;

/// Where the service is in its life: it is started from `Stopped`, and stopped from `Running`.
#[derive(Debug, Clone, Copy, PartialEq, Eq, Structural)]
pub enum ServiceState {
    Stopped,
    Starting,
    Running,
    Stopping,
}

/// The state of the service: where it is in its life, its workers, its engine, the day of the last
/// fetch, the time of the last one that has succeeded, the error of one that has failed since, and
/// the time between two checks of the workers.
#[derive(Debug)]
pub struct ServiceInner {
    state: ServiceState,
    workers: Vec<WorkerState>,
    engine: BlackoutEngine,
    last_fetch_date: Option<CalendarDate>,
    last_sync_time: Option<UtcTime>,
    last_sync_error: Option<String>,
    check_interval: TimeSpan,
}

/// What a [`ServiceInner`] is.
pub ghost struct ServiceModel {
    pub state: ServiceState,
    pub workers: Seq<WorkerModel>,
    pub engine: EngineModel,
    pub last_fetch_date: Option<int>,
    pub last_sync_time: Option<int>,
    pub last_sync_error: Option<Seq<char>>,
    pub check_interval: nat,
}

impl View for ServiceInner {
    type V = ServiceModel;

    closed spec fn view(&self) -> ServiceModel {
        ServiceModel {
            state: self.state,
            workers: views(self.workers@),
            engine: self.engine@,
            last_fetch_date: option_view(self.last_fetch_date),
            last_sync_time: option_view(self.last_sync_time),
            last_sync_error: option_view(self.last_sync_error),
            check_interval: self.check_interval@,
        }
    }
}

/// Whether no two workers have one name.
pub open spec fn distinct_ids(workers: Seq<WorkerModel>) -> bool {
    forall|i: int, j: int|
        0 <= i < j < workers.len() ==> (#[trigger] workers[i]).id != (#[trigger] workers[j]).id
}

/// The place of the worker with that name, or the number of workers where there is none.
pub open spec fn place_of(workers: Seq<WorkerModel>, id: Seq<char>) -> nat
    decreases workers.len(),
{
    if workers.len() == 0 {
        0
    } else if workers.first().id == id {
        0
    } else {
        1 + place_of(workers.drop_first(), id)
    }
}

/// `workers` with `w` in the place of the one with its name, or else at the end.
pub open spec fn with_worker(workers: Seq<WorkerModel>, w: WorkerModel) -> Seq<WorkerModel> {
    let i = place_of(workers, w.id);
    if i < workers.len() {
        workers.update(i as int, w)
    } else {
        workers.push(w)
    }
}

/// `workers` without the one with that name.
pub open spec fn without_worker(workers: Seq<WorkerModel>, id: Seq<char>) -> Seq<WorkerModel> {
    let i = place_of(workers, id);
    if i < workers.len() {
        workers.remove(i as int)
    } else {
        workers
    }
}

/// What the place of a name says.
proof fn lemma_place_of(workers: Seq<WorkerModel>, id: Seq<char>)
    ensures
        place_of(workers, id) <= workers.len(),
        place_of(workers, id) < workers.len() ==> workers[place_of(workers, id) as int].id == id,
        forall|i: int| 0 <= i < place_of(workers, id) ==> (#[trigger] workers[i]).id != id,
    decreases workers.len(),
{
    if workers.len() > 0 && workers.first().id != id {
        let rest = workers.drop_first();
        lemma_place_of(rest, id);
        assert forall|i: int| 0 <= i < place_of(workers, id) implies (#[trigger] workers[i]).id
            != id by {
            if i > 0 {
                assert(rest[i - 1] == workers[i]);
            }
        }
    }
}

proof fn lemma_place_found(workers: Seq<WorkerModel>, id: Seq<char>, i: int)
    requires
        0 <= i <= workers.len(),
        forall|k: int| 0 <= k < i ==> (#[trigger] workers[k]).id != id,
        i < workers.len() ==> workers[i].id == id,
    ensures
        place_of(workers, id) == i,
{
    lemma_place_of(workers, id);
}

impl ServiceModel {
    /// A service without workers or events.
    pub open spec fn new(check_interval: nat) -> ServiceModel {
        ServiceModel {
            state: ServiceState::Stopped,
            workers: Seq::empty(),
            engine: EngineModel::with_events(Seq::empty(), None),
            last_fetch_date: None,
            last_sync_time: None,
            last_sync_error: None,
            check_interval,
        }
    }

    /// The configuration of the worker with that name, if there is one.
    pub open spec fn config_of(self, id: Seq<char>) -> Option<ConfigModel> {
        let i = place_of(self.workers, id);
        if i < self.workers.len() {
            Some(self.workers[i as int].config)
        } else {
            None
        }
    }

    /// Whether there is a worker with that name.
    pub open spec fn knows(self, id: Seq<char>) -> bool {
        place_of(self.workers, id) < self.workers.len()
    }

    /// What stands in the way of registering a worker: a fault of its configuration, or a worker
    /// with its name.
    pub open spec fn registration_fault(self, id: Seq<char>, config: ConfigModel) -> Option<
        ErrorModel,
    > {
        match config.fault() {
            Some(e) => Some(e),
            None => if self.knows(id) {
                Some(ErrorModel::Service("worker '"@ + id + "' is already registered"@))
            } else {
                None
            },
        }
    }

    /// What stands in the way of giving a worker another configuration: a fault of that, or that
    /// there is no worker with its name.
    pub open spec fn reregistration_fault(self, id: Seq<char>, config: ConfigModel) -> Option<
        ErrorModel,
    > {
        match config.fault() {
            Some(e) => Some(e),
            None => if self.knows(id) {
                None
            } else {
                Some(ErrorModel::Service("worker '"@ + id + "' is not registered"@))
            },
        }
    }

    /// The service with a worker registered, in the place of one with its name if there is one.
    pub open spec fn with_registered(self, id: Seq<char>, config: ConfigModel, now: int) -> ServiceModel {
        ServiceModel {
            workers: with_worker(self.workers, registered(id, config, self.engine, now).0),
            ..self
        }
    }

    /// The configurations of the enabled workers.
    pub open spec fn enabled_configs(self) -> Seq<ConfigModel> {
        self.workers.filter_map(enabled_config())
    }

    /// Whether there is an enabled worker.
    pub open spec fn has_enabled_worker(self) -> bool {
        exists|i: int| 0 <= i < self.workers.len() && (#[trigger] self.workers[i]).config.enabled
    }

    /// What is decided about a start.
    pub open spec fn start_decided(self) -> StartDecision {
        if self.workers.len() == 0 {
            StartDecision::NoWorkers
        } else if self.has_enabled_worker() {
            StartDecision::Start
        } else {
            StartDecision::AllDisabled
        }
    }

    /// The service after a start has begun: one that is not stopped, or has no work to do, stays as
    /// it is.
    pub open spec fn start_begun(self) -> ServiceModel {
        if self.state is Stopped && self.start_decided() is Start {
            ServiceModel { state: ServiceState::Starting, ..self }
        } else {
            self
        }
    }

    /// The service after the first fetch of a start, which was a success or not.
    pub open spec fn start_finished(self, synced: bool) -> ServiceModel {
        if self.state is Starting {
            ServiceModel {
                state: if synced {
                    ServiceState::Running
                } else {
                    ServiceState::Stopped
                },
                ..self
            }
        } else {
            self
        }
    }

    /// The service after a stop has begun.
    pub open spec fn stop_begun(self) -> ServiceModel {
        if self.state is Running {
            ServiceModel { state: ServiceState::Stopping, ..self }
        } else {
            self
        }
    }

    /// The service after its background work has ended.
    pub open spec fn stop_finished(self) -> ServiceModel {
        if self.state is Stopping {
            ServiceModel { state: ServiceState::Stopped, ..self }
        } else {
            self
        }
    }

    /// Whether something changes for an enabled worker at `time`, as far as is known at `now`.
    pub open spec fn changes_at(self, now: int, time: int) -> bool {
        exists|i: int|
            0 <= i < self.workers.len() && (#[trigger] self.workers[i]).config.enabled
                && self.engine.changes_at(self.workers[i].config, now, time)
    }

    /// The seconds from `now` to the next fetch of the calendar: the next midnight, but soon while
    /// the last fetch has failed.
    pub open spec fn seconds_to_sync(self, now: int) -> int {
        if self.engine.stale {
            SYNC_RETRY_SECS as int
        } else {
            seconds_to_midnight(now)
        }
    }

    /// The messages of a check of all workers.
    pub open spec fn check_alerts(self, now: int) -> Seq<AlertModel> {
        alerts_of(self.workers, self.engine, now)
    }

    /// The service after a check of all workers.
    pub open spec fn after_check(self, now: int) -> ServiceModel {
        ServiceModel { workers: checked_workers(self.workers, self.engine, now), ..self }
    }
}

/// The configuration of a worker, if it is enabled.
pub open spec fn enabled_config() -> spec_fn(WorkerModel) -> Option<ConfigModel> {
    |w: WorkerModel|
        if w.config.enabled {
            Some(w.config)
        } else {
            None
        }
}

/// A worker that has just been registered: where a blackout is active it is told so at once.
pub open spec fn registered(id: Seq<char>, config: ConfigModel, engine: EngineModel, now: int) -> (
    WorkerModel,
    Option<AlertModel>,
) {
    let fresh = WorkerModel::new(id, config);
    if config.enabled {
        fresh.turned(engine, now)
    } else {
        (fresh, None)
    }
}

/// Whether the service is to start its background work.
#[derive(Debug, Clone, Copy, PartialEq, Eq, Structural)]
pub enum StartDecision {
    /// There is no worker.
    NoWorkers,
    /// All workers are disabled.
    AllDisabled,
    /// There is an enabled worker.
    Start,
}

/// The whole seconds from `now` to the next midnight, one at least.
pub open spec fn seconds_to_midnight(now: int) -> int {
    let midnight = (now / (DAY as int) + 1) * DAY;
    let secs = (midnight - now) / (SECOND as int);
    if secs < 1 {
        1
    } else {
        secs
    }
}

/// The whole seconds from `now` to the next midnight, one at least.
pub fn seconds_until_midnight(now: UtcTime) -> (r: u64)
    requires
        now.in_range(),
    ensures
        r == seconds_to_midnight(now@),
        1 <= r <= 86_400,
{
    let day: i128 = floor_div(now.nanos, DAY);
    assert((day + 1) * DAY == day * DAY + DAY) by (nonlinear_arith);
    let left: i128 = (day + 1) * DAY - now.nanos;
    assert(0 < left <= DAY);
    let secs: i128 = left / SECOND;
    if secs < 1 {
        1
    } else {
        secs as u64
    }
}

impl ServiceInner {
    /// Whether the workers have names of their own.
    pub open spec fn wf(self) -> bool {
        distinct_ids(self@.workers)
    }

    /// A service without workers or events.
    pub fn new(check_interval: TimeSpan) -> (r: Self)
        ensures
            r.wf(),
            r@ == ServiceModel::new(check_interval@),
    {
        let workers: Vec<WorkerState> = Vec::new();
        assert(views(workers@) =~= Seq::empty());
        ServiceInner {
            state: ServiceState::Stopped,
            workers,
            engine: BlackoutEngine::new(),
            last_fetch_date: None,
            last_sync_time: None,
            last_sync_error: None,
            check_interval,
        }
    }

    /// The place of the worker with that name, or the number of workers where there is none.
    fn find(&self, id: &str) -> (r: usize)
        ensures
            r == place_of(self@.workers, id@),
            r <= self.workers@.len(),
    {
        let mut i: usize = 0;
        while i < self.workers.len()
            invariant
                i <= self.workers@.len(),
                forall|k: int| 0 <= k < i ==> (#[trigger] self@.workers[k]).id != id@,
            decreases self.workers@.len() - i,
        {
            assert(self@.workers[i as int] == self.workers@[i as int]@);
            if same_text(self.workers[i].id.as_str(), id) {
                proof {
                    lemma_place_found(self@.workers, id@, i as int);
                }
                return i;
            }
            i = i + 1;
        }
        proof {
            lemma_place_found(self@.workers, id@, i as int);
        }
        i
    }

    /// Registers a worker under a name of its own. The message that is returned tells it of a
    /// blackout that is active at `now`. A configuration that is not valid is refused, and so is the
    /// name of another worker.
    pub fn register_worker(&mut self, worker_id: &str, config: RedFolderConfig, now: UtcTime) -> (r:
        Result<Vec<Alert>>)
        requires
            old(self).wf(),
            now.in_range(),
        ensures
            final(self).wf(),
            match old(self)@.registration_fault(worker_id@, config@) {
                Some(fault) => {
                    &&& r matches Err(e)
                    &&& e@ == fault
                    &&& final(self)@ == old(self)@
                },
                None => {
                    &&& r matches Ok(alerts)
                    &&& views(alerts@) == option_seq(
                        registered(worker_id@, config@, old(self)@.engine, now@).1,
                    )
                    &&& final(self)@ == old(self)@.with_registered(worker_id@, config@, now@)
                },
            },
    {
        if let Err(e) = config.validate() {
            return Err(e);
        }
        if self.find(worker_id) < self.workers.len() {
            return Err(
                RedFolderError::Service(join3("worker '", worker_id, "' is already registered")),
            );
        }
        Ok(self.enroll(worker_id, config, now))
    }

    /// Gives a registered worker another configuration: it is told anew of a blackout that is active
    /// at `now`. A configuration that is not valid is refused, and so is an unknown name.
    pub fn reregister_worker(&mut self, worker_id: &str, config: RedFolderConfig, now: UtcTime) -> (r:
        Result<Vec<Alert>>)
        requires
            old(self).wf(),
            now.in_range(),
        ensures
            final(self).wf(),
            match old(self)@.reregistration_fault(worker_id@, config@) {
                Some(fault) => {
                    &&& r matches Err(e)
                    &&& e@ == fault
                    &&& final(self)@ == old(self)@
                },
                None => {
                    &&& r matches Ok(alerts)
                    &&& views(alerts@) == option_seq(
                        registered(worker_id@, config@, old(self)@.engine, now@).1,
                    )
                    &&& final(self)@ == old(self)@.with_registered(worker_id@, config@, now@)
                },
            },
    {
        if let Err(e) = config.validate() {
            return Err(e);
        }
        if self.find(worker_id) == self.workers.len() {
            return Err(RedFolderError::Service(join3("worker '", worker_id, "' is not registered")));
        }
        Ok(self.enroll(worker_id, config, now))
    }

    /// Registers a worker, in the place of one with its name if there is one.
    fn enroll(&mut self, worker_id: &str, config: RedFolderConfig, now: UtcTime) -> (r: Vec<Alert>)
        requires
            old(self).wf(),
            now.in_range(),
        ensures
            final(self).wf(),
            final(self)@ == old(self)@.with_registered(worker_id@, config@, now@),
            views(r@) == option_seq(registered(worker_id@, config@, old(self)@.engine, now@).1),
    {
        let mut alerts: Vec<Alert> = Vec::new();
        assert(views(alerts@) =~= Seq::empty());
        let fresh: WorkerState = WorkerState {
            id: worker_id.to_string(),
            config,
            in_blackout: false,
            last_warned_window_start: None,
        };
        let worker: WorkerState = if fresh.config.enabled {
            fresh.turn(&self.engine, now, &mut alerts)
        } else {
            fresh
        };
        let ghost change = registered(worker_id@, config@, self@.engine, now@).1;
        assert(views(alerts@) =~= option_seq(change));
        let place: usize = self.find(worker_id);
        let ghost before = self@.workers;
        proof {
            lemma_place_of(before, worker_id@);
            assert(worker@.id == worker_id@);
            lemma_with_worker_distinct(before, worker@);
        }
        if place < self.workers.len() {
            self.workers[place] = worker;
            assert(self@.workers =~= with_worker(before, worker@));
        } else {
            self.workers.push(worker);
            assert(self@.workers =~= with_worker(before, worker@));
        }
        alerts
    }

    /// Removes the worker with that name, if there is one.
    pub fn unregister_worker(&mut self, worker_id: &str)
        requires
            old(self).wf(),
        ensures
            final(self).wf(),
            final(self)@ == (ServiceModel {
                workers: without_worker(old(self)@.workers, worker_id@),
                ..old(self)@
            }),
    {
        let place: usize = self.find(worker_id);
        let ghost before = self@.workers;
        if place < self.workers.len() {
            let _removed: WorkerState = self.workers.remove(place);
            assert(self@.workers =~= before.remove(place as int));
            assert forall|i: int, j: int| 0 <= i < j < self@.workers.len() implies (
            #[trigger] self@.workers[i]).id != (#[trigger] self@.workers[j]).id by {
                let a = if i < place {
                    i
                } else {
                    i + 1
                };
                let b = if j < place {
                    j
                } else {
                    j + 1
                };
                assert(before[a].id != before[b].id);
            }
        }
    }

    /// Checks all workers at `now`: their blackout states are brought up to date, and the messages
    /// of blackouts that begin, are over, or are due are returned.
    pub fn check_and_notify_workers(&mut self, now: UtcTime) -> (r: Vec<Alert>)
        requires
            old(self).wf(),
            now.in_range(),
        ensures
            final(self).wf(),
            final(self)@ == old(self)@.after_check(now@),
            views(r@) == old(self)@.check_alerts(now@),
    {
        let mut alerts: Vec<Alert> = Vec::new();
        assert(views(alerts@) =~= Seq::empty());
        let ghost before = self@;
        let mut given: Vec<WorkerState> = Vec::new();
        std::mem::swap(&mut given, &mut self.workers);
        let ghost all = views(given@);
        let ghost taken = given@;
        let mut done: Vec<WorkerState> = Vec::new();
        assert(views(done@) =~= checked_workers(all.take(0), before.engine, now@));
        assert(views(alerts@) =~= alerts_of(all.take(0), before.engine, now@));
        for worker in it: given
            invariant
                it.seq() == taken,
                all == views(taken),
                now.in_range(),
                self.engine@ == before.engine,
                views(done@) == checked_workers(all.take(it.index() as int), before.engine, now@),
                views(alerts@) == alerts_of(all.take(it.index() as int), before.engine, now@),
        {
            proof {
                lemma_take_push(all, it.index() as int);
                assert(all.take(it.index() + 1).drop_last() =~= all.take(it.index() as int));
                assert(worker@ == all[it.index() as int]);
            }
            let checked: WorkerState = worker.check(&self.engine, now, &mut alerts);
            proof {
                lemma_views_push(done@, checked);
                assert(views(done@).push(checked@) =~= checked_workers(
                    all.take(it.index() + 1),
                    before.engine,
                    now@,
                ));
            }
            done.push(checked);
        }
        assert(all.take(all.len() as int) =~= all);
        self.workers = done;
        assert(self@ == before.after_check(now@));
        proof {
            assert(forall|i: int|
                0 <= i < self@.workers.len() ==> (#[trigger] self@.workers[i]).id
                    == before.workers[i].id);
        }
        alerts
    }

    /// Whether the calendar is to be fetched on the day `today`: it was not yet, or there are no
    /// windows.
    pub fn needs_fetch(&self, today: CalendarDate) -> (r: bool)
        ensures
            r == !(self@.last_fetch_date == Some(today@) && self@.engine.windows.len() > 0),
    {
        let fetched_today: bool = match self.last_fetch_date {
            Some(d) => d.days_from_ce == today.days_from_ce,
            None => false,
        };
        !(fetched_today && self.engine.has_windows())
    }

    /// Takes in the events that were fetched on the day `today`: the windows of the enabled workers
    /// are compiled from them as of `now`.
    pub fn install_calendar(
        &mut self,
        raw: &Vec<RawCalendarEvent>,
        zone: Option<SourceZone>,
        today: CalendarDate,
        now: UtcTime,
    ) -> (r: RedFolderEvent)
        requires
            now.in_range(),
        ensures
            final(self)@ == (ServiceModel {
                engine: EngineModel::compiled(
                    views(raw@),
                    old(self)@.enabled_configs(),
                    now@,
                    zone_view(zone),
                ),
                last_fetch_date: Some(today@),
                last_sync_time: Some(now@),
                last_sync_error: None,
                ..old(self)@
            }),
            r@ == (EventModel::CalendarUpdated {
                total_events: raw@.len(),
                total_windows: final(self)@.engine.windows.len(),
            }),
    {
        let ghost all = self@.workers;
        let ghost f = enabled_config();
        let mut configs: Vec<&RedFolderConfig> = Vec::new();
        let mut i: usize = 0;
        assert(views(configs@) =~= all.take(0).filter_map(f));
        while i < self.workers.len()
            invariant
                i <= self.workers@.len(),
                all == views(self.workers@),
                f == enabled_config(),
                views(configs@) == all.take(i as int).filter_map(f),
            decreases self.workers@.len() - i,
        {
            proof {
                lemma_filter_map_step(all, i as int, f);
                assert(all[i as int] == self.workers@[i as int]@);
            }
            if self.workers[i].config.enabled {
                proof {
                    lemma_views_push(configs@, &self.workers@[i as int].config);
                }
                configs.push(&self.workers[i].config);
            }
            i = i + 1;
        }
        assert(all.take(i as int) =~= all);
        let engine: BlackoutEngine = BlackoutEngine::compile_with_tz(
            raw.as_slice(),
            configs.as_slice(),
            now,
            zone,
        );
        let total_windows: usize = engine.windows().len();
        self.engine = engine;
        self.last_fetch_date = Some(today);
        self.last_sync_time = Some(now);
        self.last_sync_error = None;
        RedFolderEvent::CalendarUpdated { total_events: raw.len(), total_windows }
    }

    /// Notes that fetching the calendar has failed: its data is stale from now on.
    pub fn sync_failed(&mut self, error: &str) -> (r: RedFolderEvent)
        ensures
            final(self)@ == (ServiceModel {
                engine: EngineModel { stale: true, ..old(self)@.engine },
                last_sync_error: Some(error@),
                ..old(self)@
            }),
            r@ == (EventModel::CalendarSyncFailed { error: error@ }),
    {
        let stale: BlackoutEngine = self.engine.clone().with_stale(true);
        self.engine = stale;
        self.last_sync_error = Some(error.to_string());
        RedFolderEvent::CalendarSyncFailed { error: error.to_string() }
    }

    /// Where the service is in its life.
    pub fn state(&self) -> (r: ServiceState)
        ensures
            r == self@.state,
    {
        self.state
    }

    /// Whether the background work is under way.
    pub fn is_running(&self) -> (r: bool)
        ensures
            r == (self@.state is Running),
    {
        matches!(self.state, ServiceState::Running)
    }

    /// Begins a start: tells whether there is background work to start. A service that is not
    /// stopped refuses.
    pub fn begin_start(&mut self) -> (r: Result<StartDecision>)
        ensures
            final(self)@ == old(self)@.start_begun(),
            if old(self)@.state is Stopped {
                r == Ok::<StartDecision, RedFolderError>(old(self)@.start_decided())
            } else {
                &&& r matches Err(e)
                &&& e@ == ErrorModel::Service("service is already started"@)
            },
    {
        if !matches!(self.state, ServiceState::Stopped) {
            return Err(RedFolderError::Service("service is already started".to_string()));
        }
        let decision: StartDecision = self.start_decision();
        if matches!(decision, StartDecision::Start) {
            self.state = ServiceState::Starting;
        }
        Ok(decision)
    }

    /// Ends a start by what came of the first fetch: the service runs after a success, and is
    /// stopped as before after a failure.
    pub fn finish_start(&mut self, synced: bool)
        ensures
            final(self)@ == old(self)@.start_finished(synced),
    {
        if matches!(self.state, ServiceState::Starting) {
            self.state = if synced {
                ServiceState::Running
            } else {
                ServiceState::Stopped
            };
        }
    }

    /// Begins a stop: tells whether there is background work to stop.
    pub fn begin_stop(&mut self) -> (r: bool)
        ensures
            final(self)@ == old(self)@.stop_begun(),
            r == (old(self)@.state is Running),
    {
        if matches!(self.state, ServiceState::Running) {
            self.state = ServiceState::Stopping;
            true
        } else {
            false
        }
    }

    /// Ends a stop once the background work has ended.
    pub fn finish_stop(&mut self)
        ensures
            final(self)@ == old(self)@.stop_finished(),
    {
        if matches!(self.state, ServiceState::Stopping) {
            self.state = ServiceState::Stopped;
        }
    }

    /// The seconds from `now` to the next fetch of the calendar: the next midnight, but a quarter of
    /// an hour while the last fetch has failed.
    pub fn seconds_until_sync(&self, now: UtcTime) -> (r: u64)
        requires
            now.in_range(),
        ensures
            r == self@.seconds_to_sync(now@),
            1 <= r <= 86_400,
    {
        if self.engine.is_stale() {
            SYNC_RETRY_SECS
        } else {
            seconds_until_midnight(now)
        }
    }

    /// Whether the service is to start its background work.
    pub fn start_decision(&self) -> (r: StartDecision)
        ensures
            r == self@.start_decided(),
    {
        if self.workers.len() == 0 {
            return StartDecision::NoWorkers;
        }
        let mut i: usize = 0;
        while i < self.workers.len()
            invariant
                i <= self.workers@.len(),
                self.workers@.len() > 0,
                forall|k: int| 0 <= k < i ==> !(#[trigger] self@.workers[k]).config.enabled,
            decreases self.workers@.len() - i,
        {
            assert(self@.workers[i as int] == self.workers@[i as int]@);
            if self.workers[i].config.enabled {
                return StartDecision::Start;
            }
            i = i + 1;
        }
        StartDecision::AllDisabled
    }

    /// Sets the time between two checks of the workers: a tenth of a second at least.
    pub fn set_check_interval(&mut self, interval: TimeSpan) -> (r: Result<()>)
        ensures
            if interval@ < MIN_CHECK_INTERVAL_NANOS {
                &&& r matches Err(e)
                &&& e@ == ErrorModel::Service("check interval must be at least 100ms"@)
                &&& final(self)@ == old(self)@
            } else {
                &&& r is Ok
                &&& final(self)@ == (ServiceModel { check_interval: interval@, ..old(self)@ })
            },
    {
        if interval.nanos < MIN_CHECK_INTERVAL_NANOS {
            return Err(RedFolderError::Service("check interval must be at least 100ms".to_string()));
        }
        self.check_interval = interval;
        Ok(())
    }

    /// The time between two checks of the workers.
    pub fn check_interval(&self) -> (r: TimeSpan)
        ensures
            r@ == self@.check_interval,
    {
        self.check_interval
    }

    /// The engine.
    pub fn engine(&self) -> (r: &BlackoutEngine)
        ensures
            r@ == self@.engine,
    {
        &self.engine
    }

    /// Takes another engine into use.
    pub fn set_engine(&mut self, engine: BlackoutEngine)
        ensures
            final(self)@ == (ServiceModel { engine: engine@, ..old(self)@ }),
    {
        self.engine = engine;
    }

    /// When the calendar was last taken in, if it ever was.
    pub fn last_sync_time(&self) -> (r: Option<UtcTime>)
        ensures
            option_view(r) == self@.last_sync_time,
    {
        self.last_sync_time
    }

    /// Why the last fetch has failed, if it has.
    pub fn last_sync_error(&self) -> (r: Option<&str>)
        ensures
            (match r {
                Some(text) => Some(text@),
                None => None,
            }) == self@.last_sync_error,
    {
        match &self.last_sync_error {
            Some(text) => Some(text.as_str()),
            None => None,
        }
    }

    /// Whether the calendar was not taken in within the span `age` before `now`, a span of no more
    /// seconds than a `u64` holds.
    pub fn is_calendar_stale(&self, age: TimeSpan, now: UtcTime) -> (r: bool)
        requires
            now.in_range(),
            age.nanos <= 0x1_0000_0000_0000_0000 * SECOND,
        ensures
            r == match self@.last_sync_time {
                Some(t) => now@ - t > age@,
                None => true,
            },
    {
        match self.last_sync_time {
            Some(t) => now.nanos - age.nanos as i128 > t.nanos,
            None => true,
        }
    }

    /// The active and upcoming windows of the worker with that name, as of `now`; an unknown one has
    /// none.
    pub fn windows_for_worker(&self, worker_id: &str, now: UtcTime) -> (r: Vec<BlackoutWindow>)
        requires
            now.in_range(),
        ensures
            views(r@) == match self@.config_of(worker_id@) {
                Some(config) => self@.engine.windows_for(config, now@).filter(ends_after(now@)),
                None => Seq::empty(),
            },
    {
        let place: usize = self.find(worker_id);
        if place < self.workers.len() {
            drop_ended(self.engine.windows_for_config(&self.workers[place].config, now), now)
        } else {
            let none: Vec<BlackoutWindow> = Vec::new();
            assert(views(none@) =~= Seq::empty());
            none
        }
    }

    /// The next time after `now` at which something changes for an enabled worker: a window starts
    /// or ends, or a warning of one is due.
    pub fn next_transition(&self, now: UtcTime) -> (r: Option<UtcTime>)
        requires
            now.in_range(),
        ensures
            match r {
                Some(t) => {
                    &&& now@ < t@
                    &&& self@.changes_at(now@, t@)
                    &&& forall|u: int| now@ < u && #[trigger] self@.changes_at(now@, u) ==> t@ <= u
                },
                None => forall|u: int| now@ < u ==> !#[trigger] self@.changes_at(now@, u),
            },
            r matches Some(t) ==> t@ <= 0x200_0000_0000_0000_0000_0000_0000_0000,
    {
        let mut best: Option<UtcTime> = None;
        let mut i: usize = 0;
        while i < self.workers.len()
            invariant
                i <= self.workers@.len(),
                now.in_range(),
                self@.workers == views(self.workers@),
                self@.engine == self.engine@,
                best matches Some(t) ==> now@ < t@ && self@.changes_at(now@, t@),
                best matches Some(t) ==> t@ <= 0x200_0000_0000_0000_0000_0000_0000_0000,
                forall|k: int, u: int|
                    0 <= k < i && (#[trigger] self@.workers[k]).config.enabled && now@ < u
                        && #[trigger] self@.engine.changes_at(self@.workers[k].config, now@, u)
                        ==> best is Some && best->Some_0@ <= u,
            decreases self.workers@.len() - i,
        {
            let ghost config = self@.workers[i as int].config;
            assert(config == self.workers@[i as int].config@);
            if self.workers[i].config.enabled {
                let found: Option<UtcTime> = self.engine.next_change(&self.workers[i].config, now);
                best = earlier(best, found);
                proof {
                    if let Some(t) = found {
                        assert(self@.workers[i as int].config.enabled);
                        assert(self@.changes_at(now@, t@));
                    }
                }
            }
            i = i + 1;
        }
        best
    }

    /// How long to wait for the next check: until the next transition, but no longer than the time
    /// between two checks.
    pub fn wait_until_check(&self, now: UtcTime) -> (r: TimeSpan)
        requires
            now.in_range(),
        ensures
            r@ <= self@.check_interval,
            forall|u: int| now@ < u && #[trigger] self@.changes_at(now@, u) ==> r@ <= u - now@,
            r@ == self@.check_interval || r@ > 0 && self@.changes_at(now@, now@ + r@),
    {
        match self.next_transition(now) {
            Some(t) => {
                let until: u128 = (t.nanos - now.nanos) as u128;
                if until < self.check_interval.nanos {
                    TimeSpan { nanos: until }
                } else {
                    self.check_interval
                }
            },
            None => self.check_interval,
        }
    }

    /// Whether the worker with that name is blocked at `time`; an unknown one is not.
    pub fn is_blackout_at(&self, worker_id: &str, time: UtcTime) -> (r: bool)
        requires
            time.in_range(),
        ensures
            r == match self@.config_of(worker_id@) {
                Some(config) => self@.engine.blackout_at(config, time@),
                None => false,
            },
    {
        let place: usize = self.find(worker_id);
        if place < self.workers.len() {
            self.engine.is_blackout_at(&self.workers[place].config, time)
        } else {
            false
        }
    }

    /// Whether the worker with that name is blocked now; an unknown one is not.
    pub fn is_blackout(&self, worker_id: &str) -> (r: bool)
        ensures
            exists|now: int|
                (#[trigger] in_calendar(now)) && r == match self@.config_of(worker_id@) {
                    Some(config) => self@.engine.blackout_at(config, now),
                    None => false,
                },
    {
        let now: UtcTime = utc_now();
        self.is_blackout_at(worker_id, now)
    }

    /// The window that blocks the worker with that name at `time`, if one does.
    pub fn current_window_at(&self, worker_id: &str, time: UtcTime) -> (r: Option<BlackoutWindow>)
        requires
            time.in_range(),
        ensures
            option_view(r) == match self@.config_of(worker_id@) {
                Some(config) => self@.engine.window_at(config, time@),
                None => None,
            },
    {
        let place: usize = self.find(worker_id);
        if place < self.workers.len() {
            self.engine.current_window_at(&self.workers[place].config, time)
        } else {
            None
        }
    }

    /// The window that blocks the worker with that name now, if one does.
    pub fn current_window(&self, worker_id: &str) -> (r: Option<BlackoutWindow>)
        ensures
            exists|now: int|
                (#[trigger] in_calendar(now)) && option_view(r) == match self@.config_of(
                    worker_id@,
                ) {
                    Some(config) => self@.engine.window_at(config, now),
                    None => None,
                },
    {
        let now: UtcTime = utc_now();
        self.current_window_at(worker_id, now)
    }

    /// The windows of the worker with that name that start within `hours` hours of `now`.
    pub fn upcoming_blackouts_at(&self, worker_id: &str, now: UtcTime, hours: u32) -> (r: Vec<
        BlackoutWindow,
    >)
        requires
            now.in_range(),
        ensures
            views(r@) == match self@.config_of(worker_id@) {
                Some(config) => self@.engine.upcoming(config, now@, hours as int),
                None => Seq::empty(),
            },
    {
        let place: usize = self.find(worker_id);
        if place < self.workers.len() {
            self.engine.upcoming_blackouts_at(&self.workers[place].config, now, hours)
        } else {
            let none: Vec<BlackoutWindow> = Vec::new();
            assert(views(none@) =~= Seq::empty());
            none
        }
    }

    /// The windows of the worker with that name that start within `hours` hours from now.
    pub fn get_upcoming_blackouts(&self, worker_id: &str, hours: u32) -> (r: Vec<BlackoutWindow>)
        ensures
            exists|now: int|
                (#[trigger] in_calendar(now)) && views(r@) == match self@.config_of(worker_id@) {
                    Some(config) => self@.engine.upcoming(config, now, hours as int),
                    None => Seq::empty(),
                },
    {
        let now: UtcTime = utc_now();
        self.upcoming_blackouts_at(worker_id, now, hours)
    }
}

proof fn lemma_with_worker_distinct(workers: Seq<WorkerModel>, w: WorkerModel)
    requires
        distinct_ids(workers),
    ensures
        distinct_ids(with_worker(workers, w)),
{
    lemma_place_of(workers, w.id);
    let place = place_of(workers, w.id) as int;
    let r = with_worker(workers, w);
    assert forall|i: int, j: int| 0 <= i < j < r.len() implies (#[trigger] r[i]).id != (
    #[trigger] r[j]).id by {
        if i < workers.len() && j < workers.len() {
            assert(workers[i].id != workers[j].id);
        } else {
            assert(workers[i].id != w.id);
        }
    }
}

/// A start is refused while the service is not stopped, and changes nothing then.
pub proof fn law_second_start_changes_nothing(service: ServiceModel)
    requires
        !(service.state is Stopped),
    ensures
        service.start_begun() == service,
{
}

/// A start that fails leaves the service as it was, so that it can be tried again.
pub proof fn law_failed_start_can_be_retried(service: ServiceModel)
    requires
        service.state is Stopped,
    ensures
        service.start_begun().start_finished(false) == service,
{
}

/// A service without an enabled worker stays stopped.
pub proof fn law_idle_service_stays_stopped(service: ServiceModel, synced: bool)
    requires
        service.state is Stopped,
        !service.has_enabled_worker(),
    ensures
        service.start_begun().start_finished(synced) == service,
{
}

/// A service that was started runs until it is stopped, and can then be started again.
pub proof fn law_stopped_service_starts_again(service: ServiceModel)
    requires
        service.state is Stopped,
        service.has_enabled_worker(),
    ensures
        ({
            let running = service.start_begun().start_finished(true);
            &&& running == (ServiceModel { state: ServiceState::Running, ..service })
            &&& running.stop_begun().stop_finished() == service
        }),
{
    let i = choose|i: int| 0 <= i < service.workers.len() && (#[trigger] service.workers[i]).config.enabled;
    assert(service.workers[i].config.enabled);
}

/// Midnight is never more than a day away, and a fetch that has failed is tried again sooner.
pub proof fn law_calendar_is_fetched_daily(service: ServiceModel, now: int)
    ensures
        1 <= service.seconds_to_sync(now) <= 86_400,
        service.engine.stale ==> service.seconds_to_sync(now) == SYNC_RETRY_SECS,
{
}

/// After a check, every enabled worker's state is what the engine says of it.
pub proof fn law_check_brings_workers_up_to_date(service: ServiceModel, now: int, i: int)
    requires
        0 <= i < service.workers.len(),
        service.workers[i].config.enabled,
    ensures
        service.after_check(now).workers[i].in_blackout == service.engine.blackout_at(
            service.workers[i].config,
            now,
        ),
{
}

/// A check leaves disabled workers as they are and has no message for them.
pub proof fn law_disabled_worker_gets_no_alert(worker: WorkerModel, engine: EngineModel, now: int)
    requires
        !worker.config.enabled,
    ensures
        worker.checked(engine, now).0 == worker,
        worker.checked(engine, now).1.len() == 0,
{
}

proof fn lemma_no_alerts(workers: Seq<WorkerModel>, engine: EngineModel, now: int)
    requires
        forall|i: int|
            0 <= i < workers.len() ==> (#[trigger] workers[i]).checked(engine, now).1.len() == 0,
    ensures
        alerts_of(workers, engine, now).len() == 0,
    decreases workers.len(),
{
    if workers.len() > 0 {
        assert(forall|i: int| 0 <= i < workers.len() - 1 ==> #[trigger] workers.drop_last()[i] == workers[i]);
        assert(workers.last() == workers[workers.len() - 1]);
        lemma_no_alerts(workers.drop_last(), engine, now);
    }
}

/// What a check has told the workers, a second check at the same time does not tell them again.
pub proof fn law_alerts_are_not_repeated(service: ServiceModel, now: int)
    ensures
        service.after_check(now).check_alerts(now).len() == 0,
{
    let after = service.after_check(now);
    assert forall|i: int| 0 <= i < after.workers.len() implies (
    #[trigger] after.workers[i]).checked(service.engine, now).1.len() == 0 by {
        assert(after.workers[i] == service.workers[i].checked(service.engine, now).0);
    }
    lemma_no_alerts(after.workers, service.engine, now);
}

proof fn lemma_checks_without_warning(worker: WorkerModel, checks: Seq<(EngineModel, int)>)
    requires
        forall|k: int|
            0 <= k < checks.len() ==> worker.after_checks(#[trigger] checks.take(k)).warning(
                checks[k].0,
                checks[k].1,
            ) is None,
    ensures
        worker.after_checks(checks).last_warned_window_start == worker.last_warned_window_start,
        worker.after_checks(checks).config == worker.config,
    decreases checks.len(),
{
    if checks.len() > 0 {
        let front = checks.drop_last();
        assert forall|k: int| 0 <= k < front.len() implies worker.after_checks(
            #[trigger] front.take(k),
        ).warning(front[k].0, front[k].1) is None by {
            assert(front.take(k) =~= checks.take(k));
        }
        lemma_checks_without_warning(worker, front);
        assert(checks.take(checks.len() - 1) =~= front);
    }
}

/// A worker that was warned of a window is not warned of a window with that start again until it was
/// warned of another, at whatever times it is checked and whatever the calendar holds by then.
pub proof fn law_window_is_warned_of_once(
    worker: WorkerModel,
    engine: EngineModel,
    now: int,
    between: Seq<(EngineModel, int)>,
    later_engine: EngineModel,
    later: int,
)
    requires
        worker.warning(engine, now) is Some,
        forall|k: int|
            0 <= k < between.len() ==> worker.checked(engine, now).0.after_checks(
                #[trigger] between.take(k),
            ).warning(between[k].0, between[k].1) is None,
        worker.checked(engine, now).0.after_checks(between).warning(later_engine, later) is Some,
    ensures
        worker.checked(engine, now).0.after_checks(between).warning(
            later_engine,
            later,
        )->Some_0.event.window()->Some_0.from() != worker.warning(
            engine,
            now,
        )->Some_0.event.window()->Some_0.from(),
{
    lemma_checks_without_warning(worker.checked(engine, now).0, between);
}

/// A check sends no other warning than the one that comes of it.
pub proof fn law_check_sends_one_warning(worker: WorkerModel, engine: EngineModel, now: int, i: int)
    requires
        0 <= i < worker.checked(engine, now).1.len(),
    ensures
        worker.checked(engine, now).1[i].event is BlackoutWarning <==> worker.warning(
            engine,
            now,
        ) == Some(worker.checked(engine, now).1[i]),
{
}

/// Every message of a check is for the worker that was checked.
pub proof fn law_alerts_name_their_worker(
    worker: WorkerModel,
    engine: EngineModel,
    now: int,
    k: int,
)
    requires
        0 <= k < worker.checked(engine, now).1.len(),
    ensures
        worker.checked(engine, now).1[k].event.worker_id() == Some(worker.id),
        worker.checked(engine, now).1[k].event.window() is Some,
{
}

/// A blackout is announced as begun exactly when the worker was not in one and now is, and as over
/// exactly when it was in one and now is not.
pub proof fn law_alerts_follow_the_transitions(worker: WorkerModel, engine: EngineModel, now: int)
    requires
        worker.config.enabled,
    ensures
        ({
            let alerts = worker.checked(engine, now).1;
            let active = engine.blackout_at(worker.config, now);
            &&& (active && !worker.in_blackout) <==> exists|k: int|
                0 <= k < alerts.len() && (#[trigger] alerts[k]).event is BlackoutStarted
            &&& (!active && worker.in_blackout) <==> exists|k: int|
                0 <= k < alerts.len() && (#[trigger] alerts[k]).event is BlackoutEnded
        }),
{
    let alerts = worker.checked(engine, now).1;
    let (turned, change) = worker.turned(engine, now);
    let (warned, warning) = turned.warned(engine, now);
    if let Some(alert) = change {
        assert(alerts[0] == alert);
    }
}

/// A worker that registers in the middle of a blackout is told so at once.
pub proof fn law_late_worker_is_told_at_once(
    id: Seq<char>,
    config: ConfigModel,
    engine: EngineModel,
    now: int,
)
    requires
        config.enabled,
        engine.blackout_at(config, now),
    ensures
        registered(id, config, engine, now).0.in_blackout,
        registered(id, config, engine, now).1 matches Some(alert) && alert.event
            == (EventModel::BlackoutStarted {
            window: engine.window_at(config, now)->Some_0,
            worker_id: Some(id),
        }),
{
}

/// A worker that was registered is known by its configuration, and the others by theirs.
pub proof fn law_registered_worker_is_known(service: ServiceModel, w: WorkerModel, other: Seq<char>)
    requires
        distinct_ids(service.workers),
    ensures
        ({
            let after = ServiceModel { workers: with_worker(service.workers, w), ..service };
            &&& after.config_of(w.id) == Some(w.config)
            &&& other != w.id ==> after.config_of(other) == service.config_of(other)
        }),
{
    let workers = service.workers;
    let after = with_worker(workers, w);
    lemma_place_of(workers, w.id);
    lemma_with_worker_distinct(workers, w);
    let place = place_of(workers, w.id) as int;
    assert(after[place] == w);
    lemma_known_at(after, place);
    if other != w.id {
        lemma_place_of(workers, other);
        let k = place_of(workers, other) as int;
        if k < workers.len() {
            assert(after[k] == workers[k]);
            lemma_known_at(after, k);
        } else {
            assert forall|i: int| 0 <= i < after.len() implies (#[trigger] after[i]).id != other by {
                if i != place {
                    assert(after[i] == workers[i]);
                }
            }
            lemma_place_found(after, other, after.len() as int);
        }
    }
}

proof fn lemma_known_at(workers: Seq<WorkerModel>, i: int)
    requires
        distinct_ids(workers),
        0 <= i < workers.len(),
    ensures
        place_of(workers, workers[i].id) == i,
{
    assert forall|k: int| 0 <= k < i implies (#[trigger] workers[k]).id != workers[i].id by {}
    lemma_place_found(workers, workers[i].id, i);
}

/// A worker that was registered cannot be registered again, but can be given another configuration;
/// it is the other way round with one that was not.
pub proof fn law_worker_is_registered_once(
    service: ServiceModel,
    id: Seq<char>,
    config: ConfigModel,
    other: ConfigModel,
    now: int,
)
    requires
        other.fault() is None,
    ensures
        ({
            let after = service.with_registered(id, config, now);
            &&& after.registration_fault(id, other) is Some
            &&& after.reregistration_fault(id, other) is None
        }),
        service.knows(id) <==> service.registration_fault(id, other) is Some,
        service.knows(id) <==> service.reregistration_fault(id, other) is None,
{
    let w = registered(id, config, service.engine, now).0;
    assert(w.id == id);
    let before = service.workers;
    let after = with_worker(before, w);
    lemma_place_of(before, id);
    let place = place_of(before, id) as int;
    assert(after[place] == w);
    assert forall|i: int| 0 <= i < place implies (#[trigger] after[i]).id != id by {
        assert(after[i] == before[i]);
    }
    lemma_place_found(after, id, place);
}

/// A worker that was removed is unknown, and the others are as they were.
pub proof fn law_unregistered_worker_is_unknown(
    service: ServiceModel,
    id: Seq<char>,
    other: Seq<char>,
)
    requires
        distinct_ids(service.workers),
    ensures
        ({
            let after = ServiceModel { workers: without_worker(service.workers, id), ..service };
            &&& after.config_of(id) is None
            &&& other != id ==> after.config_of(other) == service.config_of(other)
        }),
{
    let workers = service.workers;
    let after = without_worker(workers, id);
    lemma_place_of(workers, id);
    let place = place_of(workers, id) as int;
    assert forall|i: int| 0 <= i < after.len() implies (#[trigger] after[i]) == workers[if i < place {
        i
    } else {
        i + 1
    }] by {}
    assert forall|i: int| 0 <= i < after.len() implies (#[trigger] after[i]).id != id by {
        let k = if i < place {
            i
        } else {
            i + 1
        };
        assert(after[i] == workers[k]);
        if k > place {
            assert(workers[place].id != workers[k].id);
        }
    }
    lemma_place_found(after, id, after.len() as int);
    if other != id {
        lemma_place_of(workers, other);
        let k = place_of(workers, other) as int;
        let moved = if k <= place {
            k
        } else {
            k - 1
        };
        assert forall|i: int| 0 <= i < moved implies (#[trigger] after[i]).id != other by {
            assert(after[i] == workers[if i < place {
                i
            } else {
                i + 1
            }]);
        }
        if k < workers.len() {
            assert(after[moved] == workers[k]);
        }
        lemma_place_found(after, other, moved);
    }
}

/// A check of an enabled worker that asks for warnings and is not in a blackout sends a warning
/// whenever its next window starts in at least one whole minute and in at most as many as it asks
/// for, and the last window that it was warned of had another start; it looks ahead for two hours, or
/// for as many minutes as it asks for where those are more. The warning names the window, the minutes
/// and the worker, and the window's start is what the worker was last warned of. Otherwise there is no
/// warning.
pub proof fn law_warning_is_sent_when_due(
    worker: WorkerModel,
    engine: EngineModel,
    now: int,
    asked: i64,
    k: int,
)
    requires
        worker.config.enabled,
        worker.config.warning_before_min == Some(asked),
        !engine.blackout_at(worker.config, now),
        0 <= k < engine.windows_for(worker.config, now).len(),
        ({
            let next = engine.windows_for(worker.config, now)[k];
            now < next.start || now == next.start && next.start_lag <= 0
        }),
        forall|j: int|
            0 <= j < k ==> (#[trigger] engine.windows_for(worker.config, now)[j]).start < now
                || engine.windows_for(worker.config, now)[j].start == now && engine.windows_for(
                worker.config,
                now,
            )[j].start_lag > 0,
    ensures
        ({
            let next = engine.windows_for(worker.config, now)[k];
            let minutes = next.from().since(MomentModel { at: now, lag: 0 }) / 60_000_000_000;
            let due = {
                &&& 1 <= minutes <= asked
                &&& next.start <= now + 7_200_000_000_000 || next.start <= now + asked
                    * 60_000_000_000
                &&& worker.last_warned_window_start != Some(next.from())
            };
            let (after, alerts) = worker.checked(engine, now);
            &&& due <==> exists|i: int|
                0 <= i < alerts.len() && (#[trigger] alerts[i]).event is BlackoutWarning
            &&& due ==> {
                &&& alerts.len() > 0
                &&& alerts[alerts.len() - 1].event == (EventModel::BlackoutWarning {
                    window: next,
                    minutes_until_start: minutes,
                    worker_id: Some(worker.id),
                })
                &&& alerts[alerts.len() - 1].notification is None
                &&& after.last_warned_window_start == Some(next.from())
            }
            &&& !due ==> after.last_warned_window_start == worker.last_warned_window_start
        }),
{
    let config = worker.config;
    let own = engine.windows_for(config, now);
    let f = starting_within(now, config.warning_horizon());
    let next = own[k];
    let (after, alerts) = worker.checked(engine, now);
    if f(next) {
        lemma_first_kept(own, f, k);
    } else {
        assert forall|j: int| 0 <= j < own.len() implies !f(#[trigger] own[j]) by {
            if j > k {
                law_windows_are_sorted_and_apart(engine, config, now, k, j);
            }
        }
        lemma_first_kept(own, f, own.len() as int);
    }
    let (turned, change) = worker.turned(engine, now);
    let (warned, warning) = turned.warned(engine, now);
    if let Some(alert) = warning {
        assert(alerts[alerts.len() - 1] == alert);
    }
}

/// There is no warning for a worker that is disabled, in a blackout, or asks for none, nor where no
/// window is still to start.
pub proof fn law_no_warning_without_a_window(worker: WorkerModel, engine: EngineModel, now: int, i: int)
    requires
        0 <= i < worker.checked(engine, now).1.len(),
        worker.checked(engine, now).1[i].event is BlackoutWarning,
    ensures
        worker.config.enabled,
        !engine.blackout_at(worker.config, now),
        worker.config.warning_before_min is Some,
        exists|k: int| #![trigger engine.windows_for(worker.config, now)[k]]
            {
                let own = engine.windows_for(worker.config, now);
                &&& 0 <= k < own.len()
                &&& now < own[k].start || now == own[k].start && own[k].start_lag <= 0
                &&& forall|j: int| #![trigger own[j]]
                    0 <= j < k ==> own[j].start < now || own[j].start == now && own[j].start_lag > 0
            },
{
    let own = engine.windows_for(worker.config, now);
    let f = starting_within(now, worker.config.warning_horizon());
    let due = |w: WindowModel| now < w.start || now == w.start && w.start_lag <= 0;
    let a = lemma_filter_order(own, f, 0, 0).0;
    assert(due(own[a]));
    let k = lemma_least(own, due, a);
    assert(due(own[k]));
    assert forall|j: int| #![trigger own[j]] 0 <= j < k implies own[j].start < now || own[j].start
        == now && own[j].start_lag > 0 by {
        assert(!due(own[j]));
    }
}

proof fn lemma_least(s: Seq<WindowModel>, p: spec_fn(WindowModel) -> bool, a: int) -> (k: int)
    requires
        0 <= a < s.len(),
        p(s[a]),
    ensures
        0 <= k <= a,
        p(s[k]),
        forall|j: int| 0 <= j < k ==> !p(#[trigger] s[j]),
    decreases a,
{
    if exists|j: int| 0 <= j < a && p(#[trigger] s[j]) {
        let j = choose|j: int| 0 <= j < a && p(#[trigger] s[j]);
        lemma_least(s, p, j)
    } else {
        a
    }
}

/// A check tells an enabled worker of a blackout that has begun, with the window that blocks it, or of
/// one that is over, with an empty window at the time of the check. The state that it keeps is that at
/// the time of the check; its name and configuration stay.
pub proof fn law_check_tells_of_changes(worker: WorkerModel, engine: EngineModel, now: int)
    requires
        worker.config.enabled,
    ensures
        ({
            let (after, alerts) = worker.checked(engine, now);
            let active = engine.blackout_at(worker.config, now);
            &&& after.id == worker.id && after.config == worker.config
            &&& after.in_blackout == active
            &&& (forall|i: int|
                0 <= i < alerts.len() ==> !((#[trigger] alerts[i]).event is BlackoutWarning))
                ==> after.last_warned_window_start == worker.last_warned_window_start
            &&& active && worker.in_blackout ==> alerts.len() == 0
            &&& active && !worker.in_blackout ==> {
                &&& alerts.len() == 1
                &&& engine.window_at(worker.config, now) matches Some(window) && {
                    &&& alerts[0].event == (EventModel::BlackoutStarted {
                        window,
                        worker_id: Some(worker.id),
                    })
                    &&& alerts[0].notification == Some(
                        NotificationModel { active: true, window: Some(window) },
                    )
                }
            }
            &&& !active && !worker.in_blackout ==> alerts.len() <= 1
            &&& !active && !worker.in_blackout && alerts.len() == 1
                ==> alerts[0].event is BlackoutWarning
            &&& !active && worker.in_blackout ==> {
                &&& 1 <= alerts.len() <= 2
                &&& alerts.len() == 2 ==> alerts[1].event is BlackoutWarning
                &&& alerts[0].notification == Some(NotificationModel { active: false, window: None })
                &&& alerts[0].event matches EventModel::BlackoutEnded { window, worker_id } && {
                    &&& worker_id == Some(worker.id)
                    &&& window.start == now && window.end == now && window.plain()
                    &&& window.events.len() == 0
                }
            }
        }),
{
    law_blocked_exactly_while_in_a_window(engine, worker.config, now);
    let (after, alerts) = worker.checked(engine, now);
    let (turned, change) = worker.turned(engine, now);
    if let Some(alert) = turned.warned(engine, now).1 {
        assert(alerts[alerts.len() - 1] == alert);
    }
}

/// A worker that has just been registered was warned of nothing. It is in a blackout, and told so,
/// exactly where it is enabled and blocked.
pub proof fn law_registered_worker_starts_afresh(
    id: Seq<char>,
    config: ConfigModel,
    engine: EngineModel,
    now: int,
)
    ensures
        ({
            let (worker, alert) = registered(id, config, engine, now);
            let active = config.enabled && engine.blackout_at(config, now);
            &&& worker.id == id && worker.config == config
            &&& worker.in_blackout == active
            &&& worker.last_warned_window_start is None
            &&& alert is Some <==> active
            &&& alert matches Some(a) ==> {
                &&& engine.window_at(config, now) matches Some(window) && {
                    &&& a.event == (EventModel::BlackoutStarted { window, worker_id: Some(id) })
                    &&& a.notification == Some(
                        NotificationModel { active: true, window: Some(window) },
                    )
                }
            }
        }),
{
    law_blocked_exactly_while_in_a_window(engine, config, now);
}

/// A check of all workers checks each once, in their order: the messages to one more come behind those
/// to the others, and nothing but the workers changes.
pub proof fn law_workers_are_checked_in_turn(
    service: ServiceModel,
    now: int,
    more: WorkerModel,
    i: int,
)
    ensures
        service.workers.len() == 0 ==> service.check_alerts(now).len() == 0,
        (ServiceModel { workers: service.workers.push(more), ..service }).check_alerts(now)
            == service.check_alerts(now) + more.checked(service.engine, now).1,
        service.after_check(now) == (ServiceModel {
            workers: service.after_check(now).workers,
            ..service
        }),
        service.after_check(now).workers.len() == service.workers.len(),
        0 <= i < service.workers.len() ==> service.after_check(now).workers[i]
            == service.workers[i].checked(service.engine, now).0,
{
    assert(service.workers.push(more).drop_last() =~= service.workers);
}

/// A name is known exactly if a worker has it, and the configuration by that name is that worker's.
pub proof fn law_workers_are_known_by_name(service: ServiceModel, id: Seq<char>, i: int)
    requires
        distinct_ids(service.workers),
    ensures
        service.knows(id) <==> exists|k: int|
            0 <= k < service.workers.len() && (#[trigger] service.workers[k]).id == id,
        service.knows(id) <==> service.config_of(id) is Some,
        0 <= i < service.workers.len() && service.workers[i].id == id ==> service.config_of(id)
            == Some(service.workers[i].config),
{
    lemma_place_of(service.workers, id);
    let place = place_of(service.workers, id) as int;
    if service.knows(id) {
        assert(service.workers[place].id == id);
    }
    if exists|k: int| 0 <= k < service.workers.len() && (#[trigger] service.workers[k]).id == id {
        let k = choose|k: int|
            0 <= k < service.workers.len() && (#[trigger] service.workers[k]).id == id;
        lemma_known_at(service.workers, k);
    }
    if 0 <= i < service.workers.len() && service.workers[i].id == id {
        lemma_known_at(service.workers, i);
    }
}

/// Registering puts a worker behind the others, or in the place of the one with its name; no other
/// worker changes or moves, and nothing but the workers changes.
pub proof fn law_registering_leaves_the_others(
    service: ServiceModel,
    id: Seq<char>,
    config: ConfigModel,
    now: int,
    i: int,
)
    ensures
        ({
            let after = service.with_registered(id, config, now);
            let fresh = registered(id, config, service.engine, now).0;
            &&& after == (ServiceModel { workers: after.workers, ..service })
            &&& after.workers.len() == service.workers.len() + if service.knows(id) {
                0int
            } else {
                1
            }
            &&& !service.knows(id) ==> after.workers[service.workers.len() as int] == fresh
            &&& after.workers.contains(fresh)
            &&& 0 <= i < service.workers.len() && service.workers[i].id != id ==> after.workers[i]
                == service.workers[i]
            &&& distinct_ids(service.workers) && 0 <= i < service.workers.len()
                && service.workers[i].id == id ==> after.workers[i] == fresh
        }),
{
    let fresh = registered(id, config, service.engine, now).0;
    lemma_place_of(service.workers, id);
    let place = place_of(service.workers, id) as int;
    assert(with_worker(service.workers, fresh)[place] == fresh);
    if distinct_ids(service.workers) && 0 <= i < service.workers.len() && service.workers[i].id == id {
        lemma_known_at(service.workers, i);
    }
}

/// Removing a worker leaves the others in their order.
pub proof fn law_removing_leaves_the_others(workers: Seq<WorkerModel>, id: Seq<char>, w: WorkerModel)
    requires
        distinct_ids(workers),
    ensures
        without_worker(workers, id) == workers.filter(|x: WorkerModel| x.id != id),
        without_worker(workers, id).contains(w) <==> workers.contains(w) && w.id != id,
{
    let p = |x: WorkerModel| x.id != id;
    lemma_without_filters(workers, id);
    let kept = workers.filter(p);
    if kept.contains(w) {
        let k = choose|k: int| 0 <= k < kept.len() && kept[k] == w;
        let i = lemma_filter_order(workers, p, k, k).0;
        assert(workers[i] == w);
    }
    if workers.contains(w) && w.id != id {
        let i = choose|i: int| 0 <= i < workers.len() && workers[i] == w;
        workers.lemma_filter_contains(p, i);
    }
}

proof fn lemma_without_filters(workers: Seq<WorkerModel>, id: Seq<char>)
    requires
        distinct_ids(workers),
    ensures
        without_worker(workers, id) == workers.filter(|x: WorkerModel| x.id != id),
    decreases workers.len(),
{
    reveal(Seq::filter);
    let p = |x: WorkerModel| x.id != id;
    lemma_place_of(workers, id);
    let place = place_of(workers, id) as int;
    if workers.len() > 0 {
        let front = workers.drop_last();
        let last = workers.last();
        assert(forall|i: int| 0 <= i < front.len() ==> #[trigger] front[i] == workers[i]);
        assert(distinct_ids(front));
        lemma_without_filters(front, id);
        lemma_place_of(front, id);
        if place < front.len() {
            assert(front[place].id == id);
            lemma_known_at(front, place);
            assert(workers[place].id != workers[workers.len() - 1].id);
            assert(without_worker(workers, id) =~= front.remove(place).push(last));
        } else {
            assert forall|i: int| 0 <= i < front.len() implies (#[trigger] front[i]).id != id by {
                assert(workers[i].id != id);
            }
            lemma_place_found(front, id, front.len() as int);
            if place < workers.len() {
                assert(without_worker(workers, id) =~= front);
            } else {
                assert(workers[workers.len() - 1].id != id);
                assert(without_worker(workers, id) =~= front.push(last));
            }
        }
    } else {
        assert(without_worker(workers, id) =~= workers.filter(p));
    }
}

/// A worker whose configuration is faulty is refused for that fault, whether its name is known or not;
/// one with a sound configuration is refused for its name alone, in these words.
pub proof fn law_refusals_of_workers(service: ServiceModel, id: Seq<char>, config: ConfigModel)
    ensures
        config.fault() matches Some(e) ==> service.registration_fault(id, config) == Some(e)
            && service.reregistration_fault(id, config) == Some(e),
        config.fault() is None && service.knows(id) ==> {
            &&& service.registration_fault(id, config) == Some(
                ErrorModel::Service("worker '"@ + id + "' is already registered"@),
            )
            &&& service.reregistration_fault(id, config) is None
        },
        config.fault() is None && !service.knows(id) ==> {
            &&& service.registration_fault(id, config) is None
            &&& service.reregistration_fault(id, config) == Some(
                ErrorModel::Service("worker '"@ + id + "' is not registered"@),
            )
        },
{
}

/// The configurations that a calendar is compiled for are those of the enabled workers, in their
/// order.
pub proof fn law_enabled_workers_count(service: ServiceModel, more: WorkerModel)
    ensures
        service.workers.len() == 0 ==> service.enabled_configs().len() == 0,
        (ServiceModel { workers: service.workers.push(more), ..service }).enabled_configs() == if more.config.enabled {
            service.enabled_configs().push(more.config)
        } else {
            service.enabled_configs()
        },
{
    let n = service.workers.len() as int;
    let longer = service.workers.push(more);
    lemma_filter_map_step(longer, n, enabled_config());
    assert(longer.take(n) =~= service.workers);
    assert(longer.take(n + 1) =~= longer);
}

/// A start takes effect exactly where there is a worker that is enabled; a service without workers,
/// and one whose workers are all disabled, are told apart.
pub proof fn law_start_needs_an_enabled_worker(service: ServiceModel)
    ensures
        service.start_decided() == StartDecision::NoWorkers <==> service.workers.len() == 0,
        service.start_decided() == StartDecision::Start <==> exists|i: int|
            0 <= i < service.workers.len() && (#[trigger] service.workers[i]).config.enabled,
        service.start_decided() == StartDecision::AllDisabled <==> service.workers.len() > 0
            && forall|i: int|
            0 <= i < service.workers.len() ==> !(#[trigger] service.workers[i]).config.enabled,
{
}

/// In each state of the service one call takes it on, and the others leave it as it is.
pub proof fn law_life_of_a_service(service: ServiceModel, synced: bool)
    ensures
        ({
            let states = |s: ServiceState| ServiceModel { state: s, ..service };
            &&& service.state is Stopped && service.start_decided() is Start
                ==> service.start_begun() == states(ServiceState::Starting)
            &&& !(service.state is Stopped && service.start_decided() is Start)
                ==> service.start_begun() == service
            &&& service.state is Starting && synced ==> service.start_finished(synced) == states(
                ServiceState::Running,
            )
            &&& service.state is Starting && !synced ==> service.start_finished(synced) == states(
                ServiceState::Stopped,
            )
            &&& !(service.state is Starting) ==> service.start_finished(synced) == service
            &&& service.state is Running ==> service.stop_begun() == states(ServiceState::Stopping)
            &&& !(service.state is Running) ==> service.stop_begun() == service
            &&& service.state is Stopping ==> service.stop_finished() == states(ServiceState::Stopped)
            &&& !(service.state is Stopping) ==> service.stop_finished() == service
        }),
{
}

/// A new service is stopped, knows no worker and no event, and has fetched nothing.
pub proof fn law_new_service_is_empty(check_interval: nat)
    ensures
        ({
            let service = ServiceModel::new(check_interval);
            &&& service.state is Stopped
            &&& service.workers.len() == 0
            &&& service.engine.raw_events.len() == 0
            &&& service.engine.parsed_events.len() == 0
            &&& service.engine.windows.len() == 0
            &&& service.engine.timezone is None
            &&& !service.engine.stale
            &&& service.last_fetch_date is None
            &&& service.last_sync_time is None
            &&& service.last_sync_error is None
            &&& service.check_interval == check_interval
        }),
{
}

/// While the data is not stale, the calendar is next fetched at the midnight that comes next, to the
/// second below, but in one second at the earliest; while it is stale, in a quarter of an hour.
pub proof fn law_next_fetch_is_at_midnight(service: ServiceModel, now: int, midnight: int)
    requires
        midnight % 86_400_000_000_000 == 0,
        midnight - 86_400_000_000_000 <= now < midnight,
    ensures
        service.engine.stale ==> service.seconds_to_sync(now) == 900,
        !service.engine.stale && midnight - now >= 1_000_000_000 ==> {
            &&& now + service.seconds_to_sync(now) * 1_000_000_000 <= midnight
            &&& midnight < now + (service.seconds_to_sync(now) + 1) * 1_000_000_000
        },
        !service.engine.stale && midnight - now < 1_000_000_000 ==> service.seconds_to_sync(now) == 1,
{
}

/// The least time between two checks is a tenth of a second.
pub proof fn law_shortest_check_interval()
    ensures
        MIN_CHECK_INTERVAL_NANOS == 100_000_000,
        SYNC_RETRY_SECS == 900,
{
}

/// Something changes for the service exactly when it does for an enabled worker.
pub proof fn law_changes_of_the_service(service: ServiceModel, now: int, time: int)
    ensures
        service.changes_at(now, time) <==> exists|i: int| #![trigger service.workers[i]]
            0 <= i < service.workers.len() && service.workers[i].config.enabled
                && service.engine.changes_at(service.workers[i].config, now, time),
{
}

/// The windows that are shown for a worker are its own that end after the time in question.
pub proof fn law_shown_windows_end_later(s: Seq<WindowModel>, now: int, w: WindowModel)
    ensures
        s.filter(ends_after(now)).contains(w) <==> s.contains(w) && now < w.end,
{
    let f = ends_after(now);
    let kept = s.filter(f);
    if kept.contains(w) {
        let k = choose|k: int| 0 <= k < kept.len() && kept[k] == w;
        let i = lemma_filter_order(s, f, k, k).0;
        assert(s[i] == w);
    }
    if s.contains(w) && now < w.end {
        let i = choose|i: int| 0 <= i < s.len() && s[i] == w;
        s.lemma_filter_contains(f, i);
    }
}

/// A message shows its event and its notification.
pub proof fn law_alert_by_field(alert: Alert)
    ensures
        alert@.event == alert.event@,
        alert@.notification == option_view(alert.notification),
{
}

} // verus!
