//! How the host is doing: the errors of late, the runners that failed, and the runtime's tasks.
use crate::bridge::{
    HostRecentError, HostRecentErrorView, PluginSummary, PluginSummaryView, RunnerSummary,
    RunnerSummaryView, RuntimeHealth, RuntimeHealthView,
};
use crate::bridge;
use crate::contracts::{
    HostTaskSnapshot, RuntimeError, RuntimeErrorView, RuntimeEvent, RuntimeEventKind, RuntimeEventView, ScalarValue,
    ScalarView, TaskStatus,
};
use crate::contracts;
use crate::events;
use crate::ordered_map::OrderedMap;
use crate::text;
use std::collections::VecDeque;
use vstd::prelude::*;
use vstd::string::*;

verus! {

broadcast use vstd::string::group_string_axioms;

/// The host remembers this many errors.
pub const RECENT_ERROR_LIMIT: usize = 20;

/// The nanoseconds of a millisecond.
pub const NANOS_PER_MILLI: u128 = 1_000_000;

/// The milliseconds on a clock that shows `since_epoch` nanoseconds since 1970: those of a clock
/// before 1970 count as none, and those beyond the largest number as that number.
pub open spec fn clock_ms(since_epoch: Option<u128>) -> i64 {
    match since_epoch {
        Some(nanos) => if nanos / NANOS_PER_MILLI > i64::MAX {
            i64::MAX
        } else {
            (nanos / NANOS_PER_MILLI) as i64
        },
        None => 0,
    }
}

/// The milliseconds on a clock. `since_epoch` is absent on a clock before 1970.
pub fn current_timestamp_ms(since_epoch: Option<u128>) -> (ms: i64)
    ensures
        ms == clock_ms(since_epoch),
{
    match since_epoch {
        Some(nanos) => {
            let ms: u128 = nanos / NANOS_PER_MILLI;
            if ms > i64::MAX as u128 {
                i64::MAX
            } else {
                ms as i64
            }
        },
        None => 0,
    }
}

/// What a runner failed with.
#[derive(Debug, PartialEq, Eq)]
pub struct RunnerRuntimeFailure {
    message: String,
}

impl RunnerRuntimeFailure {
    pub closed spec fn words(self) -> Seq<char> {
        self.message@
    }

    pub fn message(&self) -> (words: &str)
        ensures
            words@ == self.words(),
    {
        self.message.as_str()
    }
}

impl Clone for RunnerRuntimeFailure {
    fn clone(&self) -> (copy: Self)
        ensures
            copy == *self,
    {
        RunnerRuntimeFailure { message: self.message.clone() }
    }
}

/// What the host knows of its health.
#[derive(Debug)]
pub struct HostHealthState {
    recent_errors: VecDeque<HostRecentError>,
    runner_failures: OrderedMap<RunnerRuntimeFailure>,
}

/// The errors of late, oldest first, and the message of each runner that failed.
#[verifier::ext_equal]
pub struct HealthView {
    pub recent: Seq<HostRecentErrorView>,
    pub failures: Map<Seq<char>, Seq<char>>,
}

pub open spec fn healthy() -> HealthView {
    HealthView { recent: Seq::empty(), failures: Map::empty() }
}

/// The errors of late with one more. The oldest is forgotten where there are too many.
pub open spec fn remembered(
    recent: Seq<HostRecentErrorView>,
    error: HostRecentErrorView,
) -> Seq<HostRecentErrorView> {
    if recent.len() == RECENT_ERROR_LIMIT {
        recent.drop_first().push(error)
    } else {
        recent.push(error)
    }
}

/// The state of health with one more error.
pub open spec fn error_noted(v: HealthView, error: HostRecentErrorView) -> HealthView {
    HealthView { recent: remembered(v.recent, error), ..v }
}

/// The text under a key of an error's evidence, where a text stands there.
pub open spec fn evidence_text(error: RuntimeErrorView, key: Seq<char>) -> Option<Seq<char>> {
    if error.evidence.contains_key(key) {
        match error.evidence[key] {
            ScalarView::String(s) => Some(s),
            _ => None,
        }
    } else {
        None
    }
}

/// The error of a runtime event as the host remembers it.
pub open spec fn event_error(event: RuntimeEventView, now: i64) -> HostRecentErrorView {
    let error = event.error->0;
    HostRecentErrorView {
        source: error.source,
        message: error.code + " at "@ + error.route,
        timestamp_ms: now,
        plugin_id: evidence_text(error, "plugin_id"@),
        runner_id: evidence_text(error, "runner_id"@),
        task_id: events::event_task(event),
        code: Some(error.code),
        route: Some(error.route),
    }
}

/// The state of health after a runtime event: an event without an error changes nothing.
pub open spec fn event_noted(v: HealthView, event: RuntimeEventView, now: i64) -> HealthView {
    if event.error is Some {
        error_noted(v, event_error(event, now))
    } else {
        v
    }
}

/// The state of health after a row of runtime events, each of them free of secrets.
pub open spec fn events_noted(v: HealthView, row: Seq<RuntimeEventView>, now: i64) -> HealthView
    decreases row.len(),
{
    if row.len() == 0 {
        v
    } else {
        event_noted(
            events_noted(v, row.drop_last(), now),
            crate::redact::redacted_event(row.last()),
            now,
        )
    }
}

/// An error of the host itself.
pub open spec fn host_error(source: Seq<char>, message: Seq<char>, now: i64) -> HostRecentErrorView {
    HostRecentErrorView {
        source,
        message,
        timestamp_ms: now,
        plugin_id: None,
        runner_id: None,
        task_id: None,
        code: None,
        route: None,
    }
}

/// The error of a plugin that did not load.
pub open spec fn plugin_error(plugin_id: Seq<char>, message: Seq<char>, now: i64) -> HostRecentErrorView {
    HostRecentErrorView {
        plugin_id: Some(plugin_id),
        ..host_error("mutsuki_tauri_host.plugin"@, message, now)
    }
}

/// The state of health once a runner failed.
pub open spec fn runner_noted(
    v: HealthView,
    runner_id: Seq<char>,
    plugin_id: Seq<char>,
    message: Seq<char>,
    code: Option<Seq<char>>,
    route: Option<Seq<char>>,
    now: i64,
) -> HealthView {
    error_noted(
        HealthView { failures: v.failures.insert(runner_id, message), ..v },
        HostRecentErrorView {
            plugin_id: Some(plugin_id),
            runner_id: Some(runner_id),
            code,
            route,
            ..host_error("mutsuki_tauri_host.runner"@, message, now)
        },
    )
}

/// The text of an option, or another text in its place.
pub open spec fn text_or(text: Option<Seq<char>>, other: Seq<char>) -> Seq<char> {
    match text {
        Some(t) => t,
        None => other,
    }
}

/// The state of health after a row of plugins: those that failed or carry an error are noted.
pub open spec fn plugins_noted(v: HealthView, plugins: Seq<PluginSummaryView>, now: i64) -> HealthView
    decreases plugins.len(),
{
    if plugins.len() == 0 {
        v
    } else {
        let w = plugins_noted(v, plugins.drop_last(), now);
        let plugin = plugins.last();
        if plugin.status == "failed"@ || plugin.error is Some {
            error_noted(
                w,
                plugin_error(
                    plugin.plugin_id,
                    text_or(plugin.error, "plugin load failed"@),
                    now,
                ),
            )
        } else {
            w
        }
    }
}

/// The state of health after a row of runners: those that failed or carry an error are noted.
pub open spec fn runners_noted(v: HealthView, runners: Seq<RunnerSummaryView>, now: i64) -> HealthView
    decreases runners.len(),
{
    if runners.len() == 0 {
        v
    } else {
        let w = runners_noted(v, runners.drop_last(), now);
        let runner = runners.last();
        if runner.status == "failed"@ || runner.error is Some {
            runner_noted(
                w,
                runner.runner_id,
                runner.plugin_id,
                text_or(runner.error, "runner load failed"@),
                None,
                None,
                now,
            )
        } else {
            w
        }
    }
}

/// The views of a row of remembered errors.
pub open spec fn error_views(errors: Seq<HostRecentError>) -> Seq<HostRecentErrorView> {
    errors.map_values(|error: HostRecentError| error@)
}

/// The messages of the runners that failed.
pub open spec fn failure_words(failures: Map<Seq<char>, RunnerRuntimeFailure>) -> Map<Seq<char>, Seq<char>> {
    failures.map_values(|failure: RunnerRuntimeFailure| failure.words())
}

impl View for HostHealthState {
    type V = HealthView;

    closed spec fn view(&self) -> HealthView {
        HealthView {
            recent: error_views(self.recent_errors@),
            failures: failure_words(self.runner_failures@),
        }
    }
}

fn scalar_string(error: &RuntimeError, key: &str) -> (found: Option<String>)
    ensures
        text::opt_text(found) == evidence_text(error@, key@),
{
    match error.evidence.get(key) {
        Some(ScalarValue::String(value)) => Some(value.clone()),
        _ => None,
    }
}

impl HostHealthState {
    #[verifier::type_invariant]
    spec fn bounded(self) -> bool {
        self.recent_errors@.len() <= RECENT_ERROR_LIMIT
    }

    pub fn new() -> (state: Self)
        ensures
            state@ == healthy(),
    {
        let state = HostHealthState {
            recent_errors: VecDeque::new(),
            runner_failures: OrderedMap::new(),
        };
        assert(state@ =~= healthy());
        state
    }

    fn push_error(&mut self, error: HostRecentError)
        ensures
            final(self)@ == error_noted(old(self)@, error@),
    {
        proof {
            use_type_invariant(&*self);
        }
        let mut recent: VecDeque<HostRecentError> = VecDeque::new();
        std::mem::swap(&mut recent, &mut self.recent_errors);
        if recent.len() == RECENT_ERROR_LIMIT {
            let _ = recent.pop_front();
        }
        recent.push_back(error);
        self.recent_errors = recent;
        assert(self@ =~= error_noted(old(self)@, error@));
    }

    fn note_runner_failure(&mut self, runner_id: &str, message: &str)
        ensures
            final(self)@ == (HealthView {
                failures: old(self)@.failures.insert(runner_id@, message@),
                ..old(self)@
            }),
    {
        proof {
            use_type_invariant(&*self);
        }
        let mut failures: OrderedMap<RunnerRuntimeFailure> = OrderedMap::new();
        std::mem::swap(&mut failures, &mut self.runner_failures);
        failures.insert(
            runner_id.to_owned(),
            RunnerRuntimeFailure { message: message.to_owned() },
        );
        self.runner_failures = failures;
        assert(self@.failures =~= old(self)@.failures.insert(runner_id@, message@));
    }

    /// Notes the error of a runtime event, where it has one.
    pub fn record_runtime_event_error(&mut self, event: &RuntimeEvent, now: i64)
        ensures
            final(self)@ == event_noted(old(self)@, event@, now),
    {
        let error = match &event.error {
            Some(error) => error,
            None => {
                return ;
            },
        };
        let message = text::join3(error.code.as_str(), " at ", error.route.as_str());
        self.push_error(
            HostRecentError {
                source: error.source.clone(),
                message,
                timestamp_ms: now,
                plugin_id: scalar_string(error, "plugin_id"),
                runner_id: scalar_string(error, "runner_id"),
                task_id: events::task_event_id(event),
                code: Some(error.code.clone()),
                route: Some(error.route.clone()),
            },
        );
    }

    /// Notes that the runtime did not answer.
    pub fn record_runtime_probe_error(&mut self, message: &str, now: i64)
        ensures
            final(self)@ == error_noted(
                old(self)@,
                host_error("mutsuki_tauri_host.runtime"@, message@, now),
            ),
    {
        self.record_host_error("mutsuki_tauri_host.runtime", message, now);
    }

    /// Notes an error of the host itself.
    pub fn record_host_error(&mut self, source: &str, message: &str, now: i64)
        ensures
            final(self)@ == error_noted(old(self)@, host_error(source@, message@, now)),
    {
        self.push_error(
            HostRecentError {
                source: source.to_owned(),
                message: message.to_owned(),
                timestamp_ms: now,
                plugin_id: None,
                runner_id: None,
                task_id: None,
                code: None,
                route: None,
            },
        );
    }

    /// Notes that a runner failed at work.
    pub fn record_runner_runtime_error(
        &mut self,
        runner_id: &str,
        plugin_id: &str,
        error: &RuntimeError,
        now: i64,
    )
        ensures
            final(self)@ == runner_noted(
                old(self)@,
                runner_id@,
                plugin_id@,
                error.code@ + " at "@ + error.route@,
                Some(error.code@),
                Some(error.route@),
                now,
            ),
    {
        let message = text::join3(error.code.as_str(), " at ", error.route.as_str());
        self.note_runner_failure(runner_id, message.as_str());
        self.push_error(
            HostRecentError {
                source: "mutsuki_tauri_host.runner".to_owned(),
                message,
                timestamp_ms: now,
                plugin_id: Some(plugin_id.to_owned()),
                runner_id: Some(runner_id.to_owned()),
                task_id: None,
                code: Some(error.code.clone()),
                route: Some(error.route.clone()),
            },
        );
    }

    fn record_plugin_error(&mut self, plugin_id: &str, message: &str, now: i64)
        ensures
            final(self)@ == error_noted(old(self)@, plugin_error(plugin_id@, message@, now)),
    {
        self.push_error(
            HostRecentError {
                source: "mutsuki_tauri_host.plugin".to_owned(),
                message: message.to_owned(),
                timestamp_ms: now,
                plugin_id: Some(plugin_id.to_owned()),
                runner_id: None,
                task_id: None,
                code: None,
                route: None,
            },
        );
    }

    fn record_runner_load_error(
        &mut self,
        runner_id: &str,
        plugin_id: &str,
        message: &str,
        now: i64,
    )
        ensures
            final(self)@ == runner_noted(
                old(self)@,
                runner_id@,
                plugin_id@,
                message@,
                None,
                None,
                now,
            ),
    {
        self.note_runner_failure(runner_id, message);
        self.push_error(
            HostRecentError {
                source: "mutsuki_tauri_host.runner".to_owned(),
                message: message.to_owned(),
                timestamp_ms: now,
                plugin_id: Some(plugin_id.to_owned()),
                runner_id: Some(runner_id.to_owned()),
                task_id: None,
                code: None,
                route: None,
            },
        );
    }

    /// Notes the plugins and then the runners that failed or carry an error.
    pub fn record_summary_failures(
        &mut self,
        plugins: &Vec<PluginSummary>,
        runners: &Vec<RunnerSummary>,
        now: i64,
    )
        ensures
            final(self)@ == runners_noted(
                plugins_noted(old(self)@, bridge::plugin_views(plugins@), now),
                bridge::runner_views(runners@),
                now,
            ),
    {
        let ghost start = self@;
        let ghost all_plugins = bridge::plugin_views(plugins@);
        let ghost all_runners = bridge::runner_views(runners@);
        let mut i: usize = 0;
        while i < plugins.len()
            invariant
                i <= plugins.len(),
                all_plugins == bridge::plugin_views(plugins@),
                self@ == plugins_noted(start, all_plugins.take(i as int), now),
            decreases plugins.len() - i,
        {
            let plugin = &plugins[i];
            proof {
                let next = all_plugins.take(i + 1);
                assert(next.drop_last() =~= all_plugins.take(i as int));
                assert(next.last() == plugin@);
            }
            if text::text_eq(plugin.status.as_str(), "failed") || plugin.error.is_some() {
                let message = match &plugin.error {
                    Some(error) => error.as_str(),
                    None => "plugin load failed",
                };
                self.record_plugin_error(plugin.plugin_id.as_str(), message, now);
            }
            i = i + 1;
        }
        assert(all_plugins.take(i as int) =~= all_plugins);
        let ghost middle = self@;
        let mut j: usize = 0;
        while j < runners.len()
            invariant
                j <= runners.len(),
                all_runners == bridge::runner_views(runners@),
                self@ == runners_noted(middle, all_runners.take(j as int), now),
            decreases runners.len() - j,
        {
            let runner = &runners[j];
            proof {
                let next = all_runners.take(j + 1);
                assert(next.drop_last() =~= all_runners.take(j as int));
                assert(next.last() == runner@);
            }
            if text::text_eq(runner.status.as_str(), "failed") || runner.error.is_some() {
                let message = match &runner.error {
                    Some(error) => error.as_str(),
                    None => "runner load failed",
                };
                self.record_runner_load_error(
                    runner.runner_id.as_str(),
                    runner.plugin_id.as_str(),
                    message,
                    now,
                );
            }
            j = j + 1;
        }
        assert(all_runners.take(j as int) =~= all_runners);
    }

    /// The errors of late, oldest first.
    pub fn recent_errors(&self) -> (errors: Vec<HostRecentError>)
        ensures
            error_views(errors@) == self@.recent,
            errors.len() <= RECENT_ERROR_LIMIT,
    {
        proof {
            use_type_invariant(self);
        }
        let mut errors: Vec<HostRecentError> = Vec::new();
        let mut i: usize = 0;
        while i < self.recent_errors.len()
            invariant
                i <= self.recent_errors@.len(),
                errors@ == self.recent_errors@.take(i as int),
            decreases self.recent_errors@.len() - i,
        {
            errors.push(self.recent_errors[i].clone());
            i = i + 1;
            assert(errors@ =~= self.recent_errors@.take(i as int));
        }
        assert(errors@ =~= self.recent_errors@);
        errors
    }

    /// What a runner failed with, where it failed.
    pub fn runner_failure(&self, runner_id: &str) -> (failure: Option<RunnerRuntimeFailure>)
        ensures
            match failure {
                Some(f) => self@.failures.contains_key(runner_id@) && f.words()
                    == self@.failures[runner_id@],
                None => !self@.failures.contains_key(runner_id@),
            },
    {
        match self.runner_failures.get(runner_id) {
            Some(failure) => Some(failure.clone()),
            None => None,
        }
    }
}

/// However much is noted, the host remembers no more errors than its limit, and the newest is
/// among them.
pub proof fn law_recent_errors_are_bounded(v: HealthView, error: HostRecentErrorView)
    requires
        v.recent.len() <= RECENT_ERROR_LIMIT,
    ensures
        error_noted(v, error).recent.len() <= RECENT_ERROR_LIMIT,
        error_noted(v, error).recent.last() == error,
{
}

/// A task with this status is still in flight.
pub open spec fn active_status(status: TaskStatus) -> bool {
    status == TaskStatus::Created || status == TaskStatus::Ready || status == TaskStatus::Running
        || status == TaskStatus::Waiting || status == TaskStatus::Blocked
}

/// A task with this status went wrong.
pub open spec fn failed_status(status: TaskStatus) -> bool {
    status == TaskStatus::Failed || status == TaskStatus::Expired || status
        == TaskStatus::DeadLetter
}

fn is_active_status(status: &TaskStatus) -> (active: bool)
    ensures
        active == active_status(*status),
        active <==> status is Created || status is Ready || status is Running || status is Waiting
            || status is Blocked,
{
    match status {
        TaskStatus::Created
        | TaskStatus::Ready
        | TaskStatus::Running
        | TaskStatus::Waiting
        | TaskStatus::Blocked => true,
        _ => false,
    }
}

fn is_failed_status(status: &TaskStatus) -> (failed: bool)
    ensures
        failed == failed_status(*status),
        failed <==> status is Failed || status is Expired || status is DeadLetter,
{
    match status {
        TaskStatus::Failed | TaskStatus::Expired | TaskStatus::DeadLetter => true,
        _ => false,
    }
}

/// The snapshots of tasks in flight.
pub open spec fn active_snapshots(snapshots: Seq<HostTaskSnapshot>) -> Seq<HostTaskSnapshot> {
    snapshots.filter(|snapshot: HostTaskSnapshot| active_status(snapshot.status))
}

/// The snapshots of tasks that went wrong.
pub open spec fn failed_snapshots(snapshots: Seq<HostTaskSnapshot>) -> Seq<HostTaskSnapshot> {
    snapshots.filter(|snapshot: HostTaskSnapshot| failed_status(snapshot.status))
}

/// The health of a runtime that answered with its task table.
pub fn runtime_health_from_snapshots(snapshots: &Vec<HostTaskSnapshot>) -> (health: RuntimeHealth)
    ensures
        health@ == (RuntimeHealthView {
            healthy: true,
            status: "running"@,
            active_tasks: active_snapshots(snapshots@).len(),
            failed_tasks: failed_snapshots(snapshots@).len(),
            error: None,
        }),
{
    let mut active: usize = 0;
    let mut failed: usize = 0;
    let mut i: usize = 0;
    reveal(Seq::filter);
    while i < snapshots.len()
        invariant
            i <= snapshots.len(),
            active == active_snapshots(snapshots@.take(i as int)).len(),
            failed == failed_snapshots(snapshots@.take(i as int)).len(),
            active <= i,
            failed <= i,
        decreases snapshots.len() - i,
    {
        reveal(Seq::filter);
        assert(snapshots@.take(i + 1).drop_last() =~= snapshots@.take(i as int));
        if is_active_status(&snapshots[i].status) {
            active = active + 1;
        }
        if is_failed_status(&snapshots[i].status) {
            failed = failed + 1;
        }
        i = i + 1;
    }
    assert(snapshots@.take(i as int) =~= snapshots@);
    RuntimeHealth {
        healthy: true,
        status: "running".to_owned(),
        active_tasks: active,
        failed_tasks: failed,
        error: None,
    }
}

/// The health of a runtime that did not answer.
pub fn failed_runtime_health(error: String) -> (health: RuntimeHealth)
    ensures
        health@ == (RuntimeHealthView {
            healthy: false,
            status: "failed"@,
            active_tasks: 0,
            failed_tasks: 0,
            error: Some(error@),
        }),
{
    RuntimeHealth {
        healthy: false,
        status: "failed".to_owned(),
        active_tasks: 0,
        failed_tasks: 0,
        error: Some(error),
    }
}

/// A clock that shows a time since 1970 that fits is read in whole milliseconds, one that shows a
/// later time as the last one that fits, and one before 1970 as none.
pub proof fn law_clock_is_read_in_milliseconds(nanos: u128)
    ensures
        nanos / 1_000_000 <= i64::MAX ==> clock_ms(Some(nanos)) * 1_000_000 <= nanos && nanos < (
        clock_ms(Some(nanos)) + 1) * 1_000_000,
        nanos / 1_000_000 > i64::MAX ==> clock_ms(Some(nanos)) == i64::MAX,
        clock_ms(None) == 0,
{
}

/// The newest of a row of errors, as many as the host remembers.
pub open spec fn newest(errors: Seq<HostRecentErrorView>) -> Seq<HostRecentErrorView> {
    if errors.len() > 20 {
        errors.skip(errors.len() - 20)
    } else {
        errors
    }
}

proof fn lemma_newest_push(errors: Seq<HostRecentErrorView>, error: HostRecentErrorView)
    ensures
        remembered(newest(errors), error) == newest(errors.push(error)),
{
    assert(remembered(newest(errors), error) =~= newest(errors.push(error)));
}

/// An error that is noted is remembered behind those before it, of which the newest stay as they
/// are; what is known of the runners stays.
pub proof fn law_newest_errors_are_remembered(v: HealthView, error: HostRecentErrorView)
    requires
        v.recent.len() <= 20,
    ensures
        error_noted(v, error).recent == newest(v.recent.push(error)),
        error_noted(v, error).failures == v.failures,
        v.recent.len() < 20 ==> error_noted(v, error).recent == v.recent.push(error),
{
    lemma_newest_push(v.recent, error);
}

/// The error of an event is remembered with its own source, code and route, with the time, with the
/// plugin and the runner that its evidence names, and with the task that the event is about.
pub proof fn law_event_error_is_remembered_whole(
    v: HealthView,
    event: RuntimeEventView,
    now: i64,
)
    requires
        v.recent.len() <= 20,
    ensures
        event.error is None ==> event_noted(v, event, now) == v,
        event.error matches Some(error) ==> {
            let noted = event_noted(v, event, now).recent.last();
            &&& event_noted(v, event, now).recent == newest(v.recent.push(noted))
            &&& event_noted(v, event, now).failures == v.failures
            &&& noted.source == error.source
            &&& noted.message == error.code + " at "@ + error.route
            &&& noted.timestamp_ms == now
            &&& noted.code == Some(error.code)
            &&& noted.route == Some(error.route)
            &&& event.kind is Task ==> noted.task_id == event.subject_id
            &&& !(event.kind is Task) ==> noted.task_id is None
            &&& forall|id: Seq<char>|
                noted.plugin_id == Some(id) <==> error.evidence.contains_key("plugin_id"@)
                    && error.evidence["plugin_id"@] == ScalarView::String(id)
            &&& forall|id: Seq<char>|
                noted.runner_id == Some(id) <==> error.evidence.contains_key("runner_id"@)
                    && error.evidence["runner_id"@] == ScalarView::String(id)
        },
{
    if event.error is Some {
        lemma_newest_push(v.recent, event_error(event, now));
    }
}

/// Of a row of events, every one with an error is remembered, in order and free of secrets, as far
/// as the host remembers that many.
pub proof fn law_errors_of_events_are_remembered(
    v: HealthView,
    row: Seq<RuntimeEventView>,
    now: i64,
)
    requires
        v.recent.len() <= 20,
    ensures
        events_noted(v, row, now).failures == v.failures,
        events_noted(v, row, now).recent == newest(
            v.recent + row.filter(|event: RuntimeEventView| event.error is Some).map_values(
                |event: RuntimeEventView| event_error(crate::redact::redacted_event(event), now),
            ),
        ),
    decreases row.len(),
{
    let p = |event: RuntimeEventView| event.error is Some;
    let f = |event: RuntimeEventView| event_error(crate::redact::redacted_event(event), now);
    reveal(Seq::filter);
    if row.len() > 0 {
        let front = row.drop_last();
        law_errors_of_events_are_remembered(v, front, now);
        let before = v.recent + front.filter(p).map_values(f);
        if p(row.last()) {
            lemma_newest_push(before, f(row.last()));
            assert(row.filter(p).map_values(f) =~= front.filter(p).map_values(f).push(
                f(row.last()),
            ));
            assert(v.recent + row.filter(p).map_values(f) =~= before.push(f(row.last())));
        }
    } else {
        assert(v.recent + row.filter(p).map_values(f) =~= v.recent);
    }
}

/// Of a row of plugins, every one that failed or carries an error is remembered, in order, with its
/// own error or else with the words for one that did not load; what is known of the runners stays.
pub proof fn law_plugins_in_trouble_are_remembered(
    v: HealthView,
    plugins: Seq<PluginSummaryView>,
    now: i64,
)
    requires
        v.recent.len() <= 20,
    ensures
        plugins_noted(v, plugins, now).failures == v.failures,
        plugins_noted(v, plugins, now).recent == newest(
            v.recent + plugins.filter(
                |plugin: PluginSummaryView| plugin.status == "failed"@ || plugin.error is Some,
            ).map_values(
                |plugin: PluginSummaryView|
                    HostRecentErrorView {
                        source: "mutsuki_tauri_host.plugin"@,
                        message: if plugin.error is Some {
                            plugin.error->0
                        } else {
                            "plugin load failed"@
                        },
                        timestamp_ms: now,
                        plugin_id: Some(plugin.plugin_id),
                        runner_id: None,
                        task_id: None,
                        code: None,
                        route: None,
                    },
            ),
        ),
    decreases plugins.len(),
{
    let p = |plugin: PluginSummaryView| plugin.status == "failed"@ || plugin.error is Some;
    let f = |plugin: PluginSummaryView|
        HostRecentErrorView {
            source: "mutsuki_tauri_host.plugin"@,
            message: if plugin.error is Some {
                plugin.error->0
            } else {
                "plugin load failed"@
            },
            timestamp_ms: now,
            plugin_id: Some(plugin.plugin_id),
            runner_id: None,
            task_id: None,
            code: None,
            route: None,
        };
    reveal(Seq::filter);
    if plugins.len() > 0 {
        let front = plugins.drop_last();
        law_plugins_in_trouble_are_remembered(v, front, now);
        let before = v.recent + front.filter(p).map_values(f);
        if p(plugins.last()) {
            lemma_newest_push(before, f(plugins.last()));
            assert(plugins.filter(p).map_values(f) =~= front.filter(p).map_values(f).push(
                f(plugins.last()),
            ));
            assert(v.recent + plugins.filter(p).map_values(f) =~= before.push(f(plugins.last())));
        }
    } else {
        assert(v.recent + plugins.filter(p).map_values(f) =~= v.recent);
    }
}

/// Of a row of runners, every one that failed or carries an error is remembered, in order, with its
/// own error or else with the words for one that did not load, and counts as failed from then on.
pub proof fn law_runners_in_trouble_are_remembered(
    v: HealthView,
    runners: Seq<RunnerSummaryView>,
    now: i64,
    id: Seq<char>,
)
    requires
        v.recent.len() <= 20,
    ensures
        runners_noted(v, runners, now).recent == newest(
            v.recent + runners.filter(
                |runner: RunnerSummaryView| runner.status == "failed"@ || runner.error is Some,
            ).map_values(
                |runner: RunnerSummaryView|
                    HostRecentErrorView {
                        source: "mutsuki_tauri_host.runner"@,
                        message: if runner.error is Some {
                            runner.error->0
                        } else {
                            "runner load failed"@
                        },
                        timestamp_ms: now,
                        plugin_id: Some(runner.plugin_id),
                        runner_id: Some(runner.runner_id),
                        task_id: None,
                        code: None,
                        route: None,
                    },
            ),
        ),
        runners_noted(v, runners, now).failures.contains_key(id) <==> v.failures.contains_key(id)
            || exists|i: int|
            0 <= i < runners.len() && (#[trigger] runners[i]).runner_id == id && (runners[i].status
                == "failed"@ || runners[i].error is Some),
    decreases runners.len(),
{
    let p = |runner: RunnerSummaryView| runner.status == "failed"@ || runner.error is Some;
    let f = |runner: RunnerSummaryView|
        HostRecentErrorView {
            source: "mutsuki_tauri_host.runner"@,
            message: if runner.error is Some {
                runner.error->0
            } else {
                "runner load failed"@
            },
            timestamp_ms: now,
            plugin_id: Some(runner.plugin_id),
            runner_id: Some(runner.runner_id),
            task_id: None,
            code: None,
            route: None,
        };
    reveal(Seq::filter);
    if runners.len() > 0 {
        let front = runners.drop_last();
        law_runners_in_trouble_are_remembered(v, front, now, id);
        let before = v.recent + front.filter(p).map_values(f);
        if p(runners.last()) {
            lemma_newest_push(before, f(runners.last()));
            assert(runners.filter(p).map_values(f) =~= front.filter(p).map_values(f).push(
                f(runners.last()),
            ));
            assert(v.recent + runners.filter(p).map_values(f) =~= before.push(f(runners.last())));
        }
        assert((exists|i: int|
            0 <= i < runners.len() && (#[trigger] runners[i]).runner_id == id && p(runners[i]))
            <==> (exists|i: int|
            0 <= i < front.len() && (#[trigger] front[i]).runner_id == id && p(front[i])) || (
        runners.last().runner_id == id && p(runners.last()))) by {
            if exists|i: int|
                0 <= i < front.len() && (#[trigger] front[i]).runner_id == id && p(front[i]) {
                let i = choose|i: int|
                    0 <= i < front.len() && (#[trigger] front[i]).runner_id == id && p(front[i]);
                assert(runners[i] == front[i]);
            }
            if exists|i: int|
                0 <= i < runners.len() && (#[trigger] runners[i]).runner_id == id && p(runners[i]) {
                let i = choose|i: int|
                    0 <= i < runners.len() && (#[trigger] runners[i]).runner_id == id && p(
                        runners[i],
                    );
                if i < front.len() {
                    assert(front[i] == runners[i]);
                }
            }
            if runners.last().runner_id == id && p(runners.last()) {
                assert(runners[runners.len() - 1].runner_id == id);
            }
        }
    } else {
        assert(v.recent + runners.filter(p).map_values(f) =~= v.recent);
    }
}

/// A runner that failed is known with what it failed with, and is remembered with that, its plugin,
/// its code and its route; what is known of the other runners stays.
pub proof fn law_failed_runner_is_known(
    v: HealthView,
    runner_id: Seq<char>,
    plugin_id: Seq<char>,
    message: Seq<char>,
    code: Option<Seq<char>>,
    route: Option<Seq<char>>,
    now: i64,
)
    requires
        v.recent.len() <= 20,
    ensures
        ({
            let w = runner_noted(v, runner_id, plugin_id, message, code, route, now);
            &&& w.failures == v.failures.insert(runner_id, message)
            &&& w.recent == newest(
                v.recent.push(
                    HostRecentErrorView {
                        source: "mutsuki_tauri_host.runner"@,
                        message,
                        timestamp_ms: now,
                        plugin_id: Some(plugin_id),
                        runner_id: Some(runner_id),
                        task_id: None,
                        code,
                        route,
                    },
                ),
            )
        }),
{
    lemma_newest_push(
        v.recent,
        HostRecentErrorView {
            source: "mutsuki_tauri_host.runner"@,
            message,
            timestamp_ms: now,
            plugin_id: Some(plugin_id),
            runner_id: Some(runner_id),
            task_id: None,
            code,
            route,
        },
    );
}

/// An error of the host names its source, its message and the time, and nothing else.
pub proof fn law_host_error_names_its_source(source: Seq<char>, message: Seq<char>, now: i64)
    ensures
        ({
            let error = host_error(source, message, now);
            &&& error.source == source
            &&& error.message == message
            &&& error.timestamp_ms == now
            &&& error.plugin_id is None && error.runner_id is None && error.task_id is None
            &&& error.code is None && error.route is None
        }),
{
}

/// Every task is in flight, went wrong, was completed or was cancelled, and only one of these.
pub proof fn law_tasks_are_counted_once(status: TaskStatus)
    ensures
        active_status(status) <==> status is Created || status is Ready || status is Running
            || status is Waiting || status is Blocked,
        failed_status(status) <==> status is Failed || status is Expired || status is DeadLetter,
        !(active_status(status) && failed_status(status)),
        !active_status(status) && !failed_status(status) <==> status is Completed
            || status is Cancelled,
{
}

/// One more line of the task table counts exactly where its task is in flight, or went wrong.
pub proof fn law_task_table_is_counted_line_by_line(
    snapshots: Seq<HostTaskSnapshot>,
    snapshot: HostTaskSnapshot,
)
    ensures
        active_snapshots(snapshots.push(snapshot)).len() == active_snapshots(snapshots).len() + if (
        snapshot.status is Created || snapshot.status is Ready || snapshot.status is Running
            || snapshot.status is Waiting || snapshot.status is Blocked) {
            1int
        } else {
            0int
        },
        failed_snapshots(snapshots.push(snapshot)).len() == failed_snapshots(snapshots).len() + if (
        snapshot.status is Failed || snapshot.status is Expired || snapshot.status is DeadLetter) {
            1int
        } else {
            0int
        },
        active_snapshots(Seq::empty()).len() == 0,
        failed_snapshots(Seq::empty()).len() == 0,
{
    let p = |snapshot: HostTaskSnapshot| active_status(snapshot.status);
    let q = |snapshot: HostTaskSnapshot| failed_status(snapshot.status);
    snapshots.lemma_filter_push(snapshot, p);
    snapshots.lemma_filter_push(snapshot, q);
    reveal(Seq::filter);
}

} // verus!
