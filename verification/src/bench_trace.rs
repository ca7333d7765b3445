//! Trace events: what is recorded of each, and when none is.

use crate::text::copied;
use vstd::prelude::*;

verus! {

/// Where trace events go. A sink that is disabled takes none.
pub struct TraceSink {
    pub enabled: bool,
    pub run_id: Option<String>,
    pub trial_id: Option<String>,
    pub phrase_id: Option<String>,
}

/// When and where an event happened.
pub struct Moment {
    pub monotonic_ns: u128,
    pub wall_time_unix_ms: u128,
    pub pid: u32,
    pub thread_id: String,
}

/// What is recorded of an event.
pub struct TraceEvent<E> {
    pub schema: &'static str,
    pub event: &'static str,
    pub monotonic_ns: u128,
    pub wall_time_unix_ms: u128,
    pub run_id: Option<String>,
    pub trial_id: Option<String>,
    pub phrase_id: Option<String>,
    pub pid: u32,
    pub thread_id: String,
    pub extra: Option<E>,
}

impl<E> TraceEvent<E> {
    /// What is recorded of an event of a sink at a moment.
    pub open spec fn records(
        self,
        sink: TraceSink,
        event: &'static str,
        moment: Moment,
        extra: Option<E>,
    ) -> bool {
        &&& self.schema@ == "chezwizper-bench-event-v1"@
        &&& self.event == event
        &&& self.monotonic_ns == moment.monotonic_ns
        &&& self.wall_time_unix_ms == moment.wall_time_unix_ms
        &&& self.run_id == sink.run_id
        &&& self.trial_id == sink.trial_id
        &&& self.phrase_id == sink.phrase_id
        &&& self.pid == moment.pid
        &&& self.thread_id == moment.thread_id
        &&& self.extra == extra
    }
}

impl TraceSink {
    pub fn new(
        run_id: Option<String>,
        trial_id: Option<String>,
        phrase_id: Option<String>,
    ) -> (r: Self)
        ensures
            r == (TraceSink { enabled: true, run_id, trial_id, phrase_id }),
    {
        TraceSink { enabled: true, run_id, trial_id, phrase_id }
    }

    pub fn disabled() -> (r: Self)
        ensures
            r == (TraceSink { enabled: false, run_id: None, trial_id: None, phrase_id: None }),
    {
        TraceSink { enabled: false, run_id: None, trial_id: None, phrase_id: None }
    }

    pub fn is_enabled(&self) -> (r: bool)
        ensures
            r == self.enabled,
    {
        self.enabled
    }

    /// What is recorded of an event: nothing where the sink is disabled.
    pub fn event_with_extra<E>(
        &self,
        event: &'static str,
        moment: Moment,
        extra: Option<E>,
    ) -> (r: Option<TraceEvent<E>>)
        ensures
            r is Some == self.enabled,
            r matches Some(row) ==> row.records(*self, event, moment, extra),
    {
        if !self.enabled {
            return None;
        }
        Some(
            TraceEvent {
                schema: "chezwizper-bench-event-v1",
                event,
                monotonic_ns: moment.monotonic_ns,
                wall_time_unix_ms: moment.wall_time_unix_ms,
                run_id: copied(&self.run_id),
                trial_id: copied(&self.trial_id),
                phrase_id: copied(&self.phrase_id),
                pid: moment.pid,
                thread_id: moment.thread_id,
                extra,
            },
        )
    }

    /// What is recorded of an event that has nothing to add.
    pub fn event(&self, event: &'static str, moment: Moment) -> (r: Option<TraceEvent<()>>)
        ensures
            r is Some == self.enabled,
            r matches Some(row) ==> row.records(*self, event, moment, None),
    {
        self.event_with_extra(event, moment, None)
    }
}

/// What is recorded of an event that has nothing to add.
pub fn event(sink: &TraceSink, name: &'static str, moment: Moment) -> (r: Option<TraceEvent<()>>)
    ensures
        r is Some == sink.enabled,
        r matches Some(row) ==> row.records(*sink, name, moment, None),
{
    sink.event(name, moment)
}

/// What is recorded of an event, with what a function has to add to it. The function is only called
/// where the sink is enabled.
pub fn event_with_extra<E, F: FnOnce() -> E>(
    sink: &TraceSink,
    name: &'static str,
    moment: Moment,
    extra: F,
) -> (r: Option<TraceEvent<E>>)
    requires
        sink.enabled ==> call_requires(extra, ()),
    ensures
        r is Some == sink.enabled,
        r matches Some(row) ==> exists|e: E| #[trigger]
            call_ensures(extra, (), e) && row.records(*sink, name, moment, Some(e)),
{
    if sink.is_enabled() {
        sink.event_with_extra(name, moment, Some(extra()))
    } else {
        None
    }
}

/// Where trace events go: to a new sink where its file could be opened, else nowhere.
pub fn sink_for(
    opened: bool,
    run_id: Option<String>,
    trial_id: Option<String>,
    phrase_id: Option<String>,
) -> (r: TraceSink)
    ensures
        r.enabled == opened,
        opened ==> r == (TraceSink { enabled: true, run_id, trial_id, phrase_id }),
        !opened ==> r == (TraceSink {
            enabled: false,
            run_id: None,
            trial_id: None,
            phrase_id: None,
        }),
{
    if opened {
        TraceSink::new(run_id, trial_id, phrase_id)
    } else {
        TraceSink::disabled()
    }
}

/// Law: a row tells the schema, the event, when and where it happened, whose run it belongs to, and
/// what was added.
pub proof fn law_rows_are_complete<E>(
    row: TraceEvent<E>,
    sink: TraceSink,
    event: &'static str,
    moment: Moment,
    extra: Option<E>,
)
    requires
        row.records(sink, event, moment, extra),
    ensures
        row.schema@ == "chezwizper-bench-event-v1"@,
        row.event@ == event@,
        row.monotonic_ns == moment.monotonic_ns && row.wall_time_unix_ms
            == moment.wall_time_unix_ms,
        row.pid == moment.pid && row.thread_id == moment.thread_id,
        row.run_id == sink.run_id && row.trial_id == sink.trial_id && row.phrase_id
            == sink.phrase_id,
        row.extra == extra,
{
}

} // verus!
