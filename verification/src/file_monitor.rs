//! The monitor: watched set, lifecycle and the way from raw batches to events
//! in the channel.
//!
//! The monitor does no I/O. Starting it is a dialogue: the monitor says what
//! to do next ([`StartStep`]), the caller does it and reports what came of it
//! ([`StartEvent`]). Once it is watching, the caller hands it the backend's
//! batches, ticks its clock and lets it deliver.

use vstd::prelude::*;
use tokio::sync::mpsc::Receiver;
use crate::channel::{ChannelView, Delivery, EventChannel};
use crate::debounce::{
    lemma_record_all_keeps_settled, record_all, settled, window_elapsed, Debouncer, DebouncerView,
    DEBOUNCE_INTERVAL_MS,
};
use crate::event::{
    classify_batch, events_of, EventView, FileSystemEvent, RawRecord, RawRecordView,
};
use crate::watch::{
    path_unavailable, paths_of, watch_mode_of, watched_set, watched_set_of, BackendFailure,
    PathStatus, WatchError, WatchMode, WatchedPath, WatchedPathView,
};

verus! {

/// Where a monitor is in its life.
#[derive(Clone, Copy, Debug, PartialEq, Eq, Structural)]
pub enum Lifecycle {
    /// Built, not yet watching.
    Uninitialized,
    Watching,
    /// Torn down. Nothing leads out of this state.
    Stopped,
}

/// Why a monitor could not be built.
#[derive(Clone, Copy, Debug, PartialEq, Eq, Structural)]
pub enum ConstructError {
    /// The watch backend could not be set up.
    BackendInit(BackendFailure),
}

/// Why a monitor could not be started.
#[derive(Clone, Copy, Debug, PartialEq, Eq, Structural)]
pub enum StartError {
    /// The watch backend failed in a way that no other path would survive.
    BackendInit(BackendFailure),
    /// The monitor has been torn down.
    Stopped,
}

/// What the caller is to do next while a monitor starts.
#[derive(Clone, Copy, Debug, PartialEq, Eq, Structural)]
pub enum StartStep {
    /// Look what is at the watched path with this index.
    Probe(usize),
    /// Ask the backend to watch the path with this index in this mode.
    Register(usize, WatchMode),
    /// Nothing: every path has been dealt with.
    Finished,
}

/// What the caller reports back while a monitor starts.
#[derive(Clone, Copy, Debug, PartialEq, Eq)]
pub enum StartEvent {
    /// The answer to [`StartStep::Probe`].
    Probed(PathStatus),
    /// The backend's answer to [`StartStep::Register`].
    Answered(Result<(), BackendFailure>),
}

/// What became of a batch handed to the monitor.
#[derive(Clone, Copy, Debug, PartialEq, Eq, Structural)]
pub enum BatchOutcome {
    /// The records were taken into the window, but for `ignored` of them that
    /// named no path.
    Buffered { accepted: usize, ignored: usize },
    /// The backend reported an error in place of records. Nothing changed.
    BackendCallbackError(BackendFailure),
    /// The monitor has been torn down. Nothing changed.
    Stopped,
}

/// How many of `records` name no path.
pub open spec fn pathless(records: Seq<RawRecordView>) -> nat
    decreases records.len(),
{
    if records.len() == 0 {
        0
    } else if records.last().paths.len() == 0 {
        pathless(records.drop_last()) + 1
    } else {
        pathless(records.drop_last())
    }
}

/// How many entries of `flags` are set.
pub open spec fn count_set(flags: Seq<bool>) -> nat
    decreases flags.len(),
{
    if flags.len() == 0 {
        0
    } else if flags.last() {
        count_set(flags.drop_last()) + 1
    } else {
        count_set(flags.drop_last())
    }
}

/// Mathematical model of a [`FileMonitor`].
pub struct MonitorView {
    pub state: Lifecycle,
    /// The watched set, in the order of the configured paths.
    pub watched: Seq<WatchedPathView>,
    /// For each watched path, whether the backend watches it.
    pub registered: Seq<bool>,
    /// The paths before this index have been dealt with.
    pub cursor: usize,
    /// The path at the cursor has been probed and the backend's answer is
    /// awaited.
    pub awaiting: bool,
    pub debouncer: DebouncerView,
    pub channel: ChannelView,
}

impl MonitorView {
    /// The invariant of a monitor.
    pub open spec fn wf(self) -> bool {
        &&& self.registered.len() == self.watched.len()
        &&& self.watched.len() <= usize::MAX
        &&& self.cursor <= self.watched.len()
        &&& paths_of(self.watched).no_duplicates()
        &&& forall|i: int| self.cursor <= i < self.registered.len() ==> !self.registered[i]
        &&& self.awaiting ==> self.state == Lifecycle::Uninitialized && self.cursor
            < self.watched.len()
        &&& self.state == Lifecycle::Watching ==> self.cursor == self.watched.len()
        &&& self.state == Lifecycle::Stopped <==> !self.channel.open
        &&& !self.channel.open ==> self.channel.outbox.len() == 0
        &&& self.state == Lifecycle::Stopped ==> self.debouncer.buffer.len() == 0
        &&& settled(self.debouncer.buffer)
    }

    /// A monitor fresh from construction at time `now` for the configured
    /// `paths`.
    pub open spec fn initial(paths: Seq<Seq<char>>, now: u64) -> MonitorView {
        MonitorView {
            state: Lifecycle::Uninitialized,
            watched: watched_set_of(paths),
            registered: Seq::new(watched_set_of(paths).len(), |i: int| false),
            cursor: 0,
            awaiting: false,
            debouncer: DebouncerView {
                interval: DEBOUNCE_INTERVAL_MS,
                window_start: now,
                buffer: Seq::empty(),
            },
            channel: ChannelView { open: true, outbox: Seq::empty() },
        }
    }

    /// What the caller is to do next.
    pub open spec fn step(self) -> StartStep {
        if self.state != Lifecycle::Uninitialized || self.cursor >= self.watched.len() {
            StartStep::Finished
        } else if self.awaiting {
            StartStep::Register(self.cursor, self.watched[self.cursor as int].mode)
        } else {
            StartStep::Probe(self.cursor)
        }
    }

    /// The monitor after `start` was called: with no path left to deal with,
    /// an uninitialized monitor is watching.
    pub open spec fn started(self) -> MonitorView {
        if self.state == Lifecycle::Uninitialized && self.cursor >= self.watched.len() {
            MonitorView { state: Lifecycle::Watching, ..self }
        } else {
            self
        }
    }

    /// The monitor after the path at the cursor was dealt with. With the last
    /// path the monitor is watching, whether or not any path was registered.
    pub open spec fn decided(self, registered: bool) -> MonitorView {
        MonitorView {
            registered: self.registered.update(self.cursor as int, registered),
            cursor: (self.cursor + 1) as usize,
            awaiting: false,
            state: if self.cursor + 1 == self.watched.len() {
                Lifecycle::Watching
            } else {
                self.state
            },
            ..self
        }
    }

    /// The monitor after teardown: stopped, sender dropped, nothing buffered.
    pub open spec fn torn_down(self) -> MonitorView {
        MonitorView {
            state: Lifecycle::Stopped,
            awaiting: false,
            debouncer: DebouncerView { buffer: Seq::empty(), ..self.debouncer },
            channel: ChannelView { open: false, outbox: Seq::empty() },
            ..self
        }
    }

    /// The monitor after the caller reported `event`. An event that does not
    /// answer the current step changes nothing.
    pub open spec fn advanced(self, event: StartEvent) -> MonitorView {
        match (self.step(), event) {
            (StartStep::Probe(i), StartEvent::Probed(status)) => match watch_mode_of(status) {
                None => self.decided(false),
                Some(mode) => MonitorView {
                    watched: self.watched.update(
                        i as int,
                        WatchedPathView { path: self.watched[i as int].path, mode },
                    ),
                    awaiting: true,
                    ..self
                },
            },
            (StartStep::Register(_, _), StartEvent::Answered(Ok(()))) => self.decided(true),
            (StartStep::Register(_, _), StartEvent::Answered(Err(failure))) => if path_unavailable(
                failure,
            ) {
                self.decided(false)
            } else {
                self.torn_down()
            },
            _ => self,
        }
    }

    /// The error with which `event` ends the start, if it does.
    pub open spec fn start_failure(self, event: StartEvent) -> Option<StartError> {
        if self.state == Lifecycle::Stopped {
            Some(StartError::Stopped)
        } else {
            match (self.step(), event) {
                (StartStep::Register(_, _), StartEvent::Answered(Err(failure))) => if path_unavailable(
                    failure,
                ) {
                    None
                } else {
                    Some(StartError::BackendInit(failure))
                },
                _ => None,
            }
        }
    }

    /// The monitor after a batch from the backend: unless it is stopped, the
    /// records of a good batch are taken into the window one by one.
    pub open spec fn absorbed(self, batch: Result<Seq<RawRecordView>, BackendFailure>) -> MonitorView {
        match batch {
            Ok(records) if self.state != Lifecycle::Stopped => MonitorView {
                debouncer: DebouncerView {
                    buffer: record_all(self.debouncer.buffer, records),
                    ..self.debouncer
                },
                ..self
            },
            _ => self,
        }
    }

    /// Whether a tick at `now` flushes the window: the monitor is watching,
    /// the window is over, and no earlier event still waits for the channel.
    pub open spec fn flush_due(self, now: u64) -> bool {
        &&& self.state == Lifecycle::Watching
        &&& self.channel.outbox.len() == 0
        &&& window_elapsed(self.debouncer.window_start, self.debouncer.interval, now)
    }

    /// The monitor after a tick at `now`.
    pub open spec fn ticked(self, now: u64) -> MonitorView {
        if self.flush_due(now) {
            MonitorView {
                debouncer: DebouncerView {
                    window_start: now,
                    buffer: Seq::empty(),
                    ..self.debouncer
                },
                channel: ChannelView {
                    outbox: events_of(self.debouncer.buffer),
                    ..self.channel
                },
                ..self
            }
        } else {
            self
        }
    }

    /// Whether `event` reports the creation of a watched root itself: such an
    /// event may stem from attaching the watch, not from a change below it.
    pub open spec fn is_root_creation(self, event: EventView) -> bool {
        exists|i: int|
            0 <= i < self.watched.len() && self.registered[i] && event == EventView::Created(
                (#[trigger] self.watched[i]).path,
            )
    }

    /// The monitor after the channel took or swallowed the `count` oldest
    /// waiting events.
    pub open spec fn delivered(self, count: int) -> MonitorView {
        MonitorView {
            channel: ChannelView { outbox: self.channel.outbox.skip(count), ..self.channel },
            ..self
        }
    }
}

/// Owns the watched set, the debounce buffer and the sending side of the
/// event channel.
pub struct FileMonitor {
    state: Lifecycle,
    watched: Vec<WatchedPath>,
    registered: Vec<bool>,
    cursor: usize,
    awaiting: bool,
    debouncer: Debouncer,
    channel: EventChannel,
}

impl View for FileMonitor {
    type V = MonitorView;

    closed spec fn view(&self) -> MonitorView {
        MonitorView {
            state: self.state,
            watched: self.watched.deep_view(),
            registered: self.registered@,
            cursor: self.cursor,
            awaiting: self.awaiting,
            debouncer: self.debouncer@,
            channel: self.channel@,
        }
    }
}

impl FileMonitor {
    /// What holds of every monitor.
    #[verifier::type_invariant]
    spec fn inv(self) -> bool {
        self@.wf()
    }

    /// A stopped monitor that watches nothing. It stands in for a monitor
    /// while that one is being changed.
    fn hollow() -> (monitor: FileMonitor)
        ensures
            monitor@.state == Lifecycle::Stopped,
    {
        FileMonitor {
            state: Lifecycle::Stopped,
            watched: Vec::new(),
            registered: Vec::new(),
            cursor: 0,
            awaiting: false,
            debouncer: Debouncer::new(DEBOUNCE_INTERVAL_MS, 0),
            channel: EventChannel::closed(),
        }
    }

    /// Takes the monitor out of `self` and leaves a hollow one behind, so that
    /// its parts can be changed one after the other and put back as a whole.
    fn take(&mut self) -> (taken: FileMonitor)
        ensures
            taken@ == old(self)@,
    {
        let mut taken = FileMonitor::hollow();
        std::mem::swap(&mut taken, self);
        taken
    }

    /// Builds a monitor for the configured `paths`, with a debounce window
    /// that starts at `now_ms`, and returns it with the receiver of its
    /// events. `backend` says how setting up the watch backend went: the
    /// monitor cannot be built without one. Paths that do not exist are no
    /// reason to fail.
    pub fn new(paths: Vec<String>, now_ms: u64, backend: Result<(), BackendFailure>) -> (built: Result<
        (FileMonitor, Receiver<FileSystemEvent>),
        ConstructError,
    >)
        ensures
            match backend {
                Ok(()) => built matches Ok(pair) && pair.0@.wf() && pair.0@ == MonitorView::initial(
                    paths.deep_view(),
                    now_ms,
                ),
                Err(failure) => built matches Err(e) && e == ConstructError::BackendInit(failure),
            },
    {
        match backend {
            Err(failure) => Err(ConstructError::BackendInit(failure)),
            Ok(()) => {
                let watched = watched_set(paths);
                let mut registered: Vec<bool> = Vec::new();
                let mut i: usize = 0;
                while i < watched.len()
                    invariant
                        0 <= i <= watched.len(),
                        registered@ == Seq::new(i as nat, |k: int| false),
                    decreases watched.len() - i,
                {
                    registered.push(false);
                    i += 1;
                }
                let debouncer = Debouncer::new(DEBOUNCE_INTERVAL_MS, now_ms);
                let (channel, receiver) = EventChannel::open();
                let monitor = FileMonitor {
                    state: Lifecycle::Uninitialized,
                    watched,
                    registered,
                    cursor: 0,
                    awaiting: false,
                    debouncer,
                    channel,
                };
                Ok((monitor, receiver))
            },
        }
    }

    /// The state of the lifecycle.
    pub fn state(&self) -> (state: Lifecycle)
        ensures
            state == self@.state,
            self@.wf(),
    {
        proof {
            use_type_invariant(self);
        }
        self.state
    }

    /// The watched set.
    pub fn watched(&self) -> (watched: &Vec<WatchedPath>)
        ensures
            watched.deep_view() == self@.watched,
            paths_of(self@.watched).no_duplicates(),
    {
        proof {
            use_type_invariant(self);
        }
        &self.watched
    }

    /// Whether the backend watches the path with this index.
    pub fn is_registered(&self, index: usize) -> (registered: bool)
        ensures
            registered == (index < self@.registered.len() && self@.registered[index as int]),
    {
        index < self.registered.len() && self.registered[index]
    }

    /// Number of watched paths that the backend watches. A monitor may be
    /// watching with none.
    pub fn registered_count(&self) -> (n: usize)
        ensures
            n == count_set(self@.registered),
    {
        let mut n: usize = 0;
        let mut i: usize = 0;
        while i < self.registered.len()
            invariant
                0 <= i <= self.registered.len(),
                n == count_set(self.registered@.take(i as int)),
                n <= i,
            decreases self.registered.len() - i,
        {
            assert(self.registered@.take(i + 1).drop_last() =~= self.registered@.take(i as int));
            if self.registered[i] {
                n = n + 1;
            }
            i += 1;
        }
        assert(self.registered@.take(i as int) =~= self.registered@);
        n
    }

    /// Whether `event` reports the creation of a registered root itself. A
    /// consumer that wants a clean baseline discards the first such event for
    /// each root; the monitor itself lets them through.
    pub fn is_root_creation(&self, event: &FileSystemEvent) -> (noise: bool)
        ensures
            noise == self@.is_root_creation(event.deep_view()),
    {
        proof {
            use_type_invariant(self);
        }
        match event {
            FileSystemEvent::Created(path) => {
                let mut i: usize = 0;
                while i < self.watched.len()
                    invariant
                        0 <= i <= self.watched.len(),
                        self@.wf(),
                        event.deep_view() == EventView::Created(path@),
                        forall|k: int|
                            0 <= k < i ==> !(self@.registered[k] && path@ == (
                            #[trigger] self@.watched[k]).path),
                    decreases self.watched.len() - i,
                {
                    assert(self.watched.deep_view()[i as int].path == self.watched@[i as int].path@);
                    if self.registered[i] && self.watched[i].path == *path {
                        return true;
                    }
                    i += 1;
                }
                false
            },
            _ => false,
        }
    }

    /// What the caller is to do next to start the monitor.
    pub fn step(&self) -> (step: StartStep)
        ensures
            step == self@.step(),
    {
        match self.state {
            Lifecycle::Uninitialized => {
                if self.cursor >= self.watched.len() {
                    StartStep::Finished
                } else if self.awaiting {
                    StartStep::Register(self.cursor, self.watched[self.cursor].mode)
                } else {
                    StartStep::Probe(self.cursor)
                }
            },
            _ => StartStep::Finished,
        }
    }

    /// Begins to start the monitor, or goes on with it, and says what to do
    /// next. A monitor with nothing left to register is watching at once; one
    /// that has been torn down cannot be started.
    pub fn start(&mut self) -> (next: Result<StartStep, StartError>)
        ensures
            final(self)@.wf(),
            final(self)@ == old(self)@.started(),
            next == if old(self)@.state == Lifecycle::Stopped {
                Err::<StartStep, StartError>(StartError::Stopped)
            } else {
                Ok(final(self)@.step())
            },
    {
        proof {
            use_type_invariant(&*self);
        }
        match self.state {
            Lifecycle::Stopped => Err(StartError::Stopped),
            Lifecycle::Watching => Ok(StartStep::Finished),
            Lifecycle::Uninitialized => {
                if self.cursor >= self.watched.len() {
                    self.state = Lifecycle::Watching;
                }
                Ok(self.step())
            },
        }
    }

    /// Takes the caller's report on the current step and says what to do
    /// next. A path that is missing, that is neither file nor directory, or
    /// that the backend cannot reach is passed over; the start goes on with
    /// the next path. Only a failure of the backend itself ends the start,
    /// and with it the monitor.
    pub fn advance(&mut self, event: StartEvent) -> (next: Result<StartStep, StartError>)
        ensures
            final(self)@.wf(),
            final(self)@ == old(self)@.advanced(event),
            next == match old(self)@.start_failure(event) {
                Some(error) => Err::<StartStep, StartError>(error),
                None => Ok(final(self)@.step()),
            },
    {
        proof {
            use_type_invariant(&*self);
        }
        let step = self.step();
        // A report that does not answer the step changes nothing, and a
        // monitor that is not starting asks for no report.
        let decision: Option<bool> = match (step, event) {
            (StartStep::Probe(_), StartEvent::Probed(status)) => {
                match WatchMode::for_status(status) {
                    None => Some(false),
                    Some(mode) => {
                        self.mark_probed(mode);
                        None
                    },
                }
            },
            (StartStep::Register(_, _), StartEvent::Answered(Ok(()))) => Some(true),
            (StartStep::Register(_, _), StartEvent::Answered(Err(failure))) => {
                match WatchError::from_failure(failure) {
                    WatchError::PathUnavailable => Some(false),
                    WatchError::BackendInit => {
                        self.stop();
                        return Err(StartError::BackendInit(failure));
                    },
                }
            },
            _ => None,
        };
        match decision {
            Some(registered) => self.decide(registered),
            None => {},
        }
        proof {
            use_type_invariant(&*self);
        }
        match self.state {
            Lifecycle::Stopped => Err(StartError::Stopped),
            _ => Ok(self.step()),
        }
    }

    /// Notes the mode in which the path at the cursor is to be registered.
    fn mark_probed(&mut self, mode: WatchMode)
        requires
            old(self)@.state == Lifecycle::Uninitialized,
            old(self)@.cursor < old(self)@.watched.len(),
            !old(self)@.awaiting,
        ensures
            final(self)@ == (MonitorView {
                watched: old(self)@.watched.update(
                    old(self)@.cursor as int,
                    WatchedPathView {
                        path: old(self)@.watched[old(self)@.cursor as int].path,
                        mode,
                    },
                ),
                awaiting: true,
                ..old(self)@
            }),
    {
        proof {
            use_type_invariant(&*self);
        }
        let FileMonitor {
            state,
            mut watched,
            registered,
            cursor,
            awaiting: _,
            debouncer,
            channel,
        } = self.take();
        let ghost before = watched.deep_view();
        watched[cursor].mode = mode;
        assert(watched.deep_view() =~= before.update(
            cursor as int,
            WatchedPathView { path: before[cursor as int].path, mode },
        ));
        assert(paths_of(watched.deep_view()) =~= paths_of(before));
        *self = FileMonitor { state, watched, registered, cursor, awaiting: true, debouncer, channel };
    }

    /// Marks the path at the cursor as dealt with.
    fn decide(&mut self, registered_now: bool)
        requires
            old(self)@.state == Lifecycle::Uninitialized,
            old(self)@.cursor < old(self)@.watched.len(),
        ensures
            final(self)@ == old(self)@.decided(registered_now),
    {
        proof {
            use_type_invariant(&*self);
        }
        let FileMonitor {
            state,
            watched,
            mut registered,
            cursor,
            awaiting: _,
            debouncer,
            channel,
        } = self.take();
        registered.set(cursor, registered_now);
        let cursor = cursor + 1;
        let state = if cursor == watched.len() {
            Lifecycle::Watching
        } else {
            state
        };
        *self = FileMonitor { state, watched, registered, cursor, awaiting: false, debouncer, channel };
    }

    /// Takes one batch from the backend. A batch of records goes into the
    /// debounce window, record by record; an error in its place changes
    /// nothing, and neither does any batch once the monitor is stopped.
    pub fn on_batch(&mut self, batch: Result<Vec<RawRecord>, BackendFailure>) -> (outcome:
        BatchOutcome)
        ensures
            final(self)@.wf(),
            final(self)@ == old(self)@.absorbed(
                match batch {
                    Ok(records) => Ok(records.deep_view()),
                    Err(failure) => Err(failure),
                },
            ),
            outcome == match batch {
                _ if old(self)@.state == Lifecycle::Stopped => BatchOutcome::Stopped,
                Err(failure) => BatchOutcome::BackendCallbackError(failure),
                Ok(records) => BatchOutcome::Buffered {
                    accepted: (records.len() - pathless(records.deep_view())) as usize,
                    ignored: pathless(records.deep_view()) as usize,
                },
            },
    {
        proof {
            use_type_invariant(&*self);
        }
        match self.state {
            Lifecycle::Stopped => {
                return BatchOutcome::Stopped;
            },
            _ => {},
        }
        match batch {
            Err(failure) => BatchOutcome::BackendCallbackError(failure),
            Ok(records) => {
                let ghost all = records.deep_view();
                let ghost items = records@;
                let ghost start = self@;
                let FileMonitor {
                    state,
                    watched,
                    registered,
                    cursor,
                    awaiting,
                    mut debouncer,
                    channel,
                } = self.take();
                let total = records.len();
                let mut accepted: usize = 0;
                let mut ignored: usize = 0;
                for record in it: records.into_iter()
                    invariant
                        it.seq() == items,
                        items.len() == total,
                        all == Seq::new(items.len(), |i: int| items[i].deep_view()),
                        settled(start.debouncer.buffer),
                        debouncer@ == (DebouncerView {
                            buffer: record_all(
                                start.debouncer.buffer,
                                all.take(it.index() as int),
                            ),
                            ..start.debouncer
                        }),
                        ignored == pathless(all.take(it.index() as int)),
                        accepted + ignored == it.index(),
                {
                    let ghost done = all.take(it.index() as int);
                    let ghost next = all.take(it.index() + 1);
                    assert(next.drop_last() =~= done);
                    if debouncer.record(record) {
                        accepted = accepted + 1;
                    } else {
                        ignored = ignored + 1;
                    }
                }
                proof {
                    assert(all.take(all.len() as int) =~= all);
                    lemma_record_all_keeps_settled(start.debouncer.buffer, all);
                }
                *self = FileMonitor {
                    state,
                    watched,
                    registered,
                    cursor,
                    awaiting,
                    debouncer,
                    channel,
                };
                BatchOutcome::Buffered { accepted, ignored }
            },
        }
    }

    /// One tick of the clock at `now_ms`. If the monitor is watching, the
    /// debounce window is over and nothing waits for the channel, the window
    /// is flushed: its settled records become events, in their order, and
    /// wait for delivery. Returns how many events that made. While events
    /// still wait, the window is held back and goes on coalescing.
    pub fn tick(&mut self, now_ms: u64) -> (enqueued: usize)
        ensures
            final(self)@.wf(),
            final(self)@ == old(self)@.ticked(now_ms),
            enqueued == if old(self)@.flush_due(now_ms) {
                events_of(old(self)@.debouncer.buffer).len()
            } else {
                0
            },
    {
        proof {
            use_type_invariant(&*self);
        }
        match self.state {
            Lifecycle::Watching => {},
            _ => {
                return 0;
            },
        }
        if self.channel.pending() > 0 || !self.debouncer.is_due(now_ms) {
            return 0;
        }
        let FileMonitor {
            state,
            watched,
            registered,
            cursor,
            awaiting,
            mut debouncer,
            mut channel,
        } = self.take();
        let ghost buffered = debouncer@.buffer;
        let enqueued = match debouncer.tick(now_ms) {
            None => 0,
            Some(batch) => {
                let events = classify_batch(batch);
                let enqueued = events.len();
                channel.enqueue(events);
                enqueued
            },
        };
        assert(channel@.outbox =~= events_of(buffered));
        *self = FileMonitor { state, watched, registered, cursor, awaiting, debouncer, channel };
        enqueued
    }

    /// Offers the waiting events to the channel, oldest first, until none is
    /// left or the channel is full. An event offered to a channel whose
    /// receiver is gone is dropped and counted.
    pub fn deliver(&mut self) -> (report: Delivery)
        ensures
            final(self)@.wf(),
            report.sent + report.dropped <= old(self)@.channel.outbox.len(),
            final(self)@ == old(self)@.delivered(report.sent + report.dropped),
            report.stalled == (final(self)@.channel.outbox.len() > 0),
    {
        proof {
            use_type_invariant(&*self);
        }
        let FileMonitor {
            state,
            watched,
            registered,
            cursor,
            awaiting,
            debouncer,
            mut channel,
        } = self.take();
        let report = channel.deliver();
        *self = FileMonitor { state, watched, registered, cursor, awaiting, debouncer, channel };
        report
    }

    /// Number of settled records in the current window.
    pub fn pending_records(&self) -> (n: usize)
        ensures
            n == self@.debouncer.buffer.len(),
    {
        self.debouncer.pending()
    }

    /// Number of events that wait for the channel.
    pub fn pending_events(&self) -> (n: usize)
        ensures
            n == self@.channel.outbox.len(),
    {
        self.channel.pending()
    }

    /// Tears the monitor down: it stops, drops the sender of the channel and
    /// forgets what it had buffered.
    pub fn stop(&mut self)
        ensures
            final(self)@.wf(),
            final(self)@ == old(self)@.torn_down(),
    {
        proof {
            use_type_invariant(&*self);
        }
        let FileMonitor {
            state: _,
            watched,
            registered,
            cursor,
            awaiting: _,
            mut debouncer,
            mut channel,
        } = self.take();
        let _ = debouncer.flush();
        channel.close();
        *self = FileMonitor {
            state: Lifecycle::Stopped,
            watched,
            registered,
            cursor,
            awaiting: false,
            debouncer,
            channel,
        };
    }
}

} // verus!
