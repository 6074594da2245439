//! What the monitor guarantees, from raw records to the outbox.
//!
//! The theorems here are stated over the models that the contracts of
//! [`crate::file_monitor::FileMonitor`] use, so each of them speaks of what
//! the executable monitor does.

use vstd::prelude::*;
use crate::debounce::{
    first_match, lemma_last_match, lemma_last_record_wins, lemma_record_all_in_turn,
    lemma_record_all_keeps_settled, lemma_settled_records_are_raw, settle, window_elapsed,
};
use crate::event::{
    change_event, classify_spec, events_of, lemma_events_one_for_one, EventView, KindClass,
    RawRecordView,
};
use crate::file_monitor::{Lifecycle, MonitorView, StartEvent, StartStep};
use crate::watch::{path_unavailable, paths_of, watch_mode_of, BackendFailure, PathStatus};

verus! {

/// `x` stands in `s` at exactly one place.
pub open spec fn occurs_once<A>(s: Seq<A>, x: A) -> bool {
    exists|i: int|
        0 <= i < s.len() && #[trigger] s[i] == x && forall|k: int|
            0 <= k < s.len() && #[trigger] s[k] == x ==> k == i
}

/// Some record of the window reports a change of class `class` to `path`.
pub open spec fn has_change(window: Seq<RawRecordView>, class: KindClass, path: Seq<char>) -> bool {
    exists|j: int|
        0 <= j < window.len() && (#[trigger] window[j]).paths.len() > 0 && window[j].paths[0]
            == path && window[j].kind.class() == class
}

/// The events of successive windows, in the order in which they reach the
/// outbox.
pub open spec fn emitted(windows: Seq<Seq<RawRecordView>>) -> Seq<EventView>
    decreases windows.len(),
{
    if windows.len() == 0 {
        Seq::empty()
    } else {
        emitted(windows.drop_last()) + events_of(settle(windows.last()))
    }
}

/// Detection and coalescing. However many raw records of one window report
/// the creation, the modification or the removal of a path, and whatever else
/// the window holds, its flush yields the matching event for that path
/// exactly once.
pub proof fn theorem_one_event_per_change(
    window: Seq<RawRecordView>,
    class: KindClass,
    path: Seq<char>,
)
    requires
        has_change(window, class, path),
        change_event(class, path) is Some,
    ensures
        occurs_once(events_of(settle(window)), change_event(class, path).unwrap()),
{
    let j = choose|j: int|
        0 <= j < window.len() && (#[trigger] window[j]).paths.len() > 0 && window[j].paths[0]
            == path && window[j].kind.class() == class;
    let r = window[j];
    let s = settle(window);
    let ev = events_of(s);
    let wanted = change_event(class, path).unwrap();
    let empty = Seq::<RawRecordView>::empty();
    lemma_record_all_keeps_settled(empty, window);
    lemma_events_one_for_one(s);
    lemma_last_match(window, r);
    lemma_last_record_wins(empty, window, r);
    let i = first_match(s, r, 0);
    assert(Some(ev[i]) == classify_spec(s[i].kind, s[i].paths));
    // Any other record that gave this event would share the key of the one
    // at `i`, and a settled window holds no key twice.
    assert(forall|k: int| 0 <= k < ev.len() && #[trigger] ev[k] == wanted ==> k == i);
}

/// Silence. A window in which no raw record names `path` yields no event that
/// names it: once a path has been removed and its removal flushed, later
/// windows say nothing of it until the backend reports it again, and a path
/// that the backend never reports is never heard of.
pub proof fn theorem_no_event_without_record(window: Seq<RawRecordView>, path: Seq<char>)
    requires
        forall|j: int| 0 <= j < window.len() ==> !(#[trigger] window[j]).paths.contains(path),
    ensures
        forall|i: int|
            0 <= i < events_of(settle(window)).len() ==> !(#[trigger] events_of(
                settle(window),
            )[i]).mentions(path),
{
    let s = settle(window);
    let ev = events_of(s);
    let empty = Seq::<RawRecordView>::empty();
    lemma_record_all_keeps_settled(empty, window);
    lemma_events_one_for_one(s);
    assert forall|i: int| 0 <= i < ev.len() implies !(#[trigger] ev[i]).mentions(path) by {
        lemma_settled_records_are_raw(empty, window, i);
    }
}

/// Every transition of the model keeps the invariant of a monitor.
pub proof fn lemma_transitions_keep_wf(m: MonitorView)
    requires
        m.wf(),
    ensures
        m.started().wf(),
        m.torn_down().wf(),
        forall|event: StartEvent| (#[trigger] m.advanced(event)).wf(),
        forall|batch: Result<Seq<RawRecordView>, BackendFailure>| (#[trigger] m.absorbed(batch)).wf(),
        forall|now: u64| (#[trigger] m.ticked(now)).wf(),
        forall|count: int| 0 <= count <= m.channel.outbox.len() ==> (#[trigger] m.delivered(count)).wf(),
{
    assert forall|event: StartEvent| (#[trigger] m.advanced(event)).wf() by {
        let n = m.advanced(event);
        assert(paths_of(n.watched) =~= paths_of(m.watched));
    }
    assert forall|batch: Result<Seq<RawRecordView>, BackendFailure>| (#[trigger] m.absorbed(
        batch,
    )).wf() by {
        match batch {
            Ok(records) => {
                lemma_record_all_keeps_settled(m.debouncer.buffer, records);
            },
            Err(_) => {},
        }
    }
}

/// Latency. Let a watching monitor whose channel keeps up hold, at time `at`
/// within its current window, the settled records of that window. Then any
/// tick at or after `at` plus the debounce interval flushes them: all of
/// them become events and wait for the channel, in their order.
pub proof fn theorem_flushed_when_window_is_over(m: MonitorView, at: u64, now: u64)
    requires
        m.wf(),
        m.state == Lifecycle::Watching,
        m.channel.outbox.len() == 0,
        m.debouncer.window_start <= at,
        at + m.debouncer.interval <= now,
    ensures
        m.flush_due(now),
        m.ticked(now).channel.outbox == events_of(m.debouncer.buffer),
        m.ticked(now).debouncer.buffer.len() == 0,
        events_of(m.debouncer.buffer).len() == m.debouncer.buffer.len(),
{
    lemma_events_one_for_one(m.debouncer.buffer);
}

/// From batches to the outbox. A watching monitor with an empty window and an
/// empty outbox that takes the batches `first` and then `second` and is then
/// ticked when the window is over holds in its outbox exactly the events of
/// the window made of both, coalesced.
pub proof fn theorem_window_reaches_outbox(
    m: MonitorView,
    first: Seq<RawRecordView>,
    second: Seq<RawRecordView>,
    now: u64,
)
    requires
        m.wf(),
        m.state == Lifecycle::Watching,
        m.channel.outbox.len() == 0,
        m.debouncer.buffer.len() == 0,
        window_elapsed(m.debouncer.window_start, m.debouncer.interval, now),
    ensures
        m.absorbed(Ok(first)).absorbed(Ok(second)).ticked(now).channel.outbox == events_of(
            settle(first + second),
        ),
{
    assert(m.debouncer.buffer =~= Seq::empty());
    lemma_record_all_in_turn(m.debouncer.buffer, first, second);
}

/// The monitor after one window: it takes the raw records of the window,
/// is ticked at `now`, and the channel takes, or swallows, all that then
/// waits.
pub open spec fn after_window(m: MonitorView, window: Seq<RawRecordView>, now: u64) -> MonitorView {
    let ticked = m.absorbed(Ok(window)).ticked(now);
    ticked.delivered(ticked.channel.outbox.len() as int)
}

/// The monitor after the windows `windows`, the tick that ends each of them
/// being `ticks` at the same place.
pub open spec fn after_windows(
    m: MonitorView,
    windows: Seq<Seq<RawRecordView>>,
    ticks: Seq<u64>,
) -> MonitorView
    decreases windows.len(),
{
    if windows.len() == 0 || ticks.len() == 0 {
        m
    } else {
        after_window(after_windows(m, windows.drop_last(), ticks.drop_last()), windows.last(), ticks.last())
    }
}

/// All that the monitor hands to the channel over the windows `windows`, in
/// the order in which it is handed over.
pub open spec fn handed_over(
    m: MonitorView,
    windows: Seq<Seq<RawRecordView>>,
    ticks: Seq<u64>,
) -> Seq<EventView>
    decreases windows.len(),
{
    if windows.len() == 0 || ticks.len() == 0 {
        Seq::empty()
    } else {
        let earlier = after_windows(m, windows.drop_last(), ticks.drop_last());
        handed_over(m, windows.drop_last(), ticks.drop_last()) + earlier.absorbed(
            Ok(windows.last()),
        ).ticked(ticks.last()).channel.outbox
    }
}

/// Each tick comes a full interval or more after the one before, the first
/// after `start`.
pub open spec fn ticks_apart(start: u64, interval: u64, ticks: Seq<u64>) -> bool {
    forall|i: int|
        0 <= i < ticks.len() ==> window_elapsed(
            if i == 0 {
                start
            } else {
                ticks[i - 1]
            },
            interval,
            #[trigger] ticks[i],
        )
}

/// Window by window. A watching monitor that starts with nothing buffered
/// and nothing waiting, whose channel keeps up and whose ticks come a full
/// interval apart, hands to the channel exactly the events of its windows,
/// each window coalesced by itself, one window after the other.
pub proof fn theorem_windows_are_handed_over_in_order(
    m: MonitorView,
    windows: Seq<Seq<RawRecordView>>,
    ticks: Seq<u64>,
)
    requires
        m.wf(),
        m.state == Lifecycle::Watching,
        m.channel.outbox.len() == 0,
        m.debouncer.buffer.len() == 0,
        windows.len() == ticks.len(),
        ticks_apart(m.debouncer.window_start, m.debouncer.interval, ticks),
    ensures
        handed_over(m, windows, ticks) == emitted(windows),
        ({
            let end = after_windows(m, windows, ticks);
            &&& end.wf()
            &&& end.state == Lifecycle::Watching
            &&& end.channel.outbox.len() == 0
            &&& end.debouncer.buffer.len() == 0
            &&& end.debouncer.interval == m.debouncer.interval
            &&& end.debouncer.window_start == if ticks.len() == 0 {
                m.debouncer.window_start
            } else {
                ticks.last()
            }
        }),
    decreases windows.len(),
{
    if windows.len() > 0 {
        let front = windows.drop_last();
        let early = ticks.drop_last();
        theorem_windows_are_handed_over_in_order(m, front, early);
        let before = after_windows(m, front, early);
        assert(before.debouncer.buffer =~= Seq::empty());
    }
}

/// The events of each window stand together in what is emitted, after the
/// events of all earlier windows and before those of all later ones.
pub proof fn theorem_emitted_in_window_order(windows: Seq<Seq<RawRecordView>>, a: int)
    requires
        0 <= a < windows.len(),
    ensures
        ({
            let before = emitted(windows.take(a)).len() as int;
            let own = events_of(settle(windows[a]));
            &&& before + own.len() <= emitted(windows).len()
            &&& emitted(windows).subrange(before, before + own.len()) == own
        }),
    decreases windows.len(),
{
    if a < windows.len() - 1 {
        let front = windows.drop_last();
        theorem_emitted_in_window_order(front, a);
        assert(front.take(a) =~= windows.take(a));
    }
}

/// Order within a path. Where a path is created in one window, modified in
/// the next and removed in the one after, whatever else happens in the three,
/// the events emitted hold its creation, then its modification, then its
/// removal.
pub proof fn theorem_create_modify_delete_in_order(
    first: Seq<RawRecordView>,
    second: Seq<RawRecordView>,
    third: Seq<RawRecordView>,
    path: Seq<char>,
)
    requires
        has_change(first, KindClass::Create, path),
        has_change(second, KindClass::Modify, path),
        has_change(third, KindClass::Remove, path),
    ensures
        ({
            let events = emitted(seq![first, second, third]);
            exists|i: int, j: int, k: int|
                0 <= i < j < k < events.len() && #[trigger] events[i] == EventView::Created(path)
                    && #[trigger] events[j] == EventView::Modified(path) && #[trigger] events[k]
                    == EventView::Deleted(path)
        }),
{
    let windows = seq![first, second, third];
    theorem_one_event_per_change(first, KindClass::Create, path);
    theorem_one_event_per_change(second, KindClass::Modify, path);
    theorem_one_event_per_change(third, KindClass::Remove, path);
    theorem_emitted_in_window_order(windows, 0);
    theorem_emitted_in_window_order(windows, 1);
    theorem_emitted_in_window_order(windows, 2);
    assert(windows.take(2).drop_last() =~= windows.take(1));
}

/// Shutdown. Teardown leads any monitor to the stopped state, with the sender
/// dropped and nothing buffered, and no batch, tick, report or delivery leads
/// out of it: a stopped monitor never again puts an event in its outbox.
pub proof fn theorem_torn_down_is_final(
    m: MonitorView,
    batch: Result<Seq<RawRecordView>, BackendFailure>,
    now: u64,
    event: StartEvent,
)
    requires
        m.wf(),
    ensures
        ({
            let s = m.torn_down();
            &&& s.wf()
            &&& s.state == Lifecycle::Stopped
            &&& !s.channel.open
            &&& s.channel.outbox.len() == 0
            &&& s.debouncer.buffer.len() == 0
            &&& s.absorbed(batch) == s
            &&& s.ticked(now) == s
            &&& s.advanced(event) == s
            &&& s.started() == s
            &&& s.delivered(0) == s
            &&& s.torn_down() == s
        }),
{
    let s = m.torn_down();
    assert(s.channel.outbox.skip(0) =~= s.channel.outbox);
}

/// Missing-path resilience. A path that is found missing, or to be neither
/// file nor directory, does not fail the start: the monitor passes it over,
/// never registers it, and goes on with the next path, or is watching if
/// that was the last.
pub proof fn theorem_unavailable_path_is_passed_over(m: MonitorView, status: PathStatus)
    requires
        m.wf(),
        m.step() is Probe,
        watch_mode_of(status) is None,
    ensures
        ({
            let n = m.advanced(StartEvent::Probed(status));
            &&& m.start_failure(StartEvent::Probed(status)) is None
            &&& n.wf()
            &&& n.cursor == m.cursor + 1
            &&& !n.registered[m.cursor as int]
            &&& n.state == if n.cursor == n.watched.len() {
                Lifecycle::Watching
            } else {
                Lifecycle::Uninitialized
            }
            &&& n.watched == m.watched
        }),
{
}

/// The report is the backend's refusal for a reason that no other path would
/// survive. Nothing else ends a start.
pub open spec fn fatal(event: StartEvent) -> bool {
    event matches StartEvent::Answered(Err(failure)) && !path_unavailable(failure)
}

/// The report answers the step that the monitor asked for.
pub open spec fn answers(step: StartStep, event: StartEvent) -> bool {
    match (step, event) {
        (StartStep::Probe(_), StartEvent::Probed(_)) => true,
        (StartStep::Register(_, _), StartEvent::Answered(_)) => true,
        _ => false,
    }
}

/// The monitor after the reports `events`, in this order.
pub open spec fn reported(m: MonitorView, events: Seq<StartEvent>) -> MonitorView
    decreases events.len(),
{
    if events.len() == 0 {
        m
    } else {
        reported(m, events.drop_last()).advanced(events.last())
    }
}

/// How many reports the monitor still waits for before it is watching: two
/// for each path not yet dealt with, less the probe of the current one where
/// that has been reported.
pub open spec fn reports_left(m: MonitorView) -> int {
    if m.state != Lifecycle::Uninitialized {
        0
    } else {
        2 * (m.watched.len() - m.cursor) - if m.awaiting {
            1int
        } else {
            0int
        }
    }
}

/// A start survives whatever is wrong with single paths. As long as no report
/// is fatal, no report is answered with an error and the monitor is not
/// stopped, whatever the reports say and in whatever order they come.
pub proof fn theorem_start_survives_unavailable_paths(m: MonitorView, events: Seq<StartEvent>)
    requires
        m.wf(),
        m.state != Lifecycle::Stopped,
        forall|i: int| 0 <= i < events.len() ==> !fatal(#[trigger] events[i]),
    ensures
        reported(m, events).wf(),
        reported(m, events).state != Lifecycle::Stopped,
        forall|k: int|
            0 <= k < events.len() ==> (#[trigger] reported(m, events.take(k))).start_failure(
                events[k],
            ) is None,
    decreases events.len(),
{
    if events.len() > 0 {
        let front = events.drop_last();
        theorem_start_survives_unavailable_paths(m, front);
        lemma_transitions_keep_wf(reported(m, front));
        assert forall|k: int| 0 <= k < events.len() implies (#[trigger] reported(
            m,
            events.take(k),
        )).start_failure(events[k]) is None by {
            if k < front.len() {
                assert(front.take(k) =~= events.take(k));
            }
        }
    }
}

/// A start comes to its end. Every report that answers the step asked for,
/// and is not fatal, brings a starting monitor nearer to watching, and the
/// monitor is watching exactly when no report is left to wait for.
pub proof fn theorem_start_makes_progress(m: MonitorView, event: StartEvent)
    requires
        m.wf(),
        m.state == Lifecycle::Uninitialized,
        answers(m.step(), event),
        !fatal(event),
    ensures
        0 <= reports_left(m.advanced(event)) < reports_left(m),
        reports_left(m.advanced(event)) == 0 <==> m.advanced(event).state == Lifecycle::Watching,
        m.advanced(event).step() is Finished <==> m.advanced(event).state == Lifecycle::Watching,
{
}

/// What has been decided for a path stays decided: no later report, batch,
/// tick or teardown changes whether a path that the start has dealt with is
/// registered.
pub proof fn theorem_decisions_are_final(
    m: MonitorView,
    index: int,
    event: StartEvent,
    batch: Result<Seq<RawRecordView>, BackendFailure>,
    now: u64,
)
    requires
        m.wf(),
        0 <= index < m.cursor,
    ensures
        m.advanced(event).registered[index] == m.registered[index],
        m.advanced(event).watched[index] == m.watched[index],
        m.absorbed(batch).registered[index] == m.registered[index],
        m.ticked(now).registered[index] == m.registered[index],
        m.started().registered[index] == m.registered[index],
        m.torn_down().registered[index] == m.registered[index],
{
}

} // verus!
