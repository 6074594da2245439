//! The debounce buffer: raw records of one window, coalesced by key.
//!
//! The key of a record is its first path together with the class of its kind.
//! Within one window the buffer keeps, for every key seen, the last record
//! with that key, at the position where the key was first seen.

use vstd::prelude::*;
use crate::event::{RawRecord, RawRecordView};

verus! {

/// Length of the debounce window in milliseconds.
pub const DEBOUNCE_INTERVAL_MS: u64 = 2000;

/// `a` and `b` name a path and have the same key.
pub open spec fn same_key(a: RawRecordView, b: RawRecordView) -> bool {
    &&& a.paths.len() > 0
    &&& b.paths.len() > 0
    &&& a.paths[0] == b.paths[0]
    &&& a.kind.class() == b.kind.class()
}

/// Index of the first record of `buffer`, at or after `from`, that has the key
/// of `r`; `buffer.len()` if there is none.
pub open spec fn first_match(buffer: Seq<RawRecordView>, r: RawRecordView, from: int) -> int
    decreases buffer.len() - from,
{
    if from < 0 || from >= buffer.len() {
        buffer.len() as int
    } else if same_key(buffer[from], r) {
        from
    } else {
        first_match(buffer, r, from + 1)
    }
}

/// The buffer after one more raw record: a record without a path is ignored;
/// a record whose key is already buffered replaces the buffered one in place;
/// a record with a new key goes to the end.
pub open spec fn record_into(buffer: Seq<RawRecordView>, r: RawRecordView) -> Seq<RawRecordView> {
    if r.paths.len() == 0 {
        buffer
    } else {
        let i = first_match(buffer, r, 0);
        if i < buffer.len() {
            buffer.update(i, r)
        } else {
            buffer.push(r)
        }
    }
}

/// The buffer after the raw records `records`, in this order.
pub open spec fn record_all(buffer: Seq<RawRecordView>, records: Seq<RawRecordView>) -> Seq<
    RawRecordView,
>
    decreases records.len(),
{
    if records.len() == 0 {
        buffer
    } else {
        record_into(record_all(buffer, records.drop_last()), records.last())
    }
}

/// The settled records of a window in which the raw records `raw` arrived in
/// this order.
pub open spec fn settle(raw: Seq<RawRecordView>) -> Seq<RawRecordView> {
    record_all(Seq::empty(), raw)
}

/// Index of the last record of `raw` that has the key of `r`; -1 if there is
/// none.
pub open spec fn last_match(raw: Seq<RawRecordView>, r: RawRecordView) -> int
    decreases raw.len(),
{
    if raw.len() == 0 {
        -1
    } else if same_key(raw.last(), r) {
        raw.len() - 1
    } else {
        last_match(raw.drop_last(), r)
    }
}

/// Every buffered record names a path, and no two have the same key.
pub open spec fn settled(buffer: Seq<RawRecordView>) -> bool {
    &&& forall|i: int| 0 <= i < buffer.len() ==> (#[trigger] buffer[i]).paths.len() > 0
    &&& forall|i: int, j: int|
        0 <= i < j < buffer.len() ==> !same_key(#[trigger] buffer[i], #[trigger] buffer[j])
}

/// The window that began at `start` is over at `now`.
pub open spec fn window_elapsed(start: u64, interval: u64, now: u64) -> bool {
    now >= start && now - start >= interval
}

/// What `first_match` returns: nothing before it matches, and it matches
/// unless it is the length.
pub proof fn lemma_first_match(buffer: Seq<RawRecordView>, r: RawRecordView, from: int)
    requires
        0 <= from <= buffer.len(),
    ensures
        from <= first_match(buffer, r, from) <= buffer.len(),
        forall|k: int| from <= k < first_match(buffer, r, from) ==> !same_key(#[trigger] buffer[k], r),
        first_match(buffer, r, from) < buffer.len() ==> same_key(
            buffer[first_match(buffer, r, from)],
            r,
        ),
    decreases buffer.len() - from,
{
    if from < buffer.len() && !same_key(buffer[from], r) {
        lemma_first_match(buffer, r, from + 1);
    }
}

/// Recording keeps a buffer settled.
pub proof fn lemma_record_keeps_settled(buffer: Seq<RawRecordView>, r: RawRecordView)
    requires
        settled(buffer),
    ensures
        settled(record_into(buffer, r)),
{
    if r.paths.len() > 0 {
        lemma_first_match(buffer, r, 0);
    }
}

/// An index before which nothing matches, and which matches unless it is the
/// length, is what `first_match` returns.
pub proof fn lemma_first_match_is(buffer: Seq<RawRecordView>, r: RawRecordView, i: int)
    requires
        0 <= i <= buffer.len(),
        forall|k: int| 0 <= k < i ==> !same_key(#[trigger] buffer[k], r),
        i < buffer.len() ==> same_key(buffer[i], r),
    ensures
        first_match(buffer, r, 0) == i,
{
    lemma_first_match(buffer, r, 0);
}

/// What `last_match` returns: nothing after it matches, and it matches unless
/// it is -1.
pub proof fn lemma_last_match(raw: Seq<RawRecordView>, r: RawRecordView)
    ensures
        -1 <= last_match(raw, r) < raw.len(),
        last_match(raw, r) >= 0 ==> same_key(raw[last_match(raw, r)], r),
        forall|k: int| last_match(raw, r) < k < raw.len() ==> !same_key(#[trigger] raw[k], r),
    decreases raw.len(),
{
    if raw.len() > 0 && !same_key(raw.last(), r) {
        lemma_last_match(raw.drop_last(), r);
        let lm = last_match(raw, r);
        assert forall|k: int| lm < k < raw.len() implies !same_key(#[trigger] raw[k], r) by {
            if k < raw.len() - 1 {
                assert(raw.drop_last()[k] == raw[k]);
            }
        }
    }
}

/// Some record matches exactly if a first one does, and exactly if a last one
/// does.
pub proof fn lemma_first_and_last_match(raw: Seq<RawRecordView>, r: RawRecordView)
    ensures
        first_match(raw, r, 0) < raw.len() <==> last_match(raw, r) >= 0,
        first_match(raw, r, 0) < raw.len() <==> exists|k: int|
            0 <= k < raw.len() && same_key(#[trigger] raw[k], r),
        last_match(raw, r) >= 0 ==> first_match(raw, r, 0) <= last_match(raw, r),
{
    lemma_first_match(raw, r, 0);
    lemma_last_match(raw, r);
}

/// How one more record moves the place of a key: a place once taken stays; a
/// key that was not there is at the end if the record has it, and nowhere if
/// not. A record with the key is what the buffer then holds at that place;
/// any other record leaves that place alone.
pub proof fn lemma_record_into_place(buffer: Seq<RawRecordView>, x: RawRecordView, r: RawRecordView)
    requires
        settled(buffer),
        r.paths.len() > 0,
    ensures
        ({
            let out = record_into(buffer, x);
            let was = first_match(buffer, r, 0);
            let is = first_match(out, r, 0);
            &&& buffer.len() <= out.len() <= buffer.len() + 1
            &&& same_key(x, r) ==> is == was && is < out.len() && out[is] == x
            &&& !same_key(x, r) && was < buffer.len() ==> is == was && out[is] == buffer[was]
            &&& !same_key(x, r) && was == buffer.len() ==> is == out.len()
            &&& same_key(x, r) && was == buffer.len() ==> out.len() == buffer.len() + 1
        }),
{
    let out = record_into(buffer, x);
    let was = first_match(buffer, r, 0);
    lemma_first_match(buffer, r, 0);
    if x.paths.len() > 0 {
        lemma_first_match(buffer, x, 0);
        let k = first_match(buffer, x, 0);
        if same_key(x, r) {
            lemma_first_match_is(out, r, k);
        } else {
            if was < buffer.len() {
                lemma_first_match_is(out, r, was);
            } else {
                lemma_first_match_is(out, r, out.len() as int);
            }
        }
    }
}

/// Recording keeps a buffer settled, record after record.
pub proof fn lemma_record_all_keeps_settled(buffer: Seq<RawRecordView>, records: Seq<RawRecordView>)
    requires
        settled(buffer),
    ensures
        settled(record_all(buffer, records)),
        buffer.len() <= record_all(buffer, records).len() <= buffer.len() + records.len(),
    decreases records.len(),
{
    if records.len() > 0 {
        lemma_record_all_keeps_settled(buffer, records.drop_last());
        lemma_first_match(record_all(buffer, records.drop_last()), records.last(), 0);
    }
}

/// Recording one run of records and then another is recording both in a row.
pub proof fn lemma_record_all_in_turn(
    buffer: Seq<RawRecordView>,
    first: Seq<RawRecordView>,
    second: Seq<RawRecordView>,
)
    ensures
        record_all(record_all(buffer, first), second) == record_all(buffer, first + second),
    decreases second.len(),
{
    if second.len() > 0 {
        lemma_record_all_in_turn(buffer, first, second.drop_last());
        assert((first + second).drop_last() =~= first + second.drop_last());
    }
}

/// Coalescing, stated for one key. Take a settled buffer, the raw records
/// `records` and any record `r` that names a path. Where the buffer already
/// held the key of `r`, the key keeps its place; where `records` bring the
/// key, the buffer afterwards holds, at the key's one place, the last of
/// them; where neither holds, the key is absent afterwards.
pub proof fn lemma_last_record_wins(
    buffer: Seq<RawRecordView>,
    records: Seq<RawRecordView>,
    r: RawRecordView,
)
    requires
        settled(buffer),
        r.paths.len() > 0,
    ensures
        ({
            let out = record_all(buffer, records);
            let was = first_match(buffer, r, 0);
            let is = first_match(out, r, 0);
            let last = last_match(records, r);
            &&& settled(out)
            &&& was < buffer.len() ==> is == was
            &&& was == buffer.len() ==> is >= buffer.len()
            &&& last >= 0 ==> is < out.len() && out[is] == records[last]
            &&& last < 0 && was < buffer.len() ==> out[is] == buffer[was]
            &&& last < 0 && was == buffer.len() ==> is == out.len()
        }),
    decreases records.len(),
{
    if records.len() > 0 {
        let front = records.drop_last();
        let x = records.last();
        let mid = record_all(buffer, front);
        lemma_last_record_wins(buffer, front, r);
        lemma_record_all_keeps_settled(buffer, front);
        lemma_record_all_keeps_settled(buffer, records);
        lemma_record_into_place(mid, x, r);
        lemma_last_match(front, r);
    }
}

/// Every settled record comes from the buffer or from the records taken in.
pub proof fn lemma_settled_records_are_raw(
    buffer: Seq<RawRecordView>,
    records: Seq<RawRecordView>,
    i: int,
)
    requires
        0 <= i < record_all(buffer, records).len(),
    ensures
        buffer.contains(record_all(buffer, records)[i]) || records.contains(
            record_all(buffer, records)[i],
        ),
    decreases records.len(),
{
    if records.len() > 0 {
        let front = records.drop_last();
        let x = records.last();
        let mid = record_all(buffer, front);
        let out = record_all(buffer, records);
        if x.paths.len() > 0 {
            lemma_first_match(mid, x, 0);
        }
        if out[i] != x {
            lemma_settled_records_are_raw(buffer, front, i);
            if front.contains(mid[i]) {
                let j = choose|j: int| 0 <= j < front.len() && front[j] == mid[i];
                assert(records[j] == mid[i]);
            }
        }
    } else {
        assert(buffer[i] == record_all(buffer, records)[i]);
    }
}

/// Settled records stand in the order in which their keys were first seen:
/// if the key of `a` is seen in `raw` before the key of `b` is, the record
/// for `a` stands before the record for `b`.
pub proof fn theorem_first_seen_order(raw: Seq<RawRecordView>, a: RawRecordView, b: RawRecordView)
    requires
        a.paths.len() > 0,
        b.paths.len() > 0,
        first_match(raw, a, 0) < first_match(raw, b, 0),
    ensures
        first_match(settle(raw), a, 0) < settle(raw).len(),
        first_match(settle(raw), a, 0) < first_match(settle(raw), b, 0),
    decreases raw.len(),
{
    lemma_first_match(raw, a, 0);
    lemma_first_match(raw, b, 0);
    let fa = first_match(raw, a, 0);
    assert(raw.len() > 0);
    let front = raw.drop_last();
    let x = raw.last();
    let mid = settle(front);
    let empty = Seq::<RawRecordView>::empty();
    lemma_last_record_wins(empty, front, a);
    lemma_last_record_wins(empty, front, b);
    lemma_first_and_last_match(front, a);
    lemma_first_and_last_match(front, b);
    lemma_first_match(front, a, 0);
    lemma_first_match(front, b, 0);
    lemma_record_into_place(mid, x, a);
    lemma_record_into_place(mid, x, b);
    let fa0 = first_match(front, a, 0);
    let fb0 = first_match(front, b, 0);
    // A key that `front` does not hold is first seen with the last record.
    assert(fa0 == front.len() ==> fa >= front.len()) by {
        if fa0 == front.len() && fa < front.len() {
            assert(!same_key(front[fa], a));
        }
    }
    if fa0 < front.len() && fb0 < front.len() {
        theorem_first_seen_order(front, a, b);
    }
}

/// The records buffered by a [`Debouncer`], with its window.
pub struct DebouncerView {
    pub interval: u64,
    pub window_start: u64,
    pub buffer: Seq<RawRecordView>,
}

/// Buffers the raw records of the current debounce window and hands them out,
/// coalesced, when the window is over.
pub struct Debouncer {
    interval_ms: u64,
    window_start_ms: u64,
    buffer: Vec<RawRecord>,
}

impl View for Debouncer {
    type V = DebouncerView;

    closed spec fn view(&self) -> DebouncerView {
        DebouncerView {
            interval: self.interval_ms,
            window_start: self.window_start_ms,
            buffer: self.buffer.deep_view(),
        }
    }
}

impl Debouncer {
    /// What holds of every debouncer: its buffer is settled.
    #[verifier::type_invariant]
    spec fn inv(self) -> bool {
        settled(self.buffer.deep_view())
    }

    /// A debouncer with an empty buffer whose first window starts at `now_ms`.
    pub fn new(interval_ms: u64, now_ms: u64) -> (d: Debouncer)
        ensures
            d@ == (DebouncerView { interval: interval_ms, window_start: now_ms, buffer: Seq::empty() }),
            settled(d@.buffer),
    {
        let buffer: Vec<RawRecord> = Vec::new();
        assert(buffer.deep_view() =~= Seq::empty());
        Debouncer { interval_ms, window_start_ms: now_ms, buffer }
    }

    /// The window length this debouncer was made with.
    pub fn interval(&self) -> (ms: u64)
        ensures
            ms == self@.interval,
    {
        self.interval_ms
    }

    /// Number of settled records waiting for the window to end.
    pub fn pending(&self) -> (n: usize)
        ensures
            n == self@.buffer.len(),
            settled(self@.buffer),
    {
        proof {
            use_type_invariant(self);
        }
        self.buffer.len()
    }

    /// Takes one raw record into the current window. Returns whether it was
    /// taken: a record that names no path is dropped.
    pub fn record(&mut self, record: RawRecord) -> (accepted: bool)
        ensures
            accepted == (record@.paths.len() > 0),
            final(self)@ == (DebouncerView {
                buffer: record_into(old(self)@.buffer, record@),
                ..old(self)@
            }),
            settled(final(self)@.buffer),
    {
        proof {
            use_type_invariant(&*self);
        }
        if record.paths.len() == 0 {
            return false;
        }
        let class = record.kind.kind_class();
        // The buffer is taken out and put back, so that what stays behind is
        // settled at every point.
        let mut buffer: Vec<RawRecord> = Vec::new();
        std::mem::swap(&mut buffer, &mut self.buffer);
        let ghost before = buffer.deep_view();
        let mut i: usize = 0;
        while i < buffer.len()
            invariant_except_break
                first_match(before, record@, 0) == first_match(before, record@, i as int),
            invariant
                0 <= i <= buffer.len(),
                before == buffer.deep_view(),
                record@.paths.len() > 0,
                class == record@.kind.class(),
                forall|k: int| 0 <= k < before.len() ==> (#[trigger] before[k]).paths.len() > 0,
            ensures
                i <= buffer.len(),
                first_match(before, record@, 0) == i,
            decreases buffer.len() - i,
        {
            let held = &buffer[i];
            if held.kind.kind_class() == class && held.paths[0] == record.paths[0] {
                break;
            }
            i += 1;
        }
        proof {
            lemma_record_keeps_settled(before, record@);
        }
        if i < buffer.len() {
            buffer.set(i, record);
            assert(buffer.deep_view() =~= before.update(i as int, record@));
        } else {
            buffer.push(record);
            assert(buffer.deep_view() =~= before.push(record@));
        }
        self.buffer = buffer;
        true
    }

    /// Whether the current window is over at `now_ms`.
    pub fn is_due(&self, now_ms: u64) -> (due: bool)
        ensures
            due == window_elapsed(self@.window_start, self@.interval, now_ms),
    {
        now_ms >= self.window_start_ms && now_ms - self.window_start_ms >= self.interval_ms
    }

    /// Hands out the settled records of the current window and empties the
    /// buffer. An empty window gives `None`, never an empty batch.
    pub fn flush(&mut self) -> (batch: Option<Vec<RawRecord>>)
        ensures
            final(self)@ == (DebouncerView { buffer: Seq::empty(), ..old(self)@ }),
            batch is None <==> old(self)@.buffer.len() == 0,
            batch matches Some(b) ==> b.deep_view() == old(self)@.buffer && settled(b.deep_view()),
    {
        proof {
            use_type_invariant(&*self);
        }
        if self.buffer.len() == 0 {
            assert(self@.buffer =~= Seq::empty());
            return None;
        }
        let mut out: Vec<RawRecord> = Vec::new();
        assert(out.deep_view() =~= Seq::empty());
        std::mem::swap(&mut out, &mut self.buffer);
        Some(out)
    }

    /// One tick of the clock. If the window is over at `now_ms`, a new window
    /// starts there and the old one is flushed; otherwise nothing changes.
    pub fn tick(&mut self, now_ms: u64) -> (batch: Option<Vec<RawRecord>>)
        ensures
            !window_elapsed(old(self)@.window_start, old(self)@.interval, now_ms) ==> {
                &&& batch is None
                &&& final(self)@ == old(self)@
            },
            window_elapsed(old(self)@.window_start, old(self)@.interval, now_ms) ==> {
                &&& final(self)@ == (DebouncerView {
                    window_start: now_ms,
                    buffer: Seq::empty(),
                    ..old(self)@
                })
                &&& batch is None <==> old(self)@.buffer.len() == 0
                &&& batch matches Some(b) ==> b.deep_view() == old(self)@.buffer && settled(
                    b.deep_view(),
                )
            },
    {
        proof {
            use_type_invariant(&*self);
        }
        if !self.is_due(now_ms) {
            return None;
        }
        self.window_start_ms = now_ms;
        self.flush()
    }
}

} // verus!
