//! The sending side of the bounded event channel.
//!
//! Events wait in an outbox, oldest first, until the channel takes them. A
//! full channel stalls delivery; a channel whose receiver is gone swallows
//! the event.

use vstd::prelude::*;
use std::collections::VecDeque;
use tokio::sync::mpsc::error::TrySendError;
use tokio::sync::mpsc::{Receiver, Sender};
use crate::event::{EventView, FileSystemEvent};

verus! {

/// Number of events the channel holds before sending stalls.
pub const CHANNEL_CAPACITY: usize = 100;

/// `tokio::sync::mpsc::Sender`, the sending end of a bounded channel. Nothing
/// of what it holds is visible here.
#[verifier::external_type_specification]
#[verifier::external_body]
#[verifier::reject_recursive_types(T)]
pub struct ExSender<T>(tokio::sync::mpsc::Sender<T>);

/// `tokio::sync::mpsc::Receiver`, the receiving end of a bounded channel. The
/// library makes it and hands it out; it never reads from it.
#[verifier::external_type_specification]
#[verifier::external_body]
#[verifier::reject_recursive_types(T)]
pub struct ExReceiver<T>(tokio::sync::mpsc::Receiver<T>);

/// `tokio::sync::mpsc::channel` makes the two ends of a bounded channel. It
/// panics on a capacity of zero and on one above its permit limit, which is
/// `usize::MAX >> 3`; the bound here is inside that limit on 32-bit targets
/// too. Nothing is claimed of the ends themselves.
pub assume_specification<T>[ tokio::sync::mpsc::channel::<T> ](buffer: usize) -> (ends: (
    Sender<T>,
    Receiver<T>,
))
    requires
        0 < buffer <= 0x1fff_ffff,
;

/// Why the channel did not take an event. Either way the event comes back.
#[derive(Debug, PartialEq, Eq)]
pub enum SendError {
    /// The channel is full: sending now would have to wait.
    Full(FileSystemEvent),
    /// The receiver has been closed or dropped.
    ChannelClosed(FileSystemEvent),
}

/// `tokio::sync::mpsc::Sender::try_send` either queues the event or returns
/// it in the error, saying whether the channel was full or closed. The
/// contract claims only that the event in the error is the one given; which
/// of the three outcomes occurs depends on the receiver.
#[verifier::external_body]
fn try_send(sender: &Sender<FileSystemEvent>, event: FileSystemEvent) -> (sent: Result<
    (),
    SendError,
>)
    ensures
        sent matches Err(SendError::Full(back)) ==> back == event,
        sent matches Err(SendError::ChannelClosed(back)) ==> back == event,
{
    match sender.try_send(event) {
        Ok(()) => Ok(()),
        Err(TrySendError::Full(back)) => Err(SendError::Full(back)),
        Err(TrySendError::Closed(back)) => Err(SendError::ChannelClosed(back)),
    }
}

/// What became of one event that was offered to the channel.
#[derive(Clone, Copy, Debug, PartialEq, Eq, Structural)]
pub enum SendStatus {
    /// The channel took it.
    Sent,
    /// The receiver is gone: the event is lost.
    Dropped,
    /// The channel is full: the event is back at the head of the outbox.
    Stalled,
}

/// The outcome of one round of delivery.
#[derive(Clone, Copy, Debug, PartialEq, Eq)]
pub struct Delivery {
    /// Events the channel took.
    pub sent: usize,
    /// Events lost because the receiver is gone.
    pub dropped: usize,
    /// Whether the channel was full before the outbox was empty.
    pub stalled: bool,
}

/// Mathematical model of an [`EventChannel`].
pub struct ChannelView {
    /// Whether the sender is still held.
    pub open: bool,
    /// The events that wait for delivery, oldest first.
    pub outbox: Seq<EventView>,
}

impl ChannelView {
    /// A closed channel holds no events.
    pub open spec fn wf(self) -> bool {
        !self.open ==> self.outbox.len() == 0
    }
}

/// The sender of the event channel together with the events that wait for it.
pub struct EventChannel {
    sender: Option<Sender<FileSystemEvent>>,
    outbox: VecDeque<FileSystemEvent>,
}

/// The events of a queue as a sequence of models.
pub open spec fn outbox_view(queue: Seq<FileSystemEvent>) -> Seq<EventView> {
    queue.map_values(|e: FileSystemEvent| e.deep_view())
}

impl View for EventChannel {
    type V = ChannelView;

    closed spec fn view(&self) -> ChannelView {
        ChannelView { open: self.sender is Some, outbox: outbox_view(self.outbox@) }
    }
}

/// The outbox after the channel answered `result` for the event that was
/// taken from its head: only a full, open channel puts the event back.
pub open spec fn outbox_after(channel: ChannelView, result: Result<(), SendError>) -> Seq<
    EventView,
> {
    match result {
        Err(SendError::Full(back)) if channel.open => seq![back.deep_view()] + channel.outbox,
        _ => channel.outbox,
    }
}

/// What to report for `result`.
pub open spec fn status_after(channel: ChannelView, result: Result<(), SendError>) -> SendStatus {
    match result {
        Ok(()) => SendStatus::Sent,
        Err(SendError::Full(_)) if channel.open => SendStatus::Stalled,
        _ => SendStatus::Dropped,
    }
}

/// Settles one answer of the channel on a queue from whose head the event
/// was taken.
fn settle_answer(queue: &mut VecDeque<FileSystemEvent>, open: bool, result: Result<(), SendError>) -> (status:
    SendStatus)
    ensures
        outbox_view(final(queue)@) == outbox_after(
            ChannelView { open, outbox: outbox_view(old(queue)@) },
            result,
        ),
        status == status_after(ChannelView { open, outbox: outbox_view(old(queue)@) }, result),
{
    match result {
        Ok(()) => SendStatus::Sent,
        Err(SendError::ChannelClosed(_)) => SendStatus::Dropped,
        Err(SendError::Full(back)) => {
            if open {
                queue.push_front(back);
                SendStatus::Stalled
            } else {
                SendStatus::Dropped
            }
        },
    }
}

impl EventChannel {
    /// What holds of every channel.
    #[verifier::type_invariant]
    spec fn inv(self) -> bool {
        self.sender is None ==> self.outbox@.len() == 0
    }

    /// Opens a channel of [`CHANNEL_CAPACITY`] events and returns its sending
    /// side, with an empty outbox, and its receiver.
    pub fn open() -> (ends: (EventChannel, Receiver<FileSystemEvent>))
        ensures
            ends.0@ == (ChannelView { open: true, outbox: Seq::empty() }),
    {
        let (sender, receiver) = tokio::sync::mpsc::channel::<FileSystemEvent>(CHANNEL_CAPACITY);
        let channel = EventChannel { sender: Some(sender), outbox: VecDeque::new() };
        assert(channel@.outbox =~= Seq::empty());
        (channel, receiver)
    }

    /// A channel that was never open: it holds no sender and no events.
    pub(crate) fn closed() -> (channel: EventChannel)
        ensures
            channel@ == (ChannelView { open: false, outbox: Seq::empty() }),
    {
        let channel = EventChannel { sender: None, outbox: VecDeque::new() };
        assert(channel@.outbox =~= Seq::empty());
        channel
    }

    /// Whether the sender is still held.
    pub fn is_open(&self) -> (open: bool)
        ensures
            open == self@.open,
            self@.wf(),
    {
        proof {
            use_type_invariant(self);
        }
        self.sender.is_some()
    }

    /// Number of events that wait for delivery.
    pub fn pending(&self) -> (n: usize)
        ensures
            n == self@.outbox.len(),
            self@.wf(),
    {
        proof {
            use_type_invariant(self);
        }
        self.outbox.len()
    }

    /// Puts `events` behind the events that already wait. A closed channel
    /// discards them.
    pub fn enqueue(&mut self, events: Vec<FileSystemEvent>)
        ensures
            final(self)@.wf(),
            final(self)@.open == old(self)@.open,
            final(self)@.outbox == if old(self)@.open {
                old(self)@.outbox + events.deep_view()
            } else {
                old(self)@.outbox
            },
    {
        proof {
            use_type_invariant(&*self);
        }
        if self.sender.is_none() {
            return ;
        }
        let ghost before = self@.outbox;
        let ghost all = events.deep_view();
        let ghost items = events@;
        // The queue is taken out and put back, so that what stays behind
        // breaks no rule at any point.
        let mut queue: VecDeque<FileSystemEvent> = VecDeque::new();
        std::mem::swap(&mut queue, &mut self.outbox);
        for event in it: events.into_iter()
            invariant
                it.seq() == items,
                all == Seq::new(items.len(), |i: int| items[i].deep_view()),
                outbox_view(queue@) == before + all.take(it.index() as int),
        {
            let ghost queued = outbox_view(queue@);
            queue.push_back(event);
            assert(outbox_view(queue@) =~= queued.push(event.deep_view()));
        }
        self.outbox = queue;
    }

    /// Settles one answer of the channel for the event that was taken from
    /// the head of the outbox.
    pub fn after_send(&mut self, result: Result<(), SendError>) -> (status: SendStatus)
        ensures
            final(self)@.wf(),
            final(self)@.open == old(self)@.open,
            final(self)@.outbox == outbox_after(old(self)@, result),
            status == status_after(old(self)@, result),
    {
        proof {
            use_type_invariant(&*self);
        }
        let open = self.sender.is_some();
        let mut queue: VecDeque<FileSystemEvent> = VecDeque::new();
        std::mem::swap(&mut queue, &mut self.outbox);
        let status = settle_answer(&mut queue, open, result);
        assert(outbox_view(queue@).len() == queue@.len());
        self.outbox = queue;
        status
    }

    /// Offers the waiting events to the channel, oldest first, until the outbox
    /// is empty or the channel is full. Whatever the channel answers, the
    /// events that remain are a tail of those that waited, in their order.
    pub fn deliver(&mut self) -> (report: Delivery)
        ensures
            final(self)@.wf(),
            final(self)@.open == old(self)@.open,
            report.sent + report.dropped <= old(self)@.outbox.len(),
            final(self)@.outbox == old(self)@.outbox.skip(report.sent + report.dropped),
            report.stalled == (final(self)@.outbox.len() > 0),
    {
        proof {
            use_type_invariant(&*self);
        }
        let ghost before = self@.outbox;
        let open = self.sender.is_some();
        let mut queue: VecDeque<FileSystemEvent> = VecDeque::new();
        std::mem::swap(&mut queue, &mut self.outbox);
        let waiting_at_start = queue.len();
        let mut report = Delivery { sent: 0, dropped: 0, stalled: false };
        while !report.stalled && queue.len() > 0
            invariant
                self.sender == old(self).sender,
                open == (self.sender is Some),
                self.outbox@.len() == 0,
                open || queue@.len() == 0,
                before.len() == waiting_at_start,
                report.sent + report.dropped <= before.len(),
                outbox_view(queue@) == before.skip(report.sent + report.dropped),
                report.stalled ==> queue@.len() > 0,
            decreases queue.len() + (if report.stalled { 0int } else { 1int }),
        {
            let ghost waiting = outbox_view(queue@);
            let event = queue.pop_front().unwrap();
            assert(outbox_view(queue@) =~= waiting.skip(1));
            let result = match &self.sender {
                Some(sender) => try_send(sender, event),
                None => Err(SendError::ChannelClosed(event)),
            };
            match settle_answer(&mut queue, open, result) {
                SendStatus::Sent => {
                    report.sent = report.sent + 1;
                    assert(waiting.skip(1) =~= before.skip(report.sent + report.dropped));
                },
                SendStatus::Dropped => {
                    report.dropped = report.dropped + 1;
                },
                SendStatus::Stalled => {
                    report.stalled = true;
                },
            }
        }
        self.outbox = queue;
        report
    }

    /// Drops the sender and the events that still wait. Once every sender is
    /// gone the receiver sees the end of the channel after what it holds.
    pub fn close(&mut self)
        ensures
            final(self)@ == (ChannelView { open: false, outbox: Seq::empty() }),
    {
        let mut queue: VecDeque<FileSystemEvent> = VecDeque::new();
        std::mem::swap(&mut queue, &mut self.outbox);
        self.sender = None;
        assert(self@.outbox =~= Seq::empty());
    }
}

} // verus!
