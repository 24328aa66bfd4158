//! The result stream: the channel that carries the events of all scans to
//! the coordinator.
//!
//! The channel is crossbeam's. What it holds at a given moment depends on
//! every thread that has a handle to it, so nothing is said of that; each
//! sending handle keeps account of what it has itself put on the stream.

use crate::computer::{event_records, worker_step, ComputationEvent, EventRecord, ScanBatch};
use crate::file_info::FileInfo;
use vstd::prelude::*;

verus! {

/// Declares `crossbeam::channel::Sender`, the sending end of a channel, as
/// a type whose values are carried around and never looked into.
#[verifier::external_type_specification]
#[verifier::external_body]
#[verifier::reject_recursive_types(T)]
pub struct ExSender<T>(crossbeam::channel::Sender<T>);

/// Declares `crossbeam::channel::Receiver`, the receiving end of a channel,
/// as a type whose values are carried around and never looked into.
#[verifier::external_type_specification]
#[verifier::external_body]
#[verifier::reject_recursive_types(T)]
pub struct ExReceiver<T>(crossbeam::channel::Receiver<T>);

/// Calls `crossbeam::channel::unbounded`, which creates a channel without a
/// limit and gives its two ends. Nothing is claimed of them.
#[verifier::external_body]
fn open_channel() -> (ends: (
    crossbeam::channel::Sender<ComputationEvent>,
    crossbeam::channel::Receiver<ComputationEvent>,
)) {
    crossbeam::channel::unbounded()
}

/// Calls `crossbeam::channel::Sender::send` and tells whether it returned
/// `Ok`: the channel took the event. It returns an error where every
/// receiver is gone. Which of the two happens is not claimed.
#[verifier::external_body]
fn send_event(tx: &crossbeam::channel::Sender<ComputationEvent>, event: ComputationEvent) -> (taken:
    bool) {
    tx.send(event).is_ok()
}

/// Calls `clone` on a `crossbeam::channel::Sender`, which gives another
/// handle to the same channel. Nothing is claimed of it.
#[verifier::external_body]
fn clone_sender(tx: &crossbeam::channel::Sender<ComputationEvent>) -> (other:
    crossbeam::channel::Sender<ComputationEvent>) {
    tx.clone()
}

impl FileInfo {
    /// A copy of the record.
    pub fn duplicate(&self) -> (copy: FileInfo)
        ensures
            copy@ == self@,
    {
        FileInfo {
            path: self.path.clone(),
            file_count: self.file_count,
            size: self.size,
            is_dir: self.is_dir,
        }
    }
}

impl ComputationEvent {
    /// A copy of the event.
    pub fn duplicate(&self) -> (copy: ComputationEvent)
        ensures
            copy@ == self@,
    {
        match self {
            ComputationEvent::Finished => ComputationEvent::Finished,
            ComputationEvent::FileInfo(info) => ComputationEvent::FileInfo(info.duplicate()),
        }
    }
}

/// A sending handle to the result stream, with the account of what it has
/// handed to the stream: what the stream took, and what it refused.
pub struct Publisher {
    tx: crossbeam::channel::Sender<ComputationEvent>,
    sent: Ghost<Seq<EventRecord>>,
    refused: Ghost<Seq<EventRecord>>,
}

impl Publisher {
    /// The events that the stream has taken from this handle, in order.
    pub closed spec fn sent(&self) -> Seq<EventRecord> {
        self.sent@
    }

    /// The events that this handle has handed to the stream and that the
    /// stream has refused, in order.
    pub closed spec fn refused(&self) -> Seq<EventRecord> {
        self.refused@
    }

    /// Another handle to the same stream, which has handed it nothing yet.
    pub fn share(&self) -> (other: Publisher)
        ensures
            other.sent() == Seq::<EventRecord>::empty(),
            other.refused() == Seq::<EventRecord>::empty(),
    {
        Publisher {
            tx: clone_sender(&self.tx),
            sent: Ghost(Seq::empty()),
            refused: Ghost(Seq::empty()),
        }
    }

    /// Hands `events` to the stream, in order, and stops at the first that
    /// the stream refuses. Returns how many the stream took.
    ///
    /// Every event before the returned index was handed over and taken. If
    /// the index falls short of the end, the event at it was handed over
    /// and refused, and nothing after it was handed over; otherwise nothing
    /// was refused.
    pub fn publish(&mut self, events: &Vec<ComputationEvent>) -> (taken: usize)
        ensures
            taken <= events.len(),
            final(self).sent() == old(self).sent() + event_records(events@).take(taken as int),
            final(self).refused() == if taken < events.len() {
                old(self).refused().push(events@[taken as int]@)
            } else {
                old(self).refused()
            },
    {
        let mut i: usize = 0;
        while i < events.len()
            invariant
                i <= events.len(),
                self.sent() == old(self).sent() + event_records(events@).take(i as int),
                self.refused() == old(self).refused(),
            decreases events.len() - i,
        {
            if !send_event(&self.tx, events[i].duplicate()) {
                proof {
                    self.refused@ = self.refused@.push(events[i as int]@);
                }
                return i;
            }
            proof {
                self.sent@ = self.sent@.push(events[i as int]@);
                assert(event_records(events@).take(i + 1) =~= event_records(events@).take(
                    i as int,
                ).push(events[i as int]@));
            }
            i = i + 1;
        }
        i
    }
}

/// What a worker that was done has put on the stream.
#[derive(Debug, PartialEq, Eq)]
pub struct Published {
    /// What the worker had to publish, in this order.
    pub events: Vec<ComputationEvent>,
    /// How many of `events` the result stream took: all of them, unless the
    /// stream is closed.
    pub delivered: usize,
}

impl Publisher {
    /// What a worker does when it is done and `info` is its aggregate: it
    /// makes its staleness check against the live value of the epoch
    /// counter, counts itself off its batch, and puts on the stream what
    /// [`worker_step`] says, as far as the stream takes it.
    pub fn report(&mut self, batch: &mut ScanBatch, live_epoch: usize, info: FileInfo) -> (done:
        Published)
        requires
            live_epoch == old(batch).epoch ==> old(batch).outstanding > 0,
        ensures
            *final(batch) == worker_step(*old(batch), live_epoch, info@).0,
            event_records(done.events@) == worker_step(*old(batch), live_epoch, info@).1,
            done.events@.len() == worker_step(*old(batch), live_epoch, info@).1.len(),
            done.delivered <= done.events@.len(),
            final(self).sent() == old(self).sent() + event_records(done.events@).take(
                done.delivered as int,
            ),
            final(self).refused() == if done.delivered < done.events@.len() {
                old(self).refused().push(done.events@[done.delivered as int]@)
            } else {
                old(self).refused()
            },
    {
        let events = batch.worker_done(live_epoch, info);
        let delivered = self.publish(&events);
        Published { events, delivered }
    }
}

/// Opens a result stream: a handle to send on, and the end to receive from.
pub fn result_stream() -> (ends: (Publisher, crossbeam::channel::Receiver<ComputationEvent>))
    ensures
        ends.0.sent() == Seq::<EventRecord>::empty(),
        ends.0.refused() == Seq::<EventRecord>::empty(),
{
    let (tx, rx) = open_channel();
    (Publisher { tx, sent: Ghost(Seq::empty()), refused: Ghost(Seq::empty()) }, rx)
}

} // verus!
