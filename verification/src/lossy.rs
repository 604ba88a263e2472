//! The queue between the lossy command channel and the robot: what arrives while the queue is
//! in use is dropped, what is accepted is played in order.
use std::collections::VecDeque;
use vstd::prelude::*;

verus! {

/// Commands that wait for the robot, and counts of those accepted and dropped.
#[derive(Debug)]
pub struct LossyQueue<T> {
    queue: VecDeque<T>,
    accepted: u64,
    dropped: u64,
    shown_accepted: u64,
    shown_dropped: u64,
}

/// How many commands per second were accepted and dropped.
#[derive(Clone, Copy, Debug, PartialEq, Eq, Structural)]
pub struct LossyRate {
    pub accepted: u64,
    pub dropped: u64,
}

/// Seconds between two displays of the rate.
pub const DISPLAY_PERIOD: u64 = 1;

/// Milliseconds between two looks at the queue, on either side.
pub const POLL_PERIOD: u64 = 1;

/// What happens to a queue. `free` tells whether the queue is not in use at that time,
/// `running` whether its session runs.
pub ghost enum LossyEvent<T> {
    Receive { item: T, free: bool },
    Play { running: bool, free: bool },
}

/// What became of the items of a queue.
pub ghost struct LossyTrace<T> {
    /// The items that wait, the next to be played first.
    pub queue: Seq<T>,
    /// The items that were accepted, in order.
    pub accepted: Seq<T>,
    /// The items that were played, in order.
    pub played: Seq<T>,
    /// The number of items that were dropped.
    pub dropped: nat,
}

/// The item that an event adds to the queue.
pub open spec fn taken_in<T>(event: LossyEvent<T>) -> Option<T> {
    match event {
        LossyEvent::Receive { item, free: true } => Some(item),
        _ => None,
    }
}

/// Whether an event drops an item.
pub open spec fn drops<T>(event: LossyEvent<T>) -> bool {
    event matches LossyEvent::Receive { free: false, .. }
}

/// The item that an event takes out of the queue.
pub open spec fn taken_out<T>(queue: Seq<T>, event: LossyEvent<T>) -> Option<T> {
    match event {
        LossyEvent::Play { running: true, free: true } => if queue.len() > 0 {
            Some(queue[0])
        } else {
            None
        },
        _ => None,
    }
}

/// The items that wait after an event.
pub open spec fn queue_after<T>(queue: Seq<T>, event: LossyEvent<T>) -> Seq<T> {
    match (taken_in(event), taken_out(queue, event)) {
        (Some(item), _) => queue.push(item),
        (None, Some(_)) => queue.drop_first(),
        (None, None) => queue,
    }
}

/// What becomes of the items with one more event.
pub open spec fn lossy_step<T>(trace: LossyTrace<T>, event: LossyEvent<T>) -> LossyTrace<T> {
    LossyTrace {
        queue: queue_after(trace.queue, event),
        accepted: match taken_in(event) {
            Some(item) => trace.accepted.push(item),
            None => trace.accepted,
        },
        played: match taken_out(trace.queue, event) {
            Some(item) => trace.played.push(item),
            None => trace.played,
        },
        dropped: if drops(event) {
            trace.dropped + 1
        } else {
            trace.dropped
        },
    }
}

/// What becomes of the items of a new queue over some events.
pub open spec fn lossy_run<T>(events: Seq<LossyEvent<T>>) -> LossyTrace<T>
    decreases events.len(),
{
    if events.len() == 0 {
        LossyTrace {
            queue: Seq::empty(),
            accepted: Seq::empty(),
            played: Seq::empty(),
            dropped: 0,
        }
    } else {
        lossy_step(lossy_run(events.drop_last()), events.last())
    }
}

/// The number of items that arrived over some events.
pub open spec fn received<T>(events: Seq<LossyEvent<T>>) -> nat
    decreases events.len(),
{
    if events.len() == 0 {
        0
    } else {
        received(events.drop_last()) + if events.last() is Receive {
            1nat
        } else {
            0
        }
    }
}

impl<T> LossyQueue<T> {
    /// The items that wait.
    pub closed spec fn queue(self) -> Seq<T> {
        self.queue@
    }

    /// How many items were accepted.
    pub closed spec fn accepted(self) -> nat {
        self.accepted as nat
    }

    /// How many items were dropped.
    pub closed spec fn dropped(self) -> nat {
        self.dropped as nat
    }

    /// The counts at the last display: accepted and dropped.
    pub closed spec fn shown(self) -> (nat, nat) {
        (self.shown_accepted as nat, self.shown_dropped as nat)
    }

    /// The counts do not fall below those last displayed.
    pub open spec fn wf(self) -> bool {
        self.shown().0 <= self.accepted() && self.shown().1 <= self.dropped()
    }

    /// An empty queue.
    pub fn new() -> (r: LossyQueue<T>)
        ensures
            r.wf(),
            r.queue() == Seq::<T>::empty(),
            r.accepted() == 0,
            r.dropped() == 0,
            r.shown() == (0nat, 0nat),
    {
        LossyQueue {
            queue: VecDeque::new(),
            accepted: 0,
            dropped: 0,
            shown_accepted: 0,
            shown_dropped: 0,
        }
    }

    /// Takes in an item, or drops it when the queue is in use.
    pub fn receive(&mut self, item: T, free: bool)
        requires
            old(self).wf(),
            old(self).accepted() < u64::MAX,
            old(self).dropped() < u64::MAX,
        ensures
            final(self).wf(),
            final(self).shown() == old(self).shown(),
            final(self).queue() == queue_after(
                old(self).queue(),
                LossyEvent::Receive { item, free },
            ),
            final(self).accepted() == old(self).accepted() + if free {
                1int
            } else {
                0
            },
            final(self).dropped() == old(self).dropped() + if free {
                0int
            } else {
                1
            },
    {
        if free {
            self.queue.push_back(item);
            self.accepted = self.accepted + 1;
        } else {
            self.dropped = self.dropped + 1;
        }
    }

    /// The item to play next; none when the session has ended, or the queue is in use or empty.
    pub fn play(&mut self, running: bool, free: bool) -> (r: Option<T>)
        ensures
            final(self).accepted() == old(self).accepted(),
            final(self).dropped() == old(self).dropped(),
            final(self).shown() == old(self).shown(),
            r == taken_out(old(self).queue(), LossyEvent::Play { running, free }),
            final(self).queue() == queue_after(
                old(self).queue(),
                LossyEvent::<T>::Play { running, free },
            ),
    {
        if running && free {
            let item = self.queue.pop_front();
            assert(old(self).queue().len() > 0 ==> old(self).queue().drop_first()
                =~= self.queue());
            item
        } else {
            None
        }
    }

    /// The rates since the last display.
    pub fn display(&mut self) -> (r: LossyRate)
        requires
            old(self).wf(),
        ensures
            final(self).wf(),
            final(self).queue() == old(self).queue(),
            final(self).accepted() == old(self).accepted(),
            final(self).dropped() == old(self).dropped(),
            final(self).shown() == (old(self).accepted(), old(self).dropped()),
            r.accepted == (old(self).accepted() - old(self).shown().0) / DISPLAY_PERIOD as int,
            r.dropped == (old(self).dropped() - old(self).shown().1) / DISPLAY_PERIOD as int,
    {
        let rate = LossyRate {
            accepted: (self.accepted - self.shown_accepted) / DISPLAY_PERIOD,
            dropped: (self.dropped - self.shown_dropped) / DISPLAY_PERIOD,
        };
        self.shown_accepted = self.accepted;
        self.shown_dropped = self.dropped;
        rate
    }
}

/// Accepted items are played in order and none is lost: those played, with those that wait
/// behind them, are the accepted ones. Every item that arrives is accepted or dropped.
pub proof fn lemma_accepted_are_played<T>(events: Seq<LossyEvent<T>>)
    ensures
        lossy_run(events).accepted == lossy_run(events).played + lossy_run(events).queue,
        lossy_run(events).accepted.len() + lossy_run(events).dropped == received(events),
    decreases events.len(),
{
    let trace = lossy_run(events);
    if events.len() > 0 {
        lemma_accepted_are_played(events.drop_last());
        assert(trace.accepted =~= trace.played + trace.queue);
    } else {
        assert(trace.accepted =~= trace.played + trace.queue);
    }
}

/// Once a session has ended, nothing more is played.
pub proof fn lemma_ended_plays_nothing<T>(events: Seq<LossyEvent<T>>, n: nat)
    requires
        n <= events.len(),
        forall|i: int|
            n <= i < events.len() ==> !(#[trigger] events[i] matches LossyEvent::Play {
                running: true,
                ..
            }),
    ensures
        lossy_run(events).played == lossy_run(events.take(n as int)).played,
    decreases events.len(),
{
    if n == events.len() {
        assert(events.take(n as int) =~= events);
    } else {
        let front = events.drop_last();
        assert(front.take(n as int) =~= events.take(n as int));
        assert forall|i: int| n <= i < front.len() implies !(
        #[trigger] front[i] matches LossyEvent::Play { running: true, .. }) by {
            assert(front[i] == events[i]);
        }
        lemma_ended_plays_nothing(front, n);
        assert(events[events.len() - 1] == events.last());
    }
}

/// What arrives at a free queue waits behind everything else; what arrives at a queue in use is
/// dropped, and changes nothing else.
pub proof fn lemma_arrivals<T>(trace: LossyTrace<T>, item: T)
    ensures
        ({
            let after = lossy_step(trace, LossyEvent::Receive { item, free: true });
            &&& after.queue == trace.queue.push(item)
            &&& after.accepted == trace.accepted.push(item)
            &&& after.played == trace.played
            &&& after.dropped == trace.dropped
        }),
        ({
            let after = lossy_step(trace, LossyEvent::Receive { item, free: false });
            &&& after.queue == trace.queue
            &&& after.accepted == trace.accepted
            &&& after.played == trace.played
            &&& after.dropped == trace.dropped + 1
        }),
        taken_out(trace.queue, LossyEvent::Receive { item, free: true }) is None,
        taken_out(trace.queue, LossyEvent::Receive { item, free: false }) is None,
{
}

/// A running session that finds its queue free plays what has waited longest, if anything waits;
/// in any other case nothing is played and everything stays.
pub proof fn lemma_plays<T>(trace: LossyTrace<T>, running: bool, free: bool)
    ensures
        ({
            let event = LossyEvent::<T>::Play { running, free };
            let after = lossy_step(trace, event);
            &&& after.accepted == trace.accepted
            &&& after.dropped == trace.dropped
            &&& running && free && trace.queue.len() > 0 ==> {
                &&& taken_out(trace.queue, event) == Some(trace.queue[0])
                &&& after.queue == trace.queue.skip(1)
                &&& after.played == trace.played.push(trace.queue[0])
            }
            &&& !(running && free && trace.queue.len() > 0) ==> {
                &&& taken_out(trace.queue, event) is None
                &&& after.queue == trace.queue
                &&& after.played == trace.played
            }
        }),
{
    if trace.queue.len() > 0 {
        assert(trace.queue.drop_first() =~= trace.queue.skip(1));
    }
}

/// Rates are displayed each second, and the queue is looked at each millisecond.
pub proof fn lemma_lossy_periods()
    ensures
        DISPLAY_PERIOD == 1,
        POLL_PERIOD == 1,
{
}

} // verus!
