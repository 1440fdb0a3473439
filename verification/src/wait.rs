use vstd::prelude::*;

verus! {

/// Maximum duration of a single wait, in seconds.
pub const MAX_WAIT_TIME_SECS: u64 = 60 * 3;

/// The time between two rounds of questions, in milliseconds.
pub const ROUND_INTERVAL_MILLIS: u64 = 100;

/// What a wait is doing.
#[derive(Debug, Clone, Copy, PartialEq, Eq, Structural)]
pub enum WaitPhase {
    /// It waits for the next round to begin.
    Sleeping,
    /// It asks the full node at this position whether it is ready.
    AskingFull(usize),
    /// It asks the light node at this position whether it is ready.
    AskingLight(usize),
    /// It is over: the nodes are ready.
    Ready,
    /// It is over: it took too long.
    TimedOut,
}

/// What happens to a wait.
#[derive(Debug, Clone, Copy, PartialEq, Eq, Structural)]
pub enum WaitEvent {
    /// The time between two rounds has passed.
    Tick,
    /// The clock that measures the time between rounds failed.
    TickFailed,
    /// Whether the node that was asked is ready.
    Answer(bool),
    /// The wait has taken its maximum duration.
    Elapsed,
}

/// A wait until every full and every light node is ready, in rounds: a round asks the nodes one
/// after the other, the full nodes first, and stops at the first one that is not ready.
#[derive(Debug, Clone, Copy, PartialEq, Eq, Structural)]
pub struct Wait {
    /// How many full nodes there are.
    pub full: usize,
    /// How many light nodes there are.
    pub light: usize,
    /// What the wait is doing.
    pub phase: WaitPhase,
}

/// What a wait does when `done` nodes have been found ready in this round, the full ones first.
pub open spec fn asking(full: nat, light: nat, done: nat) -> WaitPhase {
    if done < full {
        WaitPhase::AskingFull(done as usize)
    } else if done < full + light {
        WaitPhase::AskingLight((done - full) as usize)
    } else {
        WaitPhase::Ready
    }
}

/// How many nodes have been found ready in this round.
pub open spec fn found_ready(full: nat, phase: WaitPhase) -> nat {
    match phase {
        WaitPhase::AskingFull(i) => i as nat,
        WaitPhase::AskingLight(i) => full + i as nat,
        _ => 0,
    }
}

/// Whether a wait is in the middle of a round.
pub open spec fn in_round(phase: WaitPhase) -> bool {
    phase is AskingFull || phase is AskingLight
}

/// What a wait does after an event.
pub open spec fn next_wait(full: nat, light: nat, phase: WaitPhase, event: WaitEvent) -> WaitPhase {
    if phase == WaitPhase::Sleeping {
        match event {
            WaitEvent::Tick => asking(full, light, 0),
            WaitEvent::TickFailed => WaitPhase::Ready,
            WaitEvent::Elapsed => WaitPhase::TimedOut,
            WaitEvent::Answer(_) => phase,
        }
    } else if in_round(phase) && event is Answer {
        if event->Answer_0 {
            asking(full, light, found_ready(full, phase) + 1)
        } else {
            WaitPhase::Sleeping
        }
    } else {
        phase
    }
}

impl Wait {
    /// Whether the node that is asked, if any, is one of those that there are.
    pub open spec fn wf(&self) -> bool {
        match self.phase {
            WaitPhase::AskingFull(i) => i < self.full,
            WaitPhase::AskingLight(i) => i < self.light,
            _ => true,
        }
    }

    /// A wait for so many full and light nodes, before its first round.
    pub fn new(full: usize, light: usize) -> (wait: Wait)
        ensures
            wait == (Wait { full, light, phase: WaitPhase::Sleeping }),
            wait.wf(),
    {
        Wait { full, light, phase: WaitPhase::Sleeping }
    }

    /// Takes an event. One that the wait is not waiting for leaves it as it is.
    pub fn advance(&mut self, event: WaitEvent)
        requires
            old(self).wf(),
        ensures
            final(self).full == old(self).full,
            final(self).light == old(self).light,
            final(self).phase == next_wait(
                old(self).full as nat,
                old(self).light as nat,
                old(self).phase,
                event,
            ),
            final(self).wf(),
    {
        self.phase = match (self.phase, event) {
            (WaitPhase::Sleeping, WaitEvent::Tick) => if self.full > 0 {
                WaitPhase::AskingFull(0)
            } else if self.light > 0 {
                WaitPhase::AskingLight(0)
            } else {
                WaitPhase::Ready
            },
            (WaitPhase::Sleeping, WaitEvent::TickFailed) => WaitPhase::Ready,
            (WaitPhase::Sleeping, WaitEvent::Elapsed) => WaitPhase::TimedOut,
            (WaitPhase::AskingFull(_), WaitEvent::Answer(false)) => WaitPhase::Sleeping,
            (WaitPhase::AskingLight(_), WaitEvent::Answer(false)) => WaitPhase::Sleeping,
            (WaitPhase::AskingFull(i), WaitEvent::Answer(true)) => if i + 1 < self.full {
                WaitPhase::AskingFull(i + 1)
            } else if self.light > 0 {
                WaitPhase::AskingLight(0)
            } else {
                WaitPhase::Ready
            },
            (WaitPhase::AskingLight(i), WaitEvent::Answer(true)) => if i + 1 < self.light {
                WaitPhase::AskingLight(i + 1)
            } else {
                WaitPhase::Ready
            },
            (phase, _) => phase,
        };
    }
}

/// What a wait does after some events.
pub open spec fn wait_after(full: usize, light: usize, events: Seq<WaitEvent>) -> WaitPhase
    decreases events.len(),
{
    if events.len() == 0 {
        WaitPhase::Sleeping
    } else {
        next_wait(
            full as nat,
            light as nat,
            wait_after(full, light, events.drop_last()),
            events.last(),
        )
    }
}

/// Those of the events that moved the wait.
pub open spec fn heard(full: usize, light: usize, events: Seq<WaitEvent>) -> Seq<WaitEvent>
    decreases events.len(),
{
    if events.len() == 0 {
        Seq::empty()
    } else {
        let before = heard(full, light, events.drop_last());
        if wait_after(full, light, events) == wait_after(full, light, events.drop_last()) {
            before
        } else {
            before.push(events.last())
        }
    }
}

/// The events of a round up to the point where `done` nodes have been found ready.
pub open spec fn ready_round(done: nat) -> Seq<WaitEvent> {
    Seq::new(
        1 + done,
        |i: int|
            if i == 0 {
                WaitEvent::Tick
            } else {
                WaitEvent::Answer(true)
            },
    )
}

/// Whether `events` ends with `tail`.
pub open spec fn ends_with(events: Seq<WaitEvent>, tail: Seq<WaitEvent>) -> bool {
    tail.len() <= events.len() && events.skip(events.len() - tail.len()) == tail
}

/// What moved a wait last, in each phase.
pub open spec fn wait_explained(
    full: usize,
    light: usize,
    phase: WaitPhase,
    events: Seq<WaitEvent>,
) -> bool {
    match phase {
        WaitPhase::Sleeping => {
            ||| events.len() == 0
            ||| events.last() == WaitEvent::Answer(false)
        },
        WaitPhase::AskingFull(i) => {
            &&& i < full
            &&& ends_with(events, ready_round(i as nat))
        },
        WaitPhase::AskingLight(i) => {
            &&& i < light
            &&& ends_with(events, ready_round(full as nat + i as nat))
        },
        WaitPhase::Ready => {
            ||| ends_with(events, ready_round(full as nat + light as nat))
            ||| ends_with(events, seq![WaitEvent::TickFailed])
        },
        WaitPhase::TimedOut => ends_with(events, seq![WaitEvent::Elapsed]),
    }
}

/// A round goes on by one more node that is ready.
proof fn round_goes_on(events: Seq<WaitEvent>, done: nat)
    requires
        ends_with(events, ready_round(done)),
    ensures
        ends_with(events.push(WaitEvent::Answer(true)), ready_round(done + 1)),
{
    let longer = events.push(WaitEvent::Answer(true));
    let start = longer.len() - ready_round(done + 1).len();
    let tail = longer.skip(start);
    assert forall|i: int| 0 <= i < tail.len() implies tail[i] == ready_round(done + 1)[i] by {
        if i < ready_round(done).len() {
            assert(events.skip(start)[i] == ready_round(done)[i]);
        }
    }
    assert(tail =~= ready_round(done + 1));
}

/// Whatever happens to a wait, it finds the nodes ready only after a round that asked every full
/// node and then every light node and in which each one was ready, or where the clock failed; and
/// it is asking a node only when all nodes before it were ready in this very round.
pub proof fn wait_is_explained(full: usize, light: usize, events: Seq<WaitEvent>)
    ensures
        wait_explained(
            full,
            light,
            wait_after(full, light, events),
            heard(full, light, events),
        ),
    decreases events.len(),
{
    if events.len() > 0 {
        let earlier = events.drop_last();
        wait_is_explained(full, light, earlier);
        let phase = wait_after(full, light, earlier);
        let before = heard(full, light, earlier);
        let event = events.last();
        let phase_now = wait_after(full, light, events);
        let now = heard(full, light, events);
        if phase_now != phase {
            assert(now == before.push(event));
            if phase == WaitPhase::Sleeping {
                let tail = seq![event];
                assert(now.skip(now.len() - 1) =~= tail);
                if event == WaitEvent::Tick {
                    assert(ready_round(0) =~= tail);
                }
            } else if event == WaitEvent::Answer(true) {
                round_goes_on(before, found_ready(full as nat, phase));
            }
        }
    }
}

/// A round in which every node is ready ends the wait.
pub proof fn ready_round_ends_wait(full: usize, light: usize, events: Seq<WaitEvent>, done: nat)
    requires
        wait_after(full, light, events) == WaitPhase::Sleeping,
        done <= full + light,
    ensures
        wait_after(full, light, events + ready_round(done)) == asking(
            full as nat,
            light as nat,
            done,
        ),
    decreases done,
{
    let all = events + ready_round(done);
    if done == 0 {
        assert(all.drop_last() =~= events);
        assert(all.last() == WaitEvent::Tick);
    } else {
        let fewer = (done - 1) as nat;
        ready_round_ends_wait(full, light, events, fewer);
        assert(all.drop_last() =~= events + ready_round(fewer));
        assert(all.last() == WaitEvent::Answer(true));
    }
}

/// A node that is not ready ends the round, whichever node it is, and no other node is asked
/// before the next one.
pub proof fn unready_node_ends_round(full: usize, light: usize, phase: WaitPhase)
    requires
        in_round(phase),
    ensures
        next_wait(full as nat, light as nat, phase, WaitEvent::Answer(false))
            == WaitPhase::Sleeping,
{
}

/// Once a wait is over, nothing changes it.
pub proof fn over_is_final(full: usize, light: usize, phase: WaitPhase, event: WaitEvent)
    requires
        phase == WaitPhase::Ready || phase == WaitPhase::TimedOut,
    ensures
        next_wait(full as nat, light as nat, phase, event) == phase,
{
}

/// A wait that is between two rounds is over, as timed out, right after its maximum duration has
/// passed, however many nodes there are; in the middle of a round the round goes on first.
pub proof fn elapsed_time_ends_wait(full: usize, light: usize, events: Seq<WaitEvent>)
    ensures
        wait_after(full, light, events) == WaitPhase::Sleeping ==> wait_after(
            full,
            light,
            events.push(WaitEvent::Elapsed),
        ) == WaitPhase::TimedOut,
        in_round(wait_after(full, light, events)) ==> wait_after(
            full,
            light,
            events.push(WaitEvent::Elapsed),
        ) == wait_after(full, light, events),
{
    assert(events.push(WaitEvent::Elapsed).drop_last() =~= events);
}

/// A wait whose clock never fails finds the nodes ready only after as many good answers in a row as
/// there are nodes.
pub proof fn no_wait_is_ready_too_early(full: usize, light: usize, events: Seq<WaitEvent>)
    requires
        wait_after(full, light, events) == WaitPhase::Ready,
        forall|i: int| 0 <= i < events.len() ==> #[trigger] events[i] != WaitEvent::TickFailed,
    ensures
        heard(full, light, events).len() >= 1 + full + light,
        forall|i: int|
            heard(full, light, events).len() - (full + light) <= i < heard(
                full,
                light,
                events,
            ).len() ==> #[trigger] heard(full, light, events)[i] == WaitEvent::Answer(true),
{
    wait_is_explained(full, light, events);
    heard_are_events(full, light, events);
    let moved = heard(full, light, events);
    let n = full as nat + light as nat;
    if ends_with(moved, seq![WaitEvent::TickFailed]) {
        assert(moved.skip(moved.len() - 1)[0] == WaitEvent::TickFailed);
        assert(moved.contains(WaitEvent::TickFailed)) by {
            assert(moved[moved.len() - 1] == WaitEvent::TickFailed);
        }
    } else {
        let start = moved.len() - ready_round(n).len();
        assert forall|i: int| moved.len() - n <= i < moved.len() implies #[trigger] moved[i]
            == WaitEvent::Answer(true) by {
            assert(moved.skip(start)[i - start] == ready_round(n)[i - start]);
        }
    }
}

/// What moved a wait is among what happened to it.
proof fn heard_are_events(full: usize, light: usize, events: Seq<WaitEvent>)
    ensures
        forall|event: WaitEvent| #[trigger]
            heard(full, light, events).contains(event) ==> events.contains(event),
    decreases events.len(),
{
    if events.len() > 0 {
        let earlier = events.drop_last();
        heard_are_events(full, light, earlier);
        assert forall|event: WaitEvent| #[trigger]
            heard(full, light, events).contains(event) implies events.contains(event) by {
            let moved = heard(full, light, events);
            let i = choose|i: int| 0 <= i < moved.len() && moved[i] == event;
            let before = heard(full, light, earlier);
            if i < before.len() {
                assert(before[i] == event);
                assert(before.contains(event));
                let j = choose|j: int| 0 <= j < earlier.len() && earlier[j] == event;
                assert(events[j] == event);
            } else {
                assert(events[events.len() - 1] == event);
            }
        }
    }
}

/// How a round goes: it begins with the first full node, or the first light node where there is no
/// full one; after each node that is ready comes the next one of its kind, after the last full node
/// the first light node, and after the last node the wait is over. A wait without nodes is over
/// with its first round.
pub proof fn rounds_ask_in_turn(full: usize, light: usize, i: usize)
    ensures
        full > 0 ==> next_wait(full as nat, light as nat, WaitPhase::Sleeping, WaitEvent::Tick)
            == WaitPhase::AskingFull(0),
        full == 0 && light > 0 ==> next_wait(
            full as nat,
            light as nat,
            WaitPhase::Sleeping,
            WaitEvent::Tick,
        ) == WaitPhase::AskingLight(0),
        full == 0 && light == 0 ==> next_wait(
            full as nat,
            light as nat,
            WaitPhase::Sleeping,
            WaitEvent::Tick,
        ) == WaitPhase::Ready,
        i + 1 < full ==> next_wait(
            full as nat,
            light as nat,
            WaitPhase::AskingFull(i),
            WaitEvent::Answer(true),
        ) == WaitPhase::AskingFull((i + 1) as usize),
        i + 1 == full && light > 0 ==> next_wait(
            full as nat,
            light as nat,
            WaitPhase::AskingFull(i),
            WaitEvent::Answer(true),
        ) == WaitPhase::AskingLight(0),
        i + 1 == full && light == 0 ==> next_wait(
            full as nat,
            light as nat,
            WaitPhase::AskingFull(i),
            WaitEvent::Answer(true),
        ) == WaitPhase::Ready,
        i + 1 < light ==> next_wait(
            full as nat,
            light as nat,
            WaitPhase::AskingLight(i),
            WaitEvent::Answer(true),
        ) == WaitPhase::AskingLight((i + 1) as usize),
        i + 1 == light ==> next_wait(
            full as nat,
            light as nat,
            WaitPhase::AskingLight(i),
            WaitEvent::Answer(true),
        ) == WaitPhase::Ready,
        next_wait(
            full as nat,
            light as nat,
            WaitPhase::AskingFull(i),
            WaitEvent::Answer(false),
        ) == WaitPhase::Sleeping,
        next_wait(
            full as nat,
            light as nat,
            WaitPhase::AskingLight(i),
            WaitEvent::Answer(false),
        ) == WaitPhase::Sleeping,
{
}

/// A clock that fails between two rounds ends a wait. Nothing else moves a wait but what it waits
/// for: an answer between two rounds, and a clock in the middle of one, leave it as it is.
pub proof fn stray_events_leave_wait(full: usize, light: usize, phase: WaitPhase, ready: bool)
    requires
        phase is AskingFull || phase is AskingLight,
    ensures
        next_wait(full as nat, light as nat, WaitPhase::Sleeping, WaitEvent::TickFailed)
            == WaitPhase::Ready,
        next_wait(full as nat, light as nat, WaitPhase::Sleeping, WaitEvent::Answer(ready))
            == WaitPhase::Sleeping,
        next_wait(full as nat, light as nat, phase, WaitEvent::Tick) == phase,
        next_wait(full as nat, light as nat, phase, WaitEvent::TickFailed) == phase,
        next_wait(full as nat, light as nat, phase, WaitEvent::Elapsed) == phase,
{
}

} // verus!
