use crate::net::NodeRef;
use crate::playback::{
    action_at, asked, entered, next_place, next_step, wait_event, Action, Event, Failure, Phase,
};
use crate::scenario::{batch_size, batches_fit, Quantity, Step};
use crate::scenario_laws::{stage_after, Stage};
use crate::wait::{found_ready, in_round, next_wait, Wait, WaitEvent, WaitPhase};
use vstd::prelude::*;

verus! {

/// Where a scenario stands after some events.
pub open spec fn place_after(steps: Seq<Step>, events: Seq<Event>) -> (int, Phase)
    decreases events.len(),
{
    if events.len() == 0 {
        (0, entered(steps, 0))
    } else {
        let before = place_after(steps, events.drop_last());
        next_place(steps, before.0, before.1, events.last())
    }
}

/// An action but for what is known only while a scenario is played: a submission is taken to be at
/// block zero.
pub open spec fn planned(action: Action) -> Action {
    match action {
        Action::SubmitExtrinsic(node, _) => Action::SubmitExtrinsic(node, 0),
        _ => action,
    }
}

/// The actions that were done, or for a wait begun, by the time that some events have come in.
pub open spec fn performed(steps: Seq<Step>, events: Seq<Event>) -> Seq<Action>
    decreases events.len(),
{
    if events.len() == 0 {
        Seq::empty()
    } else {
        let before = place_after(steps, events.drop_last());
        let done = performed(steps, events.drop_last());
        let event = events.last();
        if place_after(steps, events) != before && (event is Done || event is WaitBegun) {
            done.push(planned(action_at(steps, before.0, before.1)))
        } else {
            done
        }
    }
}

/// The actions that build a batch of `n` nodes; an empty one is passed over.
pub open spec fn build_actions(n: nat) -> Seq<Action> {
    Seq::new(n, |k: int| Action::BuildNode(k as usize))
}

/// The actions of a step.
pub open spec fn step_actions(step: Step) -> Seq<Action> {
    match step {
        Step::NewNet { base_port, .. } => seq![Action::StartRuntime(base_port)]
            + batch_actions(step),
        Step::InsertNodes { .. } => batch_actions(step),
        Step::MakeBlocks { node, count } => if count == 0 {
            seq![Action::Pass]
        } else {
            Seq::new(count as nat, |k: int| Action::MakeBlock(node))
        },
        Step::OpenDir(dir) => seq![Action::OpenDir(dir)],
        Step::AddReservedPeer(link) => seq![Action::AddReservedPeer(link)],
        Step::SubmitExtrinsic(node) => seq![Action::SubmitExtrinsic(node, 0)],
        Step::RunUntilAllFull { .. } => seq![Action::BeginWait],
        Step::ShutdownRuntime => seq![Action::ShutdownRuntime],
        Step::DropNet => seq![Action::DropNet],
        Step::CloseDir => seq![Action::CloseDir],
    }
}

/// The actions that build the batch of a step; an empty one is passed over.
pub open spec fn batch_actions(step: Step) -> Seq<Action> {
    if batch_size(step) == 0 {
        seq![Action::Pass]
    } else {
        build_actions(batch_size(step) as nat)
    }
}

/// The actions of some steps, in order.
pub open spec fn all_actions(steps: Seq<Step>) -> Seq<Action>
    decreases steps.len(),
{
    if steps.len() == 0 {
        Seq::empty()
    } else {
        all_actions(steps.drop_last()) + step_actions(steps.last())
    }
}

/// Those actions of a step that were done where it has come so far.
pub open spec fn done_in_step(step: Step, phase: Phase) -> Seq<Action> {
    match phase {
        Phase::Building(built) => match step {
            Step::NewNet { base_port, .. } => seq![Action::StartRuntime(base_port)]
                + build_actions(built as nat),
            _ => build_actions(built as nat),
        },
        Phase::Making(made) => match step {
            Step::MakeBlocks { node, count } => Seq::new(
                made as nat,
                |k: int| Action::MakeBlock(node),
            ),
            _ => Seq::empty(),
        },
        Phase::Waiting(_) => seq![Action::BeginWait],
        _ => Seq::empty(),
    }
}

/// Whether a phase is one of those that a step goes through.
pub open spec fn fits_step(step: Step, phase: Phase) -> bool {
    match phase {
        Phase::Doing => !(step is NewNet || step is InsertNodes || step is MakeBlocks),
        Phase::StartingRuntime => step is NewNet,
        Phase::Building(built) => {
            &&& step is NewNet || step is InsertNodes
            &&& built == 0 || built < batch_size(step)
        },
        Phase::Making(made) => {
            &&& step is MakeBlocks
            &&& made == 0 || made < step->count
        },
        Phase::Submitting(_) => step is SubmitExtrinsic,
        Phase::Waiting(_) => step is RunUntilAllFull,
        Phase::Finished => false,
        Phase::Failed(_) => true,
    }
}

/// What was done where a scenario stands: all actions of the steps before, and the beginning of
/// those of the current step.
pub open spec fn is_done_to(
    steps: Seq<Step>,
    pc: int,
    phase: Phase,
    done: Seq<Action>,
) -> bool {
    match phase {
        Phase::Finished => pc == steps.len() && done == all_actions(steps),
        Phase::Failed(_) => 0 <= pc < steps.len() && exists|n: int|
            0 <= n <= step_actions(steps[pc]).len() && done == all_actions(steps.take(pc))
                + #[trigger] step_actions(steps[pc]).take(n),
        _ => {
            &&& 0 <= pc < steps.len()
            &&& fits_step(steps[pc], phase)
            &&& done == all_actions(steps.take(pc)) + done_in_step(steps[pc], phase)
        },
    }
}

/// The actions up to and with a step are those before it, and its own.
proof fn actions_with_step(steps: Seq<Step>, pc: int)
    requires
        0 <= pc < steps.len(),
    ensures
        all_actions(steps.take(pc + 1)) == all_actions(steps.take(pc)) + step_actions(steps[pc]),
{
    assert(steps.take(pc + 1).drop_last() =~= steps.take(pc));
}

/// What was done in a step is the beginning of what is done in it.
proof fn done_in_step_begins(step: Step, phase: Phase)
    requires
        fits_step(step, phase),
        !(phase is Failed),
    ensures
        done_in_step(step, phase).len() <= step_actions(step).len(),
        step_actions(step).take(done_in_step(step, phase).len() as int) == done_in_step(
            step,
            phase,
        ),
{
    let done = done_in_step(step, phase);
    assert(step_actions(step).take(done.len() as int) =~= done);
}

/// The end of a step: with its last action, all of it was done.
proof fn step_ends(steps: Seq<Step>, pc: int, phase: Phase, event: Event, done: Seq<Action>)
    requires
        is_done_to(steps, pc, phase, done),
        !(phase is Finished || phase is Failed),
        next_place(steps, pc, phase, event).0 == pc + 1,
    ensures
        is_done_to(
            steps,
            pc + 1,
            next_place(steps, pc, phase, event).1,
            if event is Done {
                done.push(planned(action_at(steps, pc, phase)))
            } else {
                done
            },
        ),
{
    let step = steps[pc];
    let now = if event is Done {
        done.push(planned(action_at(steps, pc, phase)))
    } else {
        done
    };
    let in_step = if event is Done {
        done_in_step(step, phase).push(planned(action_at(steps, pc, phase)))
    } else {
        done_in_step(step, phase)
    };
    assert(in_step =~= step_actions(step));
    assert(now =~= all_actions(steps.take(pc)) + in_step);
    actions_with_step(steps, pc);
    if pc + 1 == steps.len() {
        assert(steps.take(pc + 1) =~= steps);
    } else {
        let next = entered(steps, pc + 1);
        assert(done_in_step(steps[pc + 1], next) =~= Seq::<Action>::empty());
        assert(now =~= all_actions(steps.take(pc + 1)) + done_in_step(steps[pc + 1], next));
    }
}

/// Whatever events come in, what was done in a scenario is all that the steps before the current
/// one call for, in order and once, and the beginning of what the current one calls for. In
/// particular a scenario finishes only when every action of every step was done.
pub proof fn scenario_is_done_in_order(steps: Seq<Step>, events: Seq<Event>)
    requires
        batches_fit(steps),
    ensures
        is_done_to(
            steps,
            place_after(steps, events).0,
            place_after(steps, events).1,
            performed(steps, events),
        ),
    decreases events.len(),
{
    if events.len() == 0 {
        if steps.len() == 0 {
            assert(all_actions(steps) =~= Seq::<Action>::empty());
        } else {
            assert(steps.take(0) =~= Seq::<Step>::empty());
            assert(done_in_step(steps[0], entered(steps, 0)) =~= Seq::<Action>::empty());
            assert(performed(steps, events) =~= all_actions(steps.take(0)) + done_in_step(
                steps[0],
                entered(steps, 0),
            ));
        }
    } else {
        let earlier = events.drop_last();
        scenario_is_done_in_order(steps, earlier);
        let (pc, phase) = place_after(steps, earlier);
        let done = performed(steps, earlier);
        let event = events.last();
        let (pc_now, phase_now) = place_after(steps, events);
        let done_now = performed(steps, events);
        if (pc_now, phase_now) == (pc, phase) {
            assert(done_now == done);
        } else if pc_now == pc + 1 {
            step_ends(steps, pc, phase, event, done);
        } else if phase_now is Failed {
            done_in_step_begins(steps[pc], phase);
            let n = done_in_step(steps[pc], phase).len() as int;
            assert(done_now == all_actions(steps.take(pc)) + step_actions(steps[pc]).take(n));
        } else {
            let step = steps[pc];
            let in_step = if event is Done || event is WaitBegun {
                done_in_step(step, phase).push(planned(action_at(steps, pc, phase)))
            } else {
                done_in_step(step, phase)
            };
            assert(in_step =~= done_in_step(step, phase_now));
            assert(done_now =~= all_actions(steps.take(pc)) + in_step);
        }
    }
}

/// A scenario goes on from a wait exactly when the wait finds the nodes ready, and fails in it
/// exactly when the wait times out.
pub proof fn wait_decides(steps: Seq<Step>, pc: int, wait: Wait, event: Event)
    ensures
        ({
            let place = next_place(steps, pc, Phase::Waiting(wait), event);
            let heard = wait_event(steps[pc], wait, event);
            let after = next_wait(wait.full as nat, wait.light as nat, wait.phase, heard->0);
            &&& heard is None ==> place == (pc, Phase::Waiting(wait))
            &&& heard is Some ==> {
                &&& place.0 == pc + 1 <==> after == WaitPhase::Ready
                &&& after == WaitPhase::Ready ==> place == next_step(steps, pc)
                &&& place == (pc, Phase::Failed(Failure::WaitedTooLong)) <==> after
                    == WaitPhase::TimedOut
            }
        }),
{
}

/// What a node is asked in a wait is whether it meets the condition of its kind: a count that does
/// lets the round go on, and one that does not ends it.
pub proof fn count_answers(steps: Seq<Step>, pc: int, wait: Wait, counted: u128)
    requires
        in_round(wait.phase),
    ensures
        wait_event(steps[pc], wait, Event::Counted(counted)) == Some(
            WaitEvent::Answer(asked(steps[pc], wait).1.spec_holds(counted as int)),
        ),
        !asked(steps[pc], wait).1.spec_holds(counted as int) ==> next_place(
            steps,
            pc,
            Phase::Waiting(wait),
            Event::Counted(counted),
        ) == (pc, Phase::Waiting(Wait { phase: WaitPhase::Sleeping, ..wait })),
{
}

/// What was counted in the current round of a wait, each count with the node that was asked.
pub open spec fn round_counts(steps: Seq<Step>, events: Seq<Event>) -> Seq<(NodeRef, u128)>
    decreases events.len(),
{
    if events.len() == 0 {
        Seq::empty()
    } else {
        let (pc, phase) = place_after(steps, events.drop_last());
        let before = round_counts(steps, events.drop_last());
        match (phase, events.last()) {
            (Phase::Waiting(wait), Event::Tick) => if wait.phase is Sleeping {
                Seq::empty()
            } else {
                before
            },
            (Phase::Waiting(wait), Event::Counted(counted)) => if in_round(wait.phase) {
                before.push((asked(steps[pc], wait).0, counted))
            } else {
                before
            },
            _ => before,
        }
    }
}

/// Whether a count is the one with number `i` of a round in which all nodes are ready, where there
/// are `full` full nodes: it was asked of the node at that position, the full nodes first, and it
/// meets the condition that the step has for nodes of that kind.
pub open spec fn is_ready_count(step: Step, full: nat, i: int, count: (NodeRef, u128)) -> bool {
    match step {
        Step::RunUntilAllFull { full_ready, light_ready } => if i < full {
            &&& count.0 == NodeRef::Full(i as usize)
            &&& full_ready.spec_holds(count.1 as int)
        } else {
            &&& count.0 == NodeRef::Light((i - full) as usize)
            &&& light_ready.spec_holds(count.1 as int)
        },
        _ => false,
    }
}

/// Whether some counts are those of a round in which the first `done` nodes were asked, one after
/// the other, and found ready.
pub open spec fn is_ready_round(
    step: Step,
    full: nat,
    counts: Seq<(NodeRef, u128)>,
    done: nat,
) -> bool {
    &&& counts.len() == done
    &&& forall|i: int| 0 <= i < done ==> is_ready_count(step, full, i, #[trigger] counts[i])
}

/// Whether the step with number `pc` began to wait for so many nodes.
pub open spec fn wait_begun(
    steps: Seq<Step>,
    events: Seq<Event>,
    pc: int,
    full: usize,
    light: usize,
) -> bool {
    exists|j: int|
        0 <= j < events.len() && #[trigger] events[j] == Event::WaitBegun(full, light)
            && place_after(steps, events.take(j)) == (pc, Phase::Doing)
}

/// Whether the last of some events ended the wait of the step with number `pc`, which was for so
/// many nodes, and ended it with a round in which every full node and then every light node was
/// asked and met the condition of its kind, or because the clock failed.
pub open spec fn wait_ended(
    steps: Seq<Step>,
    events: Seq<Event>,
    pc: int,
    full: usize,
    light: usize,
) -> bool {
    &&& events.len() > 0
    &&& place_after(steps, events.drop_last()).0 == pc
    &&& place_after(steps, events).0 == pc + 1
    &&& wait_begun(steps, events, pc, full, light)
    &&& events.last() == Event::TickFailed || is_ready_round(
        steps[pc],
        full as nat,
        round_counts(steps, events),
        full as nat + light as nat,
    )
}

/// A wait that has begun stays so whatever happens next.
proof fn begun_stays(steps: Seq<Step>, events: Seq<Event>, pc: int, full: usize, light: usize)
    requires
        events.len() > 0,
        wait_begun(steps, events.drop_last(), pc, full, light),
    ensures
        wait_begun(steps, events, pc, full, light),
{
    let earlier = events.drop_last();
    let j = choose|j: int|
        0 <= j < earlier.len() && #[trigger] earlier[j] == Event::WaitBegun(full, light)
            && place_after(steps, earlier.take(j)) == (pc, Phase::Doing);
    assert(earlier.take(j) =~= events.take(j));
    assert(events[j] == Event::WaitBegun(full, light));
}

/// In a wait, the counts of the current round are those of the nodes that were found ready in it.
proof fn round_is_ready_so_far(steps: Seq<Step>, events: Seq<Event>)
    requires
        batches_fit(steps),
    ensures
        place_after(steps, events).1 matches Phase::Waiting(wait) ==> {
            let pc = place_after(steps, events).0;
            &&& 0 <= pc < steps.len()
            &&& steps[pc] is RunUntilAllFull
            &&& wait_begun(steps, events, pc, wait.full, wait.light)
            &&& wait.wf()
            &&& wait.phase is Sleeping || in_round(wait.phase)
            &&& in_round(wait.phase) ==> is_ready_round(
                steps[pc],
                wait.full as nat,
                round_counts(steps, events),
                found_ready(wait.full as nat, wait.phase),
            )
        },
    decreases events.len(),
{
    if events.len() > 0 {
        let earlier = events.drop_last();
        round_is_ready_so_far(steps, earlier);
        scenario_is_done_in_order(steps, earlier);
        let (pc, phase) = place_after(steps, earlier);
        let (pc_now, phase_now) = place_after(steps, events);
        if let Phase::Waiting(wait) = phase_now {
            match phase {
                Phase::Waiting(before) => {
                    begun_stays(steps, events, pc, wait.full, wait.light);
                },
                _ => {
                    assert(events.take(events.len() - 1) =~= earlier);
                    assert(events[events.len() - 1] == Event::WaitBegun(wait.full, wait.light));
                },
            }
        }
    }
}

/// A scenario that is past a wait went through its end: at some point an event ended the wait, and
/// it ended with a round in which every full node and then every light node was asked and met the
/// condition of its kind, unless the clock failed.
pub proof fn passed_wait_found_all_ready(steps: Seq<Step>, events: Seq<Event>, pc: int)
    requires
        batches_fit(steps),
        0 <= pc < steps.len(),
        steps[pc] is RunUntilAllFull,
        place_after(steps, events).0 > pc,
    ensures
        exists|m: int, full: usize, light: usize|
            0 <= m <= events.len() && #[trigger] wait_ended(
                steps,
                events.take(m),
                pc,
                full,
                light,
            ),
    decreases events.len(),
{
    let earlier = events.drop_last();
    let before = place_after(steps, earlier);
    if before.0 > pc {
        passed_wait_found_all_ready(steps, earlier, pc);
        let (m, full, light) = choose|m: int, full: usize, light: usize|
            0 <= m <= earlier.len() && #[trigger] wait_ended(
                steps,
                earlier.take(m),
                pc,
                full,
                light,
            );
        assert(earlier.take(m) =~= events.take(m));
        assert(wait_ended(steps, events.take(m), pc, full, light));
    } else {
        scenario_is_done_in_order(steps, earlier);
        round_is_ready_so_far(steps, earlier);
        assert(before.0 == pc);
        let m = events.len() as int;
        assert(events.take(m) =~= events);
        match before.1 {
            Phase::Waiting(wait) => {
                begun_stays(steps, events, pc, wait.full, wait.light);
                assert(wait_ended(steps, events.take(m), pc, wait.full, wait.light));
            },
            _ => {
                assert(false);
            },
        }
    }
}

/// Whether every wait of a scenario began with the numbers of full and light nodes that the steps
/// before it put into the network.
pub open spec fn waits_for_all(steps: Seq<Step>, events: Seq<Event>) -> bool {
    forall|pc: int, full: usize, light: usize|
        0 <= pc < steps.len() && #[trigger] wait_begun(steps, events, pc, full, light) ==> {
            let stage = stage_after(Stage::empty(), steps.take(pc));
            full == stage.full && light == stage.light
        }
}

/// A scenario that finished had, for each of its waits, a round over all nodes: every full node
/// and then every light node that the steps before the wait put into the network was asked and met
/// the condition of its kind, unless the clock failed.
pub proof fn finished_scenario_found_all_ready(steps: Seq<Step>, events: Seq<Event>, pc: int)
    requires
        batches_fit(steps),
        0 <= pc < steps.len(),
        steps[pc] is RunUntilAllFull,
        place_after(steps, events).1 == Phase::Finished,
        waits_for_all(steps, events),
    ensures
        exists|m: int, full: usize, light: usize|
            0 <= m <= events.len() && full == stage_after(Stage::empty(), steps.take(pc)).full
                && light == stage_after(Stage::empty(), steps.take(pc)).light
                && #[trigger] wait_ended(steps, events.take(m), pc, full, light),
{
    scenario_is_done_in_order(steps, events);
    passed_wait_found_all_ready(steps, events, pc);
    let (m, full, light) = choose|m: int, full: usize, light: usize|
        0 <= m <= events.len() && #[trigger] wait_ended(steps, events.take(m), pc, full, light);
    let part = events.take(m);
    let j = choose|j: int|
        0 <= j < part.len() && #[trigger] part[j] == Event::WaitBegun(full, light) && place_after(
            steps,
            part.take(j),
        ) == (pc, Phase::Doing);
    assert(part.take(j) =~= events.take(j));
    assert(events[j] == Event::WaitBegun(full, light));
    assert(wait_begun(steps, events, pc, full, light));
}

/// Whether the number of the best block of `node` was counted, as the step with number `pc` asked
/// for it, and came to `number`.
pub open spec fn counted_best(
    steps: Seq<Step>,
    events: Seq<Event>,
    pc: int,
    node: NodeRef,
    number: u128,
) -> bool {
    exists|j: int|
        0 <= j < events.len() && #[trigger] events[j] == Event::Counted(number) && place_after(
            steps,
            events.take(j),
        ) == (pc, Phase::Doing) && action_at(steps, pc, Phase::Doing) == Action::Count(
            node,
            Some(Quantity::BestNumber),
        )
}

/// A transaction is submitted to the node that its step names, at the block that this node's best
/// one was when the step asked for it. Where the submission fails, so does the scenario.
pub proof fn submitted_at_best_block(steps: Seq<Step>, events: Seq<Event>)
    requires
        batches_fit(steps),
    ensures
        ({
            let (pc, phase) = place_after(steps, events);
            action_at(steps, pc, phase) matches Action::SubmitExtrinsic(node, number) ==> {
                &&& 0 <= pc < steps.len()
                &&& steps[pc] == Step::SubmitExtrinsic(node)
                &&& counted_best(steps, events, pc, node, number)
                &&& next_place(steps, pc, phase, Event::Failed) == (
                    pc,
                    Phase::Failed(Failure::Extrinsic),
                )
            }
        }),
    decreases events.len(),
{
    scenario_is_done_in_order(steps, events);
    let (pc, phase) = place_after(steps, events);
    if events.len() > 0 && phase is Submitting {
        let earlier = events.drop_last();
        submitted_at_best_block(steps, earlier);
        scenario_is_done_in_order(steps, earlier);
        let before = place_after(steps, earlier);
        let node = steps[pc]->SubmitExtrinsic_0;
        let number = phase->Submitting_0;
        if before == (pc, phase) {
            assert(counted_best(steps, earlier, pc, node, number));
            let j = choose|j: int|
                0 <= j < earlier.len() && #[trigger] earlier[j] == Event::Counted(number)
                    && place_after(steps, earlier.take(j)) == (pc, Phase::Doing);
            assert(earlier.take(j) =~= events.take(j));
            assert(events[j] == Event::Counted(number));
        } else {
            assert(before == (pc, Phase::Doing));
            assert(events.take(events.len() - 1) =~= earlier);
            assert(events[events.len() - 1] == Event::Counted(number));
        }
    }
}

/// Once a scenario is over, nothing changes it.
pub proof fn over_is_final(steps: Seq<Step>, pc: int, phase: Phase, event: Event)
    requires
        phase is Finished || phase is Failed,
    ensures
        next_place(steps, pc, phase, event) == (pc, phase),
{
}

} // verus!
