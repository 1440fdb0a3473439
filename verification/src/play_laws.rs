use crate::net::NodeRef;
use crate::playback::{
    action_at, entered, joining_at, next_place, Action, Event, Failure, Joining, Phase,
};
use crate::playback_laws::{
    all_actions, done_in_step, fits_step, passed_wait_found_all_ready, performed,
    place_after, planned, round_counts, scenario_is_done_in_order, step_actions, wait_begun, wait_ended,
};
use crate::scenario::{
    batch_size, batches_fit, connectivity_steps, consensus_steps, sync_steps, Quantity, Step,
};
use crate::step_laws::{
    connectivity_step_by_step, consensus_step_by_step, other_authorities, sync_step_by_step,
};
use crate::wait::{next_wait, Wait, WaitEvent, WaitPhase};
use vstd::prelude::*;

verus! {

/// Whether an action is one of those that a step calls for, and not a question, a pause or an end.
pub open spec fn is_deed(action: Action) -> bool {
    !(action is Count || action is AwaitTick || action is Finish || action is Fail)
}

/// The actions of the first steps are the first actions.
proof fn first_actions(steps: Seq<Step>, pc: int)
    requires
        0 <= pc <= steps.len(),
    ensures
        all_actions(steps.take(pc)).len() <= all_actions(steps).len(),
        all_actions(steps).take(all_actions(steps.take(pc)).len() as int) == all_actions(
            steps.take(pc),
        ),
    decreases steps.len() - pc,
{
    let first = all_actions(steps.take(pc));
    if pc == steps.len() {
        assert(steps.take(pc) =~= steps);
        assert(all_actions(steps).take(first.len() as int) =~= first);
    } else {
        first_actions(steps, pc + 1);
        assert(steps.take(pc + 1).drop_last() =~= steps.take(pc));
        let more = all_actions(steps.take(pc + 1));
        assert(more.take(first.len() as int) =~= first);
        assert(all_actions(steps).take(first.len() as int) =~= more.take(first.len() as int));
    }
}

/// What is done next, where a scenario stands, is the next of all the actions that its steps call
/// for.
pub proof fn next_action_is_the_next_in_order(steps: Seq<Step>, events: Seq<Event>)
    requires
        batches_fit(steps),
    ensures
        ({
            let (pc, phase) = place_after(steps, events);
            let done = performed(steps, events);
            let action = action_at(steps, pc, phase);
            is_deed(action) ==> {
                &&& done.len() < all_actions(steps).len()
                &&& planned(action) == all_actions(steps)[done.len() as int]
            }
        }),
{
    scenario_is_done_in_order(steps, events);
    let (pc, phase) = place_after(steps, events);
    let done = performed(steps, events);
    let action = action_at(steps, pc, phase);
    if is_deed(action) {
        let step = steps[pc];
        let first = all_actions(steps.take(pc));
        let in_step = done_in_step(step, phase);
        assert(done == first + in_step);
        assert(in_step.len() < step_actions(step).len());
        assert(planned(action) == step_actions(step)[in_step.len() as int]);
        first_actions(steps, pc + 1);
        assert(steps.take(pc + 1).drop_last() =~= steps.take(pc));
        let more = all_actions(steps.take(pc + 1));
        assert(more == first + step_actions(step));
        assert(all_actions(steps).take(more.len() as int)[done.len() as int]
            == more[done.len() as int]);
    }
}

/// An action that was done, and a wait that was begun, counts as done: it is the latest of what was
/// performed, and the scenario does not fail by it.
pub proof fn done_actions_count(steps: Seq<Step>, events: Seq<Event>, full: usize, light: usize)
    requires
        batches_fit(steps),
    ensures
        ({
            let (pc, phase) = place_after(steps, events);
            let action = action_at(steps, pc, phase);
            let answer = if action == Action::BeginWait {
                Event::WaitBegun(full, light)
            } else {
                Event::Done
            };
            is_deed(action) ==> {
                &&& performed(steps, events.push(answer)) == performed(steps, events).push(
                    planned(action),
                )
                &&& !(place_after(steps, events.push(answer)).1 is Failed)
                &&& action == Action::BeginWait ==> place_after(steps, events.push(answer)) == (
                    pc,
                    Phase::Waiting(Wait { full, light, phase: WaitPhase::Sleeping }),
                )
            }
        }),
{
    scenario_is_done_in_order(steps, events);
    let (pc, phase) = place_after(steps, events);
    assert(events.push(Event::Done).drop_last() =~= events);
    assert(events.push(Event::WaitBegun(full, light)).drop_last() =~= events);
}

/// A scenario is finished as soon as all actions of all its steps were performed, unless it is in
/// a wait or failed.
pub proof fn scenario_finishes_when_all_is_done(steps: Seq<Step>, events: Seq<Event>)
    requires
        batches_fit(steps),
        performed(steps, events) == all_actions(steps),
    ensures
        ({
            let phase = place_after(steps, events).1;
            phase is Finished || phase is Waiting || phase is Failed
        }),
{
    scenario_is_done_in_order(steps, events);
    let (pc, phase) = place_after(steps, events);
    if !(phase is Finished || phase is Waiting || phase is Failed) {
        let step = steps[pc];
        first_actions(steps, pc + 1);
        assert(steps.take(pc + 1).drop_last() =~= steps.take(pc));
        assert(done_in_step(step, phase).len() < step_actions(step).len());
        assert(performed(steps, events).len() < all_actions(steps).len());
    }
}

/// What the failure of an action is called; nothing where its failure is not heard of.
pub open spec fn failure_by_action(action: Action) -> Option<Failure> {
    match action {
        Action::OpenDir(_) => Some(Failure::TestDir),
        Action::StartRuntime(_) => Some(Failure::Runtime),
        Action::BuildNode(_) => Some(Failure::NodeService),
        Action::AddReservedPeer(_) => Some(Failure::ReservedPeer),
        Action::SubmitExtrinsic(..) => Some(Failure::Extrinsic),
        Action::ShutdownRuntime => Some(Failure::Shutdown),
        Action::CloseDir => Some(Failure::RemoveDir),
        _ => None,
    }
}

/// A scenario fails where the action that it is at fails, with the failure of that action, and
/// where a wait has taken too long between two rounds; and it fails for no other reason.
pub proof fn scenario_fails_for_a_reason(steps: Seq<Step>, events: Seq<Event>, event: Event)
    requires
        batches_fit(steps),
        !(place_after(steps, events).1 is Failed),
    ensures
        ({
            let (pc, phase) = place_after(steps, events);
            let action = action_at(steps, pc, phase);
            let after = place_after(steps, events.push(event));
            match event {
                Event::Failed => after == match failure_by_action(action) {
                    Some(failure) => (pc, Phase::Failed(failure)),
                    None => (pc, phase),
                },
                Event::Elapsed => if action == Action::AwaitTick {
                    after == (pc, Phase::Failed(Failure::WaitedTooLong))
                } else {
                    after == (pc, phase)
                },
                _ => !(after.1 is Failed),
            }
        }),
{
    scenario_is_done_in_order(steps, events);
    in_a_wait_something_is_awaited(steps, events);
    assert(events.push(event).drop_last() =~= events);
}

/// A wait of a scenario is between two rounds or in one, and never over.
proof fn in_a_wait_something_is_awaited(steps: Seq<Step>, events: Seq<Event>)
    ensures
        place_after(steps, events).1 matches Phase::Waiting(wait) ==> {
            ||| wait.phase is Sleeping
            ||| wait.phase is AskingFull
            ||| wait.phase is AskingLight
        },
    decreases events.len(),
{
    if events.len() > 0 {
        in_a_wait_something_is_awaited(steps, events.drop_last());
    }
}

/// Whether an event is an answer to an action.
pub open spec fn answers_action(action: Action, event: Event) -> bool {
    match action {
        Action::Finish => false,
        Action::Fail(_) => false,
        Action::BeginWait => event is WaitBegun,
        Action::AwaitTick => event is Tick || event is TickFailed || event is Elapsed,
        Action::Count(..) => event is Counted,
        Action::MakeBlock(_) => event is Done,
        Action::DropNet => event is Done,
        Action::Pass => event is Done,
        _ => event is Done || event is Failed,
    }
}

/// An event that is no answer to what is done changes nothing.
pub proof fn stray_events_leave_scenario(steps: Seq<Step>, events: Seq<Event>, event: Event)
    requires
        batches_fit(steps),
    ensures
        ({
            let (pc, phase) = place_after(steps, events);
            !answers_action(action_at(steps, pc, phase), event) ==> {
                &&& place_after(steps, events.push(event)) == (pc, phase)
                &&& performed(steps, events.push(event)) == performed(steps, events)
            }
        }),
{
    scenario_is_done_in_order(steps, events);
    in_a_wait_something_is_awaited(steps, events);
    assert(events.push(event).drop_last() =~= events);
}

/// Where a step begins: a network begins with what it runs on, nodes and blocks with the first one,
/// and any other step with its action; after the last step comes the end.
pub proof fn steps_begin_at_their_beginning(steps: Seq<Step>, pc: int)
    requires
        0 <= pc,
    ensures
        pc >= steps.len() ==> entered(steps, pc) == Phase::Finished,
        pc < steps.len() && steps[pc] is NewNet ==> entered(steps, pc) == Phase::StartingRuntime,
        pc < steps.len() && steps[pc] is InsertNodes ==> entered(steps, pc) == Phase::Building(0),
        pc < steps.len() && steps[pc] is MakeBlocks ==> entered(steps, pc) == Phase::Making(0),
        pc < steps.len() && !(steps[pc] is NewNet || steps[pc] is InsertNodes
            || steps[pc] is MakeBlocks) ==> entered(steps, pc) == Phase::Doing,
{
}

/// How a scenario goes through a step whose action was done: after what a network runs on come its
/// nodes, one after the other, blocks are made one after the other, and after the last action comes
/// the beginning of the next step.
pub proof fn done_actions_lead_on(steps: Seq<Step>, pc: int, phase: Phase)
    requires
        batches_fit(steps),
        0 <= pc < steps.len(),
        fits_step(steps[pc], phase),
    ensures
        ({
            let after = next_place(steps, pc, phase, Event::Done);
            let next = (pc + 1, entered(steps, pc + 1));
            match phase {
                Phase::StartingRuntime => after == (pc, Phase::Building(0)),
                Phase::Building(built) => if built + 1 < batch_size(steps[pc]) {
                    after == (pc, Phase::Building((built + 1) as usize))
                } else {
                    after == next
                },
                Phase::Making(made) => if made + 1 < steps[pc]->count {
                    after == (pc, Phase::Making((made + 1) as usize))
                } else {
                    after == next
                },
                Phase::Submitting(_) => after == next,
                Phase::Doing => if steps[pc] is RunUntilAllFull || steps[pc] is SubmitExtrinsic {
                    after == (pc, phase)
                } else {
                    after == next
                },
                _ => after == (pc, phase),
            }
        }),
{
}

/// Where a scenario is after its wait went to another phase: past the step where all nodes are
/// ready, failed where it took too long, and else still in the wait.
pub open spec fn after_wait(steps: Seq<Step>, pc: int, wait: Wait, phase: WaitPhase) -> (int, Phase) {
    match phase {
        WaitPhase::Ready => (pc + 1, entered(steps, pc + 1)),
        WaitPhase::TimedOut => (pc, Phase::Failed(Failure::WaitedTooLong)),
        _ => (pc, Phase::Waiting(Wait { full: wait.full, light: wait.light, phase })),
    }
}

/// How a scenario goes through a wait: between two rounds it waits for the clock, in a round it
/// counts at the node that is asked what the condition for nodes of its kind names, and the count
/// answers for the node by whether it meets that condition. The wait goes on by what it hears.
pub proof fn waits_count_and_compare(
    steps: Seq<Step>,
    pc: int,
    wait: Wait,
    i: usize,
    counted: u128,
)
    requires
        0 <= pc < steps.len(),
        steps[pc] is RunUntilAllFull,
    ensures
        ({
            let full_ready = steps[pc]->full_ready;
            let light_ready = steps[pc]->light_ready;
            let full = wait.full as nat;
            let light = wait.light as nat;
            let phase = Phase::Waiting(wait);
            &&& wait.phase == WaitPhase::Sleeping ==> {
                &&& action_at(steps, pc, phase) == Action::AwaitTick
                &&& next_place(steps, pc, phase, Event::Tick) == after_wait(
                    steps,
                    pc,
                    wait,
                    next_wait(full, light, wait.phase, WaitEvent::Tick),
                )
                &&& next_place(steps, pc, phase, Event::TickFailed) == after_wait(
                    steps,
                    pc,
                    wait,
                    next_wait(full, light, wait.phase, WaitEvent::TickFailed),
                )
                &&& next_place(steps, pc, phase, Event::Elapsed) == after_wait(
                    steps,
                    pc,
                    wait,
                    next_wait(full, light, wait.phase, WaitEvent::Elapsed),
                )
            }
            &&& wait.phase == WaitPhase::AskingFull(i) ==> {
                &&& action_at(steps, pc, phase) == Action::Count(
                    NodeRef::Full(i),
                    full_ready.spec_quantity(),
                )
                &&& next_place(steps, pc, phase, Event::Counted(counted)) == after_wait(
                    steps,
                    pc,
                    wait,
                    next_wait(
                        full,
                        light,
                        wait.phase,
                        WaitEvent::Answer(full_ready.spec_holds(counted as int)),
                    ),
                )
            }
            &&& wait.phase == WaitPhase::AskingLight(i) ==> {
                &&& action_at(steps, pc, phase) == Action::Count(
                    NodeRef::Light(i),
                    light_ready.spec_quantity(),
                )
                &&& next_place(steps, pc, phase, Event::Counted(counted)) == after_wait(
                    steps,
                    pc,
                    wait,
                    next_wait(
                        full,
                        light,
                        wait.phase,
                        WaitEvent::Answer(light_ready.spec_holds(counted as int)),
                    ),
                )
            }
        }),
{
}

/// As many nodes of each kind join in a step as it says, and none in a step that adds no nodes.
pub proof fn joining_nodes_are_those_of_the_step(steps: Seq<Step>, pc: int)
    ensures
        ({
            let joining = joining_at(steps, pc);
            &&& 0 <= pc < steps.len() ==> {
                &&& steps[pc] is NewNet ==> joining == (Joining {
                    authorities: steps[pc]->NewNet_authorities,
                    full: steps[pc]->NewNet_full,
                    light: steps[pc]->NewNet_light,
                })
                &&& steps[pc] is InsertNodes ==> joining == (Joining {
                    authorities: 0,
                    full: steps[pc]->InsertNodes_full,
                    light: steps[pc]->InsertNodes_light,
                })
                &&& !(steps[pc] is NewNet || steps[pc] is InsertNodes) ==> joining == (Joining {
                    authorities: 0,
                    full: 0,
                    light: 0,
                })
                &&& joining.authorities + joining.full + joining.light == batch_size(steps[pc])
            }
            &&& pc >= steps.len() ==> joining == (Joining { authorities: 0, full: 0, light: 0 })
        }),
{
}

/// Whether the last of some events ended the wait of the step with number `pc` by a round over so
/// many nodes, in which every count of a full node was at least `full_count`, every count of a light
/// node at least `light_count`, and all were just that where `exact`; or by a clock that failed.
pub open spec fn passed_with(
    steps: Seq<Step>,
    events: Seq<Event>,
    pc: int,
    full: usize,
    light: usize,
    full_count: int,
    light_count: int,
    exact: bool,
) -> bool {
    let counts = round_counts(steps, events);
    &&& events.len() > 0
    &&& wait_begun(steps, events, pc, full, light)
    &&& place_after(steps, events.drop_last()).0 == pc
    &&& place_after(steps, events).0 == pc + 1
    &&& events.last() == Event::TickFailed || {
        &&& counts.len() == full + light
        &&& forall|i: int|
            0 <= i < full ==> (#[trigger] counts[i]).0 == NodeRef::Full(i as usize) && counts[i].1
                >= full_count && (exact ==> counts[i].1 == full_count)
        &&& forall|i: int|
            full <= i < full + light ==> (#[trigger] counts[i]).0 == NodeRef::Light(
                (i - full) as usize,
            ) && counts[i].1 >= light_count && (exact ==> counts[i].1 == light_count)
    }
}

/// The sync test is past its first wait only by a round in which the best block of every node was
/// counted as 512, unless the clock failed.
pub proof fn sync_goes_on_at_512_blocks(events: Seq<Event>)
    requires
        batches_fit(sync_steps()),
        place_after(sync_steps(), events).0 > 22,
    ensures
        exists|m: int, full: usize, light: usize|
            0 <= m <= events.len() && #[trigger] passed_with(
                sync_steps(),
                events.take(m),
                22,
                full,
                light,
                512,
                512,
                true,
            ),
{
    let steps = sync_steps();
    sync_step_by_step();
    passed_wait_found_all_ready(steps, events, 22);
    let (m, full, light) = choose|m: int, full: usize, light: usize|
        0 <= m <= events.len() && #[trigger] wait_ended(steps, events.take(m), 22, full, light);
    assert(passed_with(steps, events.take(m), 22, full, light, 512, 512, true));
}

/// The consensus test is past its last wait, and so at its end, only by a round in which every full
/// node had made ten blocks final and every light node knew of ten, unless the clock failed; and
/// past the wait before more nodes join only by one with five.
pub proof fn consensus_ends_at_ten_blocks(authorities: usize, events: Seq<Event>)
    requires
        batches_fit(consensus_steps(authorities)),
    ensures
        ({
            let steps = consensus_steps(authorities);
            let others = other_authorities(authorities);
            &&& place_after(steps, events).0 > 34 + others ==> exists|
                m: int,
                full: usize,
                light: usize,
            |
                0 <= m <= events.len() && #[trigger] passed_with(
                    steps,
                    events.take(m),
                    34 + others,
                    full,
                    light,
                    10,
                    10,
                    false,
                )
            &&& place_after(steps, events).0 > 12 + others ==> exists|
                m: int,
                full: usize,
                light: usize,
            |
                0 <= m <= events.len() && #[trigger] passed_with(
                    steps,
                    events.take(m),
                    12 + others,
                    full,
                    light,
                    5,
                    5,
                    false,
                )
        }),
{
    let steps = consensus_steps(authorities);
    let others = other_authorities(authorities);
    consensus_step_by_step(authorities);
    assert(steps.last() == steps[34 + others]);
    if place_after(steps, events).0 > 34 + others {
        passed_wait_found_all_ready(steps, events, 34 + others);
        let (m, full, light) = choose|m: int, full: usize, light: usize|
            0 <= m <= events.len() && #[trigger] wait_ended(
                steps,
                events.take(m),
                34 + others,
                full,
                light,
            );
        assert(passed_with(steps, events.take(m), 34 + others, full, light, 10, 10, false));
    }
    if place_after(steps, events).0 > 12 + others {
        passed_wait_found_all_ready(steps, events, 12 + others);
        let (m, full, light) = choose|m: int, full: usize, light: usize|
            0 <= m <= events.len() && #[trigger] wait_ended(
                steps,
                events.take(m),
                12 + others,
                full,
                light,
            );
        assert(passed_with(steps, events.take(m), 12 + others, full, light, 5, 5, false));
    }
}

/// The connectivity test is past each of its waits only by a round in which every full node had
/// nine connections and every light node five, or nine where light nodes connect to each other,
/// unless the clock failed.
pub proof fn connectivity_goes_on_when_connected(
    interconnected: bool,
    pc: int,
    events: Seq<Event>,
    light_count: int,
)
    requires
        interconnected ==> light_count == 9,
        !interconnected ==> light_count == 5,
        batches_fit(connectivity_steps(interconnected)),
        pc == 11 || pc == 25,
        place_after(connectivity_steps(interconnected), events).0 > pc,
    ensures
        exists|m: int, full: usize, light: usize|
            0 <= m <= events.len() && #[trigger] passed_with(
                connectivity_steps(interconnected),
                events.take(m),
                pc,
                full,
                light,
                9,
                light_count,
                true,
            ),
{
    let steps = connectivity_steps(interconnected);
    connectivity_step_by_step(interconnected);
    passed_wait_found_all_ready(steps, events, pc);
    let (m, full, light) = choose|m: int, full: usize, light: usize|
        0 <= m <= events.len() && #[trigger] wait_ended(steps, events.take(m), pc, full, light);
    assert(passed_with(
        steps,
        events.take(m),
        pc,
        full,
        light,
        9,
                light_count,
                true,
    ));
}

/// A transaction is submitted in two actions: the number of the node's best block is counted, and
/// the transaction is submitted to that node at the block with that number, whatever it is.
pub proof fn submission_follows_the_count(
    steps: Seq<Step>,
    pc: int,
    node: NodeRef,
    number: u128,
)
    requires
        0 <= pc < steps.len(),
        steps[pc] == Step::SubmitExtrinsic(node),
    ensures
        entered(steps, pc) == Phase::Doing,
        action_at(steps, pc, Phase::Doing) == Action::Count(node, Some(Quantity::BestNumber)),
        next_place(steps, pc, Phase::Doing, Event::Counted(number)) == (
            pc,
            Phase::Submitting(number),
        ),
        action_at(steps, pc, Phase::Submitting(number)) == Action::SubmitExtrinsic(node, number),
{
}

/// A scenario that is over is reported as what it is: one that failed with its failure, and one that
/// came to its end as finished; and no other one is reported to be over.
pub proof fn ends_are_reported(steps: Seq<Step>, events: Seq<Event>, failure: Failure)
    requires
        batches_fit(steps),
    ensures
        ({
            let (pc, phase) = place_after(steps, events);
            let action = action_at(steps, pc, phase);
            &&& phase == Phase::Failed(failure) <==> action == Action::Fail(failure)
            &&& phase == Phase::Finished <==> action == Action::Finish
        }),
{
    scenario_is_done_in_order(steps, events);
}

} // verus!
