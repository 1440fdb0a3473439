use crate::call_executor::{
    first_action, first_phase, given_or_default, initializes, next_phase, version_of, Action, BlockId, Error, Event,
    InitializeBlock, Phase,
};
use vstd::prelude::*;

verus! {

/// How a run is set up: its block, whether it initializes the runtime, and whether it is
/// recorded.
pub struct Setup {
    /// The block.
    pub at: BlockId,
    /// Whether the runtime is initialized first.
    pub initialize: bool,
    /// Whether the execution is recorded.
    pub recorded: bool,
}

/// Where a run stands after some events.
pub open spec fn phase_after<S, O, X>(setup: Setup, events: Seq<Event<S, O, X>>) -> Phase<S, O, X>
    decreases events.len(),
{
    if events.len() == 0 {
        first_phase(setup.initialize)
    } else {
        next_phase(
            setup.at,
            setup.recorded,
            phase_after(setup, events.drop_last()),
            events.last(),
        ).0
    }
}

/// What a run has asked its caller to do by the time that some events have come in.
pub open spec fn actions_after<S, O, X>(setup: Setup, events: Seq<Event<S, O, X>>) -> Seq<Action<S>>
    decreases events.len(),
{
    if events.len() == 0 {
        seq![first_action(setup.at, setup.initialize)]
    } else {
        let before = actions_after(setup, events.drop_last());
        let action = next_phase(
            setup.at,
            setup.recorded,
            phase_after(setup, events.drop_last()),
            events.last(),
        ).1;
        if action is Rest {
            before
        } else {
            before.push(action)
        }
    }
}

/// Those of the events that moved the run.
pub open spec fn answers<S, O, X>(setup: Setup, events: Seq<Event<S, O, X>>) -> Seq<Event<S, O, X>>
    decreases events.len(),
{
    if events.len() == 0 {
        Seq::empty()
    } else {
        let before = answers(setup, events.drop_last());
        if phase_after(setup, events) == phase_after(setup, events.drop_last()) {
            before
        } else {
            before.push(events.last())
        }
    }
}

/// The answers of a run that has reached the point where it asks for the state.
pub open spec fn initialized<S, O, X>(setup: Setup) -> Seq<Event<S, O, X>> {
    if setup.initialize {
        seq![Event::Initialized(Ok(()))]
    } else {
        Seq::empty()
    }
}

/// The actions up to the one that asks for the state.
pub open spec fn asked_state<S>(setup: Setup) -> Seq<Action<S>> {
    if setup.initialize {
        seq![Action::Initialize, Action::OpenState(setup.at)]
    } else {
        seq![Action::OpenState(setup.at)]
    }
}

/// The answers of a run that has reached the point where it executes on `state`.
pub open spec fn opened<S, O, X>(setup: Setup, state: S) -> Seq<Event<S, O, X>> {
    let opened = initialized(setup).push(Event::StateOpened(Ok(state)));
    if setup.recorded {
        opened.push(Event::TrieOpened(true))
    } else {
        opened
    }
}

/// The actions up to the execution.
pub open spec fn asked_execution<S>(setup: Setup) -> Seq<Action<S>> {
    if setup.recorded {
        asked_state(setup).push(Action::OpenTrie).push(Action::Execute)
    } else {
        asked_state(setup).push(Action::Execute)
    }
}

/// A run that got `result` out of `state` and has yet to hear whether the backend took the state
/// back.
pub open spec fn executed<S, O, X>(
    setup: Setup,
    answers: Seq<Event<S, O, X>>,
    actions: Seq<Action<S>>,
    state: S,
    result: O,
) -> bool {
    &&& answers == opened::<S, O, X>(setup, state).push(Event::Executed(Ok(result)))
    &&& actions == asked_execution::<S>(setup).push(Action::DestroyState(state))
}

/// A run that succeeded: every action was answered well, and the state that the backend gave was
/// handed back to it.
pub open spec fn succeeded<S, O, X>(
    setup: Setup,
    answers: Seq<Event<S, O, X>>,
    actions: Seq<Action<S>>,
    state: S,
    result: O,
) -> bool {
    &&& answers.len() > 0
    &&& answers.last() == Event::<S, O, X>::StateDestroyed(Ok(()))
    &&& executed(setup, answers.drop_last(), actions, state, result)
}

/// A run that got `result` out of some state and has yet to hear whether it was taken back.
pub open spec fn some_executed<S, O, X>(
    setup: Setup,
    answers: Seq<Event<S, O, X>>,
    actions: Seq<Action<S>>,
    result: O,
) -> bool {
    exists|state: S| #[trigger] executed(setup, answers, actions, state, result)
}

/// A run that succeeded with `result`, on some state.
pub open spec fn some_succeeded<S, O, X>(
    setup: Setup,
    answers: Seq<Event<S, O, X>>,
    actions: Seq<Action<S>>,
    result: O,
) -> bool {
    exists|state: S| #[trigger] succeeded(setup, answers, actions, state, result)
}

/// A run that failed: the last answer is the failure that is reported, and nothing was done after
/// it.
pub open spec fn failed<S, O, X>(
    setup: Setup,
    answers: Seq<Event<S, O, X>>,
    actions: Seq<Action<S>>,
    error: Error<X>,
) -> bool {
    let before = answers.drop_last();
    &&& answers.len() > 0
    &&& match answers.last() {
        Event::Initialized(Err(x)) => {
            &&& error == Error::Outside(x)
            &&& setup.initialize
            &&& before == Seq::<Event<S, O, X>>::empty()
            &&& actions == seq![Action::<S>::Initialize]
        },
        Event::StateOpened(Err(x)) => {
            &&& error == Error::Outside(x)
            &&& before == initialized::<S, O, X>(setup)
            &&& actions == asked_state::<S>(setup)
        },
        Event::TrieOpened(is_trie) => {
            &&& !is_trie
            &&& error == Error::<X>::UnableToGenerateProof
            &&& setup.recorded
            &&& exists|state: S|
                before == #[trigger] initialized::<S, O, X>(setup).push(
                    Event::StateOpened(Ok(state)),
                )
            &&& actions == asked_state::<S>(setup).push(Action::OpenTrie)
        },
        Event::Executed(Err(x)) => {
            &&& error == Error::Outside(x)
            &&& exists|state: S| before == #[trigger] opened::<S, O, X>(setup, state)
            &&& actions == asked_execution::<S>(setup)
        },
        Event::StateDestroyed(Err(x)) => {
            &&& error == Error::Outside(x)
            &&& exists|state: S, result: O| #[trigger]
                executed(setup, before, actions, state, result)
        },
        _ => false,
    }
}

/// What the answers and the actions of a run are, in each phase.
pub open spec fn explained<S, O, X>(
    setup: Setup,
    phase: Phase<S, O, X>,
    answers: Seq<Event<S, O, X>>,
    actions: Seq<Action<S>>,
) -> bool {
    match phase {
        Phase::Initializing => {
            &&& setup.initialize
            &&& answers == Seq::<Event<S, O, X>>::empty()
            &&& actions == seq![Action::<S>::Initialize]
        },
        Phase::Opening => {
            &&& answers == initialized::<S, O, X>(setup)
            &&& actions == asked_state::<S>(setup)
        },
        Phase::OpeningTrie(state) => {
            &&& setup.recorded
            &&& answers == initialized::<S, O, X>(setup).push(Event::StateOpened(Ok(state)))
            &&& actions == asked_state::<S>(setup).push(Action::OpenTrie)
        },
        Phase::Executing(state) => {
            &&& answers == opened::<S, O, X>(setup, state)
            &&& actions == asked_execution::<S>(setup)
        },
        Phase::Destroying(result) => some_executed(setup, answers, actions, result),
        Phase::Finished(Ok(result)) => some_succeeded(setup, answers, actions, result),
        Phase::Finished(Err(error)) => failed(setup, answers, actions, error),
    }
}

/// Whatever events come in, the answers and the actions of a run are those of its phase. In
/// particular a run succeeds only when each of its actions was answered well and the backend took
/// back the very state that it gave, and a run that fails does nothing after the failure that it
/// reports.
pub proof fn run_is_explained<S, O, X>(setup: Setup, events: Seq<Event<S, O, X>>)
    ensures
        explained(
            setup,
            phase_after(setup, events),
            answers(setup, events),
            actions_after(setup, events),
        ),
    decreases events.len(),
{
    if events.len() > 0 {
        let earlier = events.drop_last();
        run_is_explained(setup, earlier);
        let phase = phase_after(setup, earlier);
        let heard = answers(setup, earlier);
        let done = actions_after(setup, earlier);
        let event = events.last();
        let heard_now = answers(setup, events);
        let done_now = actions_after(setup, events);
        let phase_now = phase_after(setup, events);
        if phase_now != phase {
            assert(heard_now.drop_last() =~= heard);
            match (phase, event) {
                (Phase::Destroying(result), Event::StateDestroyed(answer)) => {
                    let state = choose|state: S| #[trigger]
                        executed(setup, heard, done, state, result);
                    assert(executed(setup, heard_now.drop_last(), done_now, state, result));
                    match answer {
                        Ok(unit) => {
                            assert(unit == ());
                            assert(succeeded(setup, heard_now, done_now, state, result));
                        },
                        Err(x) => {
                            assert(failed(setup, heard_now, done_now, Error::Outside(x)));
                        },
                    }
                },
                (Phase::Initializing, Event::Initialized(Ok(unit))) => {
                    assert(unit == ());
                    assert(heard_now =~= initialized::<S, O, X>(setup));
                    assert(done_now =~= asked_state::<S>(setup));
                },
                (Phase::OpeningTrie(state), Event::TrieOpened(is_trie)) => {
                    assert(heard == initialized::<S, O, X>(setup).push(
                        Event::StateOpened(Ok(state)),
                    ));
                    if is_trie {
                        assert(heard_now =~= opened::<S, O, X>(setup, state));
                        assert(done_now =~= asked_execution::<S>(setup));
                    } else {
                        assert(failed(setup, heard_now, done_now, Error::UnableToGenerateProof));
                    }
                },
                (Phase::Executing(state), Event::Executed(Ok(result))) => {
                    assert(executed(setup, heard_now, done_now, state, result));
                },
                (Phase::Executing(state), Event::Executed(Err(x))) => {
                    assert(heard == opened::<S, O, X>(setup, state));
                    assert(failed(setup, heard_now, done_now, Error::Outside(x)));
                },
                (Phase::Initializing, Event::Initialized(Err(x))) => {
                    assert(failed(setup, heard_now, done_now, Error::Outside(x)));
                },
                (Phase::Opening, Event::StateOpened(Err(x))) => {
                    assert(failed(setup, heard_now, done_now, Error::Outside(x)));
                },
                _ => {},
            }
        }
    }
}

/// Once a run is over, no event changes its outcome or makes it act.
pub proof fn finished_is_final<S, O, X>(
    setup: Setup,
    outcome: Result<O, Error<X>>,
    event: Event<S, O, X>,
)
    ensures
        next_phase(setup.at, setup.recorded, Phase::<S, O, X>::Finished(outcome), event) == (
            Phase::<S, O, X>::Finished(outcome),
            Action::<S>::Rest,
        ),
{
}

/// Whether an event answers what a run in this phase waits for.
pub open spec fn is_answer<S, O, X>(phase: Phase<S, O, X>, event: Event<S, O, X>) -> bool {
    match phase {
        Phase::Initializing => event is Initialized,
        Phase::Opening => event is StateOpened,
        Phase::OpeningTrie(_) => event is TrieOpened,
        Phase::Executing(_) => event is Executed,
        Phase::Destroying(_) => event is StateDestroyed,
        Phase::Finished(_) => false,
    }
}

/// How many answers a run in this phase still waits for at most.
pub open spec fn answers_left<S, O, X>(phase: Phase<S, O, X>) -> nat {
    match phase {
        Phase::Initializing => 5,
        Phase::Opening => 4,
        Phase::OpeningTrie(_) => 3,
        Phase::Executing(_) => 2,
        Phase::Destroying(_) => 1,
        Phase::Finished(_) => 0,
    }
}

/// Every answer brings a run nearer to its end, and nothing else moves it: a run is over after at
/// most five answers.
pub proof fn answers_move_on<S, O, X>(setup: Setup, phase: Phase<S, O, X>, event: Event<S, O, X>)
    ensures
        is_answer(phase, event) ==> answers_left(
            next_phase(setup.at, setup.recorded, phase, event).0,
        ) < answers_left(phase),
        !is_answer(phase, event) ==> next_phase(setup.at, setup.recorded, phase, event) == (
            phase,
            Action::<S>::Rest,
        ),
{
}

/// Some actions without those that see whether the state is a trie.
pub open spec fn without_trie<S>(actions: Seq<Action<S>>) -> Seq<Action<S>>
    decreases actions.len(),
{
    if actions.len() == 0 {
        Seq::empty()
    } else if actions.last() is OpenTrie {
        without_trie(actions.drop_last())
    } else {
        without_trie(actions.drop_last()).push(actions.last())
    }
}

/// One more action.
proof fn without_trie_push<S>(actions: Seq<Action<S>>, action: Action<S>)
    ensures
        without_trie(actions.push(action)) == if action is OpenTrie {
            without_trie(actions)
        } else {
            without_trie(actions).push(action)
        },
{
    assert(actions.push(action).drop_last() =~= actions);
}

/// Recording leaves a run as it is: until the state is there, and again once it was found to be a
/// trie, a recorded run is where the same run without a recorder is after the same events, whatever
/// these are, and has done the same but for seeing whether the state is a trie. In particular both
/// end with the same outcome.
pub proof fn recording_changes_no_outcome<S, O, X>(
    at: BlockId,
    initialize: bool,
    opening: Seq<Event<S, O, X>>,
    state: S,
    rest: Seq<Event<S, O, X>>,
)
    requires
        phase_after(Setup { at, initialize, recorded: false }, opening) == Phase::<S, O, X>::Opening,
    ensures
        ({
            let plain = Setup { at, initialize, recorded: false };
            let recorded = Setup { at, initialize, recorded: true };
            let opened = opening.push(Event::StateOpened(Ok(state)));
            let found = opened.push(Event::TrieOpened(true));
            &&& phase_after(recorded, opening) == phase_after(plain, opening)
            &&& actions_after(recorded, opening) == actions_after(plain, opening)
            &&& phase_after(recorded, found + rest) == phase_after(plain, opened + rest)
            &&& without_trie(actions_after(recorded, found + rest)) == actions_after(
                plain,
                opened + rest,
            )
        }),
    decreases rest.len(),
{
    let plain = Setup { at, initialize, recorded: false };
    let recorded = Setup { at, initialize, recorded: true };
    let opened = opening.push(Event::StateOpened(Ok(state)));
    let found = opened.push(Event::TrieOpened(true));
    if rest.len() == 0 {
        alike_until_opened(at, initialize, opening);
        assert(opened.drop_last() =~= opening);
        assert(found.drop_last() =~= opened);
        assert(found + rest =~= found);
        assert(opened + rest =~= opened);
        let before = actions_after(plain, opening);
        without_trie_push(before, Action::OpenTrie);
        without_trie_push(before.push(Action::OpenTrie), Action::Execute);
        assert(phase_after(recorded, opened) == Phase::<S, O, X>::OpeningTrie(state));
        assert(phase_after(recorded, found) == Phase::<S, O, X>::Executing(state));
        assert(phase_after(plain, opened) == Phase::<S, O, X>::Executing(state));
        assert(actions_after(recorded, opened) == before.push(Action::OpenTrie));
        assert(actions_after(recorded, found) == before.push(Action::OpenTrie).push(
            Action::Execute,
        ));
        assert(actions_after(plain, opened) == before.push(Action::Execute));
    } else {
        let event = rest.last();
        recording_changes_no_outcome(at, initialize, opening, state, rest.drop_last());
        assert((found + rest).drop_last() =~= found + rest.drop_last());
        assert((opened + rest).drop_last() =~= opened + rest.drop_last());
        assert((found + rest).last() == event && (opened + rest).last() == event);
        past_opening(plain, opening, state, rest.drop_last());
        let action = next_phase(
            at,
            true,
            phase_after(recorded, found + rest.drop_last()),
            event,
        ).1;
        without_trie_push(actions_after(recorded, found + rest.drop_last()), action);
    }
}

/// Up to the point where the state is asked for, a run does not depend on whether it is recorded,
/// and has not seen whether a state is a trie.
proof fn alike_until_opened<S, O, X>(at: BlockId, initialize: bool, events: Seq<Event<S, O, X>>)
    requires
        phase_after(Setup { at, initialize, recorded: false }, events) is Initializing
            || phase_after(Setup { at, initialize, recorded: false }, events) is Opening,
    ensures
        ({
            let plain = Setup { at, initialize, recorded: false };
            let recorded = Setup { at, initialize, recorded: true };
            &&& phase_after(recorded, events) == phase_after(plain, events)
            &&& actions_after(recorded, events) == actions_after(plain, events)
            &&& without_trie(actions_after(plain, events)) == actions_after(plain, events)
        }),
    decreases events.len(),
{
    let plain = Setup { at, initialize, recorded: false };
    if events.len() == 0 {
        let first = first_action::<S>(at, initialize);
        assert(seq![first] =~= Seq::<Action<S>>::empty().push(first));
        without_trie_push(Seq::<Action<S>>::empty(), first);
    } else {
        alike_until_opened(at, initialize, events.drop_last());
        let action = next_phase(
            at,
            false,
            phase_after(plain, events.drop_last()),
            events.last(),
        ).1;
        without_trie_push(actions_after(plain, events.drop_last()), action);
    }
}

/// Once its state was opened, a run without a recorder is past opening it.
proof fn past_opening<S, O, X>(
    plain: Setup,
    opening: Seq<Event<S, O, X>>,
    state: S,
    rest: Seq<Event<S, O, X>>,
)
    requires
        !plain.recorded,
        phase_after(plain, opening) == Phase::<S, O, X>::Opening,
    ensures
        ({
            let phase = phase_after(plain, opening.push(Event::StateOpened(Ok(state))) + rest);
            phase is Executing || phase is Destroying || phase is Finished
        }),
    decreases rest.len(),
{
    let opened = opening.push(Event::StateOpened(Ok(state)));
    if rest.len() == 0 {
        assert(opened + rest =~= opened);
        assert(opened.drop_last() =~= opening);
    } else {
        past_opening(plain, opening, state, rest.drop_last());
        assert((opened + rest).drop_last() =~= opened + rest.drop_last());
    }
}

/// The runtime is initialized at a block only where it was not last initialized at that block,
/// and never where initialization is to be skipped.
pub proof fn initialized_once(at: BlockId)
    ensures
        !initializes(InitializeBlock::Do(Some(at)), at),
        !initializes(InitializeBlock::Skip, at),
        initializes(InitializeBlock::Do(None), at),
        forall|last: BlockId|
            last != at ==> #[trigger] initializes(InitializeBlock::Do(Some(last)), at),
{
}

/// That the code has no version is reported only after the backend took the state back: where
/// that fails, its failure is reported instead.
pub proof fn missing_version_comes_last<S, V, X>(setup: Setup, events: Seq<Event<S, Option<V>, X>>)
    requires
        phase_after(setup, events) is Finished,
        version_of(phase_after(setup, events)->Finished_0) == Err::<V, Error<X>>(
            Error::VersionInvalid,
        ),
    ensures
        some_succeeded(
            setup,
            answers(setup, events),
            actions_after(setup, events),
            None::<V>,
        ),
{
    run_is_explained(setup, events);
}

/// The answer to a lookup of the version is the version that was found; where none was found that
/// is reported, and any other failure is passed on.
pub proof fn found_version_is_answered<V, X>(version: V, error: Error<X>)
    ensures
        version_of(Ok::<Option<V>, Error<X>>(Some(version))) == Ok::<V, Error<X>>(version),
        version_of(Ok::<Option<V>, Error<X>>(None)) == Err::<V, Error<X>>(Error::VersionInvalid),
        version_of(Err::<Option<V>, Error<X>>(error)) == Err::<V, Error<X>>(error),
{
}

/// An execution uses the very extensions that it was given, and only where none were given what
/// `Default::default` makes.
pub proof fn given_extensions_are_used<E: Default>(given: E, used: E)
    ensures
        given_or_default(Some(given), used) <==> used == given,
        given_or_default(None, used) <==> E::default.ensures((), used),
{
}

/// A run that gets good answers to all it asks succeeds with the result of the execution, and asks
/// in this order: to initialize the runtime where that is called for, to open the state at the
/// block, to see whether it is a trie where the execution is recorded, to execute, and to hand back
/// that very state.
pub proof fn good_answers_succeed<S, O, X>(
    at: BlockId,
    initialize: bool,
    recorded: bool,
    state: S,
    result: O,
)
    ensures
        ({
            let setup = Setup { at, initialize, recorded };
            let first = if initialize {
                seq![Event::<S, O, X>::Initialized(Ok(()))]
            } else {
                Seq::empty()
            };
            let trie = if recorded {
                seq![Event::<S, O, X>::TrieOpened(true)]
            } else {
                Seq::empty()
            };
            let events = first + seq![Event::<S, O, X>::StateOpened(Ok(state))] + trie + seq![
                Event::<S, O, X>::Executed(Ok(result)),
                Event::<S, O, X>::StateDestroyed(Ok(())),
            ];
            let asked = (if initialize {
                seq![Action::<S>::Initialize]
            } else {
                Seq::empty()
            }) + seq![Action::<S>::OpenState(at)] + (if recorded {
                seq![Action::<S>::OpenTrie]
            } else {
                Seq::empty()
            }) + seq![Action::<S>::Execute, Action::<S>::DestroyState(state)];
            &&& phase_after(setup, events) == Phase::<S, O, X>::Finished(Ok(result))
            &&& actions_after(setup, events) == asked
        }),
{
    let setup = Setup { at, initialize, recorded };
    let e0 = Seq::<Event<S, O, X>>::empty();
    let e1 = if initialize {
        e0.push(Event::Initialized(Ok(())))
    } else {
        e0
    };
    let e2 = e1.push(Event::StateOpened(Ok(state)));
    let e3 = if recorded {
        e2.push(Event::TrieOpened(true))
    } else {
        e2
    };
    let e4 = e3.push(Event::Executed(Ok(result)));
    let e5 = e4.push(Event::StateDestroyed(Ok(())));
    let a1 = if initialize {
        seq![Action::<S>::Initialize, Action::OpenState(at)]
    } else {
        seq![Action::<S>::OpenState(at)]
    };
    let a3 = if recorded {
        a1.push(Action::OpenTrie).push(Action::Execute)
    } else {
        a1.push(Action::Execute)
    };
    assert(e5.drop_last() =~= e4);
    assert(e4.drop_last() =~= e3);
    assert(e2.drop_last() =~= e1);
    if initialize {
        assert(e1.drop_last() =~= e0);
        assert(phase_after(setup, e0) == Phase::<S, O, X>::Initializing);
        assert(actions_after(setup, e0) == seq![Action::<S>::Initialize]);
        assert(e1.last() == Event::<S, O, X>::Initialized(Ok(())));
        assert(actions_after(setup, e1) == seq![Action::<S>::Initialize].push(
            Action::OpenState(at),
        ));
        assert(actions_after(setup, e1) =~= a1);
    } else {
        assert(actions_after(setup, e1) =~= a1);
    }
    assert(phase_after(setup, e1) == Phase::<S, O, X>::Opening);
    if recorded {
        assert(e3.drop_last() =~= e2);
        assert(phase_after(setup, e2) == Phase::<S, O, X>::OpeningTrie(state));
        assert(actions_after(setup, e2) == a1.push(Action::OpenTrie));
    }
    assert(phase_after(setup, e3) == Phase::<S, O, X>::Executing(state));
    assert(actions_after(setup, e3) =~= a3);
    assert(phase_after(setup, e4) == Phase::<S, O, X>::Destroying(result));
    assert(actions_after(setup, e4) == a3.push(Action::DestroyState(state)));
    assert(phase_after(setup, e5) == Phase::<S, O, X>::Finished(Ok(result)));
    assert(actions_after(setup, e5) == actions_after(setup, e4));
    let first = if initialize {
        seq![Event::<S, O, X>::Initialized(Ok(()))]
    } else {
        Seq::empty()
    };
    let trie = if recorded {
        seq![Event::<S, O, X>::TrieOpened(true)]
    } else {
        Seq::empty()
    };
    assert(first + seq![Event::<S, O, X>::StateOpened(Ok(state))] + trie + seq![
        Event::<S, O, X>::Executed(Ok(result)),
        Event::<S, O, X>::StateDestroyed(Ok(())),
    ] =~= e5);
}

/// Each failure of an action ends a run with that failure, and a state that is no trie ends a
/// recorded run as one that cannot be proved.
pub proof fn each_failure_ends_run<S, O, X>(
    at: BlockId,
    recorded: bool,
    state: S,
    result: O,
    x: X,
)
    ensures
        next_phase(
            at,
            recorded,
            Phase::<S, O, X>::Initializing,
            Event::Initialized(Err(x)),
        ).0 == Phase::<S, O, X>::Finished(Err(Error::Outside(x))),
        next_phase(at, recorded, Phase::<S, O, X>::Opening, Event::StateOpened(Err(x))).0
            == Phase::<S, O, X>::Finished(Err(Error::Outside(x))),
        next_phase(
            at,
            recorded,
            Phase::<S, O, X>::OpeningTrie(state),
            Event::TrieOpened(false),
        ).0 == Phase::<S, O, X>::Finished(Err(Error::UnableToGenerateProof)),
        next_phase(at, recorded, Phase::<S, O, X>::Executing(state), Event::Executed(Err(x))).0
            == Phase::<S, O, X>::Finished(Err(Error::Outside(x))),
        next_phase(
            at,
            recorded,
            Phase::<S, O, X>::Destroying(result),
            Event::StateDestroyed(Err(x)),
        ).0 == Phase::<S, O, X>::Finished(Err(Error::Outside(x))),
{
}

} // verus!
