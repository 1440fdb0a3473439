use std::sync::Arc;
use substrate_client::call_executor::{
    known_version, prove_outcome, state_call_outcome, Action, BlockId, Error, Event,
    ExecutionStrategy, InitializeBlock, LocalCallExecutor, Overlay, Phase, ProveRequest,
    StartedCall, StartedLookup, StateRun,
};

type Run = StateRun<u32, &'static str, char>;

type Local = LocalCallExecutor<&'static str, u8>;

fn executor() -> Local {
    LocalCallExecutor::new(Arc::new("backend"), 3)
}

#[test]
fn executor_holds_what_it_was_made_from() {
    let backend = Arc::new("backend");
    let executor = LocalCallExecutor::new(backend.clone(), 3u8);
    assert!(Arc::ptr_eq(executor.backend(), &backend));
    assert_eq!(*executor.executor(), 3);
    let copy = executor.clone();
    assert!(Arc::ptr_eq(copy.backend(), &backend));
    assert_eq!(*copy.executor(), 3);
}

#[test]
fn blocks_are_the_same() {
    let hash = BlockId::Hash([7; 32]);
    let mut bytes = [7; 32];
    bytes[31] = 8;
    assert!(hash.same(&BlockId::Hash([7; 32])));
    assert!(!hash.same(&BlockId::Hash(bytes)));
    assert!(!hash.same(&BlockId::Number(7)));
    assert!(BlockId::Number(7).same(&BlockId::Number(7)));
    assert!(!BlockId::Number(7).same(&BlockId::Number(8)));
}

#[test]
fn runtime_is_initialized_once_for_a_block() {
    let at = BlockId::Number(4);
    assert!(InitializeBlock::Do(None).needed(&at));
    assert!(InitializeBlock::Do(Some(BlockId::Number(3))).needed(&at));
    assert!(!InitializeBlock::Do(Some(at)).needed(&at));
    assert!(!InitializeBlock::Skip.needed(&at));
}

#[test]
fn call_runs_through() {
    let id = BlockId::Number(2);
    let local = executor();
    let call: StartedCall<'_, _, _, _, (), (), Vec<u8>, u32, Vec<u8>, char> =
        local.call(&id, "version", &[1, 2], ExecutionStrategy::Both, Some(vec![9]));
    assert!(Arc::ptr_eq(call.request.backend, local.backend()));
    assert_eq!(*call.request.executor, 3);
    assert_eq!(call.request.overlay, Overlay::Fresh);
    assert_eq!(call.request.method, "version");
    assert_eq!(call.request.call_data, [1, 2]);
    assert_eq!(call.request.manager, ExecutionStrategy::Both);
    assert!(!call.request.compute_tx);
    assert!(call.request.native_call.is_none());
    assert_eq!(call.request.extensions, vec![9]);
    assert!(matches!(call.action, Action::OpenState(BlockId::Number(2))));
    let (run, action) = call.run.advance(Event::StateOpened(Ok(5)));
    assert!(matches!(action, Action::Execute));
    assert!(matches!(run.phase, Phase::Executing(5)));
    let (run, action) = run.advance(Event::Executed(Ok(vec![1])));
    assert!(matches!(action, Action::DestroyState(5)));
    let (run, action) = run.advance(Event::StateDestroyed(Ok(())));
    assert!(matches!(action, Action::Rest));
    match run.phase {
        Phase::Finished(Ok(result)) => assert_eq!(result, vec![1]),
        _ => panic!("the call succeeds"),
    }
}

#[test]
fn call_uses_default_extensions() {
    let id = BlockId::Hash([0; 32]);
    let local = executor();
    let call: StartedCall<'_, _, _, _, (), (), Vec<u8>, u32, Vec<u8>, char> =
        local.call(&id, "f", &[], ExecutionStrategy::AlwaysWasm, None);
    assert!(call.request.extensions.is_empty());
}

#[test]
fn contextual_call_initializes_and_records() {
    let at = BlockId::Number(6);
    let initialize = InitializeBlock::Do(Some(BlockId::Number(5)));
    let recorder = Some(String::from("recorder"));
    let local = executor();
    let call: StartedCall<'_, _, _, &str, i32, _, u64, u32, &str, char> = local.contextual_call(
        &at, "f", &[3], &initialize, "manager", Some(-4), &recorder, None,
    );
    assert!(std::ptr::eq(call.request.recorder.unwrap(), recorder.as_ref().unwrap()));
    assert!(Arc::ptr_eq(call.request.backend, local.backend()));
    assert_eq!(*call.request.executor, 3);
    assert_eq!(call.request.overlay, Overlay::Given);
    assert_eq!(call.request.manager, "manager");
    assert_eq!(call.request.native_call, Some(-4));
    assert!(!call.request.compute_tx);
    assert_eq!(call.request.extensions, 0);
    assert!(matches!(call.action, Action::Initialize));
    let (run, action) = call.run.advance(Event::Initialized(Ok(())));
    assert!(matches!(action, Action::OpenState(BlockId::Number(6))));
    let (run, action) = run.advance(Event::StateOpened(Ok(1)));
    assert!(matches!(action, Action::OpenTrie));
    let (run, action) = run.advance(Event::TrieOpened(true));
    assert!(matches!(action, Action::Execute));
    let (run, action) = run.advance(Event::Executed(Ok("result")));
    assert!(matches!(action, Action::DestroyState(1)));
    let (run, _) = run.advance(Event::StateDestroyed(Ok(())));
    assert!(matches!(run.phase, Phase::Finished(Ok("result"))));
}

#[test]
fn contextual_call_without_initialization_or_recorder() {
    let at = BlockId::Number(6);
    let local = executor();
    let call: StartedCall<'_, _, _, (), (), _, u64, u32, &str, char> = local.contextual_call(
        &at, "f", &[], &InitializeBlock::Do(Some(at)), (), None, &None::<u8>, Some(8),
    );
    assert_eq!(call.request.extensions, 8);
    assert!(call.request.recorder.is_none());
    assert!(matches!(call.action, Action::OpenState(BlockId::Number(6))));
    let (_, action) = call.run.advance(Event::StateOpened(Ok(1)));
    assert!(matches!(action, Action::Execute));
}

#[test]
fn each_failure_is_reported() {
    let at = BlockId::Number(1);
    let start = |initialize: bool, recorded: bool| -> Run { Run::start(at, initialize, recorded).0 };

    let (run, action) = start(true, false).advance(Event::Initialized(Err('i')));
    assert!(matches!(run.phase, Phase::Finished(Err(Error::Outside('i')))));
    assert!(matches!(action, Action::Rest));

    let (run, _) = start(false, false).advance(Event::StateOpened(Err('o')));
    assert!(matches!(run.phase, Phase::Finished(Err(Error::Outside('o')))));

    let (run, _) = start(false, true).advance(Event::StateOpened(Ok(1)));
    let (run, action) = run.advance(Event::TrieOpened(false));
    assert!(matches!(run.phase, Phase::Finished(Err(Error::UnableToGenerateProof))));
    assert!(matches!(action, Action::Rest));

    let (run, _) = start(false, false).advance(Event::StateOpened(Ok(1)));
    let (run, action) = run.advance(Event::Executed(Err('e')));
    assert!(matches!(run.phase, Phase::Finished(Err(Error::Outside('e')))));
    assert!(matches!(action, Action::Rest));

    let (run, _) = start(false, false).advance(Event::StateOpened(Ok(1)));
    let (run, _) = run.advance(Event::Executed(Ok("r")));
    let (run, _) = run.advance(Event::StateDestroyed(Err('d')));
    assert!(matches!(run.phase, Phase::Finished(Err(Error::Outside('d')))));
    let (run, _) = run.advance(Event::StateDestroyed(Ok(())));
    assert!(matches!(run.phase, Phase::Finished(Err(Error::Outside('d')))));
}

#[test]
fn recording_leaves_the_outcome() {
    let at = BlockId::Number(1);
    for destroyed in [Ok(()), Err('d')] {
        for executed in [Ok("r"), Err('e')] {
            let mut outcomes = Vec::new();
            for recorded in [false, true] {
                let (mut run, _) = Run::start(at, false, recorded);
                run = run.advance(Event::StateOpened(Ok(1))).0;
                if recorded {
                    run = run.advance(Event::TrieOpened(true)).0;
                }
                run = run.advance(Event::Executed(executed)).0;
                run = run.advance(Event::StateDestroyed(destroyed)).0;
                outcomes.push(match run.phase {
                    Phase::Finished(Ok(result)) => Ok(result),
                    Phase::Finished(Err(Error::Outside(x))) => Err(x),
                    _ => panic!("the run is over"),
                });
            }
            assert_eq!(outcomes[0], outcomes[1]);
            assert_eq!(outcomes[0], executed.and_then(|r| destroyed.map(|()| r)));
        }
    }
}

#[test]
fn stray_events_change_nothing() {
    let (run, _) = Run::start(BlockId::Number(1), false, false);
    let (run, action) = run.advance(Event::Executed(Ok("early")));
    assert!(matches!(run.phase, Phase::Opening));
    assert!(matches!(action, Action::Rest));
    let (run, _) = run.advance(Event::StateOpened(Ok(1)));
    let (run, action) = run.advance(Event::StateOpened(Ok(2)));
    assert!(matches!(run.phase, Phase::Executing(1)));
    assert!(matches!(action, Action::Rest));
}

#[test]
fn version_is_looked_up() {
    let id = BlockId::Number(1);
    let local = executor();
    let lookup: StartedLookup<'_, _, _, u32, u16, char> = local.runtime_version(&id);
    assert!(Arc::ptr_eq(lookup.backend, local.backend()));
    assert_eq!(*lookup.executor, 3);
    assert_eq!(lookup.overlay, Overlay::Fresh);
    assert!(matches!(lookup.action, Action::OpenState(BlockId::Number(1))));
    let (run, _) = lookup.run.advance(Event::StateOpened(Ok(1)));
    let (run, action) = run.advance(Event::Executed(Ok(Some(19))));
    assert!(matches!(action, Action::DestroyState(1)));
    let (run, _) = run.advance(Event::StateDestroyed(Ok(())));
    match run.phase {
        Phase::Finished(outcome) => assert!(matches!(known_version(outcome), Ok(19))),
        _ => panic!("the lookup is over"),
    }
}

#[test]
fn missing_version_is_reported_last() {
    let id = BlockId::Number(1);
    for taken_back in [true, false] {
        let local = executor();
        let lookup: StartedLookup<'_, _, _, u32, u16, char> = local.runtime_version(&id);
        let (run, _) = lookup.run.advance(Event::StateOpened(Ok(1)));
        let (run, action) = run.advance(Event::Executed(Ok(None)));
        assert!(matches!(action, Action::DestroyState(1)));
        let answer = if taken_back { Ok(()) } else { Err('d') };
        let (run, _) = run.advance(Event::StateDestroyed(answer));
        let version = match run.phase {
            Phase::Finished(outcome) => known_version(outcome),
            _ => panic!("the lookup is over"),
        };
        if taken_back {
            assert!(matches!(version, Err(Error::VersionInvalid)));
        } else {
            assert!(matches!(version, Err(Error::Outside('d'))));
        }
    }
}

#[test]
fn state_call_computes_the_changes() {
    let local = executor();
    let request = local.call_at_state("f", &[1], "manager", Some('n'), Some(2u8));
    assert!(Arc::ptr_eq(request.backend, local.backend()));
    assert_eq!(*request.executor, 3);
    assert_eq!(request.overlay, Overlay::Given);
    assert_eq!(request.method, "f");
    assert_eq!(request.call_data, [1]);
    assert_eq!(request.manager, "manager");
    assert!(request.compute_tx);
    assert_eq!(request.native_call, Some('n'));
    assert_eq!(request.extensions, 2);
    let executed: Result<_, char> = Ok(("r", Some("tx"), None::<u8>));
    assert!(matches!(state_call_outcome(executed), Ok(("r", "tx", None))));
    let failed: Result<(u8, Option<u8>, Option<u8>), char> = Err('x');
    assert!(matches!(state_call_outcome(failed), Err(Error::Outside('x'))));
}

#[test]
fn proof_leaves_out_the_keys() {
    let local = executor();
    let request: ProveRequest<'_, u8, u8> = local.prove_at_trie_state("f", &[4]);
    assert_eq!(*request.executor, 3);
    assert_eq!(request.overlay, Overlay::Given);
    assert_eq!(request.method, "f");
    assert_eq!(request.call_data, [4]);
    assert!(request.keystore.is_none());
    match prove_outcome::<_, char>(Ok((vec![1], "proof"))) {
        Ok((result, proof)) => assert_eq!((result, proof), (vec![1], "proof")),
        Err(_) => panic!("there is a proof"),
    }
    assert!(matches!(prove_outcome::<u8, char>(Err('p')), Err(Error::Outside('p'))));
}

#[test]
fn native_runtime_has_a_version() {
    assert_eq!(executor().native_runtime_version("v1"), Some("v1"));
}
