use std::sync::Arc;
use vstd::prelude::*;

verus! {

/// A block, by its hash or by its number.
#[derive(Debug, Clone, Copy, PartialEq, Eq)]
pub enum BlockId {
    /// The block with this hash.
    Hash([u8; 32]),
    /// The block with this number in the best chain.
    Number(u128),
}

/// Whether a call first initializes the runtime at its block.
#[derive(Debug, Clone, Copy, PartialEq, Eq)]
pub enum InitializeBlock {
    /// It never does.
    Skip,
    /// It does unless the runtime was last initialized at the very block of the call, which is
    /// the block given here, if any.
    Do(Option<BlockId>),
}

/// Which of the native and the WebAssembly runtime answers a call.
#[derive(Debug, Clone, Copy, PartialEq, Eq, Structural)]
pub enum ExecutionStrategy {
    /// The native runtime where its version fits, else WebAssembly.
    NativeWhenPossible,
    /// WebAssembly.
    AlwaysWasm,
    /// Both, and their answers are compared.
    Both,
    /// The native runtime, and WebAssembly where that fails.
    NativeElseWasm,
}

/// Why a call has no result. `X` is what the backend or the runtime fails with.
pub enum Error<X> {
    /// The backend or the runtime failed.
    Outside(X),
    /// The execution was to be recorded, and the state is not a trie.
    UnableToGenerateProof,
    /// The code of the chain has no version.
    VersionInvalid,
}

/// The changes on top of a state that an execution starts from, and to which it adds its own.
#[derive(Debug, Clone, Copy, PartialEq, Eq, Structural)]
pub enum Overlay {
    /// No changes; those that the execution makes are dropped with it.
    Fresh,
    /// The changes that the caller holds.
    Given,
}

/// What the runtime is asked to execute on a state.
pub struct ExecuteRequest<'a, B, E, M, N, R, X> {
    /// The backend that holds the data. It gives the state where the caller does not hold it, and
    /// the storage of the changes tries.
    pub backend: &'a Arc<B>,
    /// What executes the code of the chain.
    pub executor: &'a E,
    /// The changes that the execution starts from.
    pub overlay: Overlay,
    /// The runtime function.
    pub method: &'a str,
    /// Its encoded arguments.
    pub call_data: &'a [u8],
    /// Which runtime answers, and what happens where two answers differ.
    pub manager: M,
    /// Whether the changes to the storage are computed too.
    pub compute_tx: bool,
    /// What answers in place of the native runtime.
    pub native_call: Option<N>,
    /// The caller's own recorder, to which the parts of the trie that are read are added.
    pub recorder: Option<&'a R>,
    /// What the runtime may use besides the state.
    pub extensions: X,
}

/// What the caller of a run does next.
pub enum Action<S> {
    /// Nothing: the run does not move on this event, or it is over.
    Rest,
    /// Initialize the runtime at the block.
    Initialize,
    /// Ask the backend for the state at this block.
    OpenState(BlockId),
    /// See whether the state is a trie.
    OpenTrie,
    /// Execute on the state.
    Execute,
    /// Hand this state back to the backend.
    DestroyState(S),
}

/// What came of an action.
pub enum Event<S, O, X> {
    /// The runtime was initialized, or was not.
    Initialized(Result<(), X>),
    /// The backend gave a state, or failed.
    StateOpened(Result<S, X>),
    /// Whether the state is a trie.
    TrieOpened(bool),
    /// The runtime gave a result, or failed.
    Executed(Result<O, X>),
    /// The backend took the state back, or failed.
    StateDestroyed(Result<(), X>),
}

/// How far a run has come.
pub enum Phase<S, O, X> {
    /// The runtime is being initialized.
    Initializing,
    /// The state is being opened.
    Opening,
    /// The state is being opened as a trie.
    OpeningTrie(S),
    /// The runtime executes on the state.
    Executing(S),
    /// There is a result, and the state is being handed back.
    Destroying(O),
    /// The run is over.
    Finished(Result<O, Error<X>>),
}

/// One execution on the state at a block, from opening that state to handing it back.
pub struct StateRun<S, O, X> {
    /// The block.
    pub at: BlockId,
    /// Whether the execution is recorded, which takes a state that is a trie.
    pub recorded: bool,
    /// How far the run has come.
    pub phase: Phase<S, O, X>,
}

/// Whether a call at block `at` initializes the runtime first.
pub open spec fn initializes(initialize: InitializeBlock, at: BlockId) -> bool {
    match initialize {
        InitializeBlock::Skip => false,
        InitializeBlock::Do(last) => last != Some(at),
    }
}

/// Where a run starts.
pub open spec fn first_phase<S, O, X>(initialize: bool) -> Phase<S, O, X> {
    if initialize {
        Phase::Initializing
    } else {
        Phase::Opening
    }
}

/// What is done first in a run at block `at`.
pub open spec fn first_action<S>(at: BlockId, initialize: bool) -> Action<S> {
    if initialize {
        Action::Initialize
    } else {
        Action::OpenState(at)
    }
}

/// Where a run stands after an event, and what is done next.
pub open spec fn next_phase<S, O, X>(
    at: BlockId,
    recorded: bool,
    phase: Phase<S, O, X>,
    event: Event<S, O, X>,
) -> (Phase<S, O, X>, Action<S>) {
    match (phase, event) {
        (Phase::Initializing, Event::Initialized(Ok(_))) => (Phase::Opening, Action::OpenState(at)),
        (Phase::Initializing, Event::Initialized(Err(x))) => (
            Phase::Finished(Err(Error::Outside(x))),
            Action::Rest,
        ),
        (Phase::Opening, Event::StateOpened(Ok(state))) => if recorded {
            (Phase::OpeningTrie(state), Action::OpenTrie)
        } else {
            (Phase::Executing(state), Action::Execute)
        },
        (Phase::Opening, Event::StateOpened(Err(x))) => (
            Phase::Finished(Err(Error::Outside(x))),
            Action::Rest,
        ),
        (Phase::OpeningTrie(state), Event::TrieOpened(is_trie)) => if is_trie {
            (Phase::Executing(state), Action::Execute)
        } else {
            (Phase::Finished(Err(Error::UnableToGenerateProof)), Action::Rest)
        },
        (Phase::Executing(state), Event::Executed(Ok(result))) => (
            Phase::Destroying(result),
            Action::DestroyState(state),
        ),
        (Phase::Executing(_), Event::Executed(Err(x))) => (
            Phase::Finished(Err(Error::Outside(x))),
            Action::Rest,
        ),
        (Phase::Destroying(result), Event::StateDestroyed(Ok(_))) => (
            Phase::Finished(Ok(result)),
            Action::Rest,
        ),
        (Phase::Destroying(_), Event::StateDestroyed(Err(x))) => (
            Phase::Finished(Err(Error::Outside(x))),
            Action::Rest,
        ),
        (phase, _) => (phase, Action::Rest),
    }
}

/// Whether two hashes are the same.
fn same_hash(a: &[u8; 32], b: &[u8; 32]) -> (same: bool)
    ensures
        same == (*a == *b),
{
    let mut i: usize = 0;
    while i < 32
        invariant
            i <= 32,
            forall|j: int| 0 <= j < i ==> a@[j] == b@[j],
        decreases 32 - i,
    {
        if a[i] != b[i] {
            return false;
        }
        i = i + 1;
    }
    assert(*a =~= *b);
    true
}

impl BlockId {
    /// Whether this is the very same way to name the very same block.
    pub fn same(&self, other: &BlockId) -> (same: bool)
        ensures
            same == (*self == *other),
    {
        match (self, other) {
            (BlockId::Hash(a), BlockId::Hash(b)) => same_hash(a, b),
            (BlockId::Number(a), BlockId::Number(b)) => *a == *b,
            _ => false,
        }
    }
}

impl InitializeBlock {
    /// Whether a call at block `at` initializes the runtime first.
    pub fn needed(&self, at: &BlockId) -> (needed: bool)
        ensures
            needed == initializes(*self, *at),
    {
        match self {
            InitializeBlock::Do(Some(last)) => !last.same(at),
            InitializeBlock::Do(None) => true,
            // The runtime is not initialized for this call.
            InitializeBlock::Skip => false,
        }
    }
}

impl<S, O, X> StateRun<S, O, X> {
    /// Starts a run at block `at`, with an initialization of the runtime where `initialize` says
    /// so.
    pub fn start(at: BlockId, initialize: bool, recorded: bool) -> (started: (Self, Action<S>))
        ensures
            started.0 == (StateRun {
                at,
                recorded,
                phase: first_phase::<S, O, X>(initialize),
            }),
            started.1 == first_action::<S>(at, initialize),
    {
        if initialize {
            (StateRun { at, recorded, phase: Phase::Initializing }, Action::Initialize)
        } else {
            (StateRun { at, recorded, phase: Phase::Opening }, Action::OpenState(at))
        }
    }

    /// Takes what came of the last action, and says what is done next. An event that answers no
    /// pending action leaves the run as it is.
    pub fn advance(self, event: Event<S, O, X>) -> (advanced: (Self, Action<S>))
        ensures
            advanced.0.at == self.at,
            advanced.0.recorded == self.recorded,
            (advanced.0.phase, advanced.1) == next_phase(
                self.at,
                self.recorded,
                self.phase,
                event,
            ),
    {
        let StateRun { at, recorded, phase } = self;
        let (phase, action) = match (phase, event) {
            (Phase::Initializing, Event::Initialized(Ok(_))) => (
                Phase::Opening,
                Action::OpenState(at),
            ),
            (Phase::Initializing, Event::Initialized(Err(x))) => (
                Phase::Finished(Err(Error::Outside(x))),
                Action::Rest,
            ),
            (Phase::Opening, Event::StateOpened(Ok(state))) => if recorded {
                (Phase::OpeningTrie(state), Action::OpenTrie)
            } else {
                (Phase::Executing(state), Action::Execute)
            },
            (Phase::Opening, Event::StateOpened(Err(x))) => (
                Phase::Finished(Err(Error::Outside(x))),
                Action::Rest,
            ),
            (Phase::OpeningTrie(state), Event::TrieOpened(is_trie)) => if is_trie {
                (Phase::Executing(state), Action::Execute)
            } else {
                (Phase::Finished(Err(Error::UnableToGenerateProof)), Action::Rest)
            },
            (Phase::Executing(state), Event::Executed(Ok(result))) => (
                Phase::Destroying(result),
                Action::DestroyState(state),
            ),
            (Phase::Executing(_), Event::Executed(Err(x))) => (
                Phase::Finished(Err(Error::Outside(x))),
                Action::Rest,
            ),
            (Phase::Destroying(result), Event::StateDestroyed(Ok(_))) => (
                Phase::Finished(Ok(result)),
                Action::Rest,
            ),
            (Phase::Destroying(_), Event::StateDestroyed(Err(x))) => (
                Phase::Finished(Err(Error::Outside(x))),
                Action::Rest,
            ),
            (phase, _) => (phase, Action::Rest),
        };
        (StateRun { at, recorded, phase }, action)
    }
}

/// What it takes to prove an execution on a trie.
pub struct ProveRequest<'a, E, K> {
    /// What executes the code of the chain.
    pub executor: &'a E,
    /// The changes that the execution starts from.
    pub overlay: Overlay,
    /// The runtime function.
    pub method: &'a str,
    /// Its encoded arguments.
    pub call_data: &'a [u8],
    /// The local keys that the runtime may use.
    pub keystore: Option<K>,
}

/// A call as it starts: the run, what is done first, and what is executed once there is a state.
pub struct StartedCall<'a, B, E, M, N, R, X, S, O, F> {
    /// The run. Its states come from the backend of the request, and go back to it.
    pub run: StateRun<S, O, F>,
    /// What is done first.
    pub action: Action<S>,
    /// What is executed.
    pub request: ExecuteRequest<'a, B, E, M, N, R, X>,
}

/// A lookup of the runtime's version as it starts.
pub struct StartedLookup<'a, B, E, S, V, F> {
    /// The run. Its states come from the backend, and go back to it.
    pub run: StateRun<S, Option<V>, F>,
    /// What is done first.
    pub action: Action<S>,
    /// The backend that holds the data.
    pub backend: &'a Arc<B>,
    /// What looks the version up in the code of the chain.
    pub executor: &'a E,
    /// The changes that the lookup starts from.
    pub overlay: Overlay,
}

/// Whether `used` is what an execution uses where `given` was given: that, or the default.
pub open spec fn given_or_default<E: Default>(given: Option<E>, used: E) -> bool {
    match given {
        Some(given) => used == given,
        None => E::default.ensures((), used),
    }
}

/// Call executor that executes methods locally, querying all required
/// data from local backend.
pub struct LocalCallExecutor<B, E> {
    backend: Arc<B>,
    executor: E,
}

impl<B, E> LocalCallExecutor<B, E> {
    /// The backend that holds the data.
    pub closed spec fn spec_backend(&self) -> Arc<B> {
        self.backend
    }

    /// What executes the code of the chain.
    pub closed spec fn spec_executor(&self) -> E {
        self.executor
    }

    /// Creates new instance of local call executor.
    pub fn new(backend: Arc<B>, executor: E) -> (created: Self)
        ensures
            created.spec_backend() == backend,
            created.spec_executor() == executor,
    {
        LocalCallExecutor { backend, executor }
    }

    /// The backend that holds the data.
    pub fn backend(&self) -> (backend: &Arc<B>)
        ensures
            *backend == self.spec_backend(),
    {
        &self.backend
    }

    /// What executes the code of the chain.
    pub fn executor(&self) -> (executor: &E)
        ensures
            *executor == self.spec_executor(),
    {
        &self.executor
    }

    /// Starts a call of a runtime function on the state at block `id`, without any changes on top
    /// of it. No native call stands in for the runtime, and the changes to the storage are not
    /// computed.
    pub fn call<'a, X: Default, S, O, F>(
        &'a self,
        id: &BlockId,
        method: &'a str,
        call_data: &'a [u8],
        strategy: ExecutionStrategy,
        extensions: Option<X>,
    ) -> (call: StartedCall<'a, B, E, ExecutionStrategy, (), (), X, S, O, F>)
        ensures
            call.run == (StateRun {
                at: *id,
                recorded: false,
                phase: first_phase::<S, O, F>(false),
            }),
            call.action == first_action::<S>(*id, false),
            *call.request.backend == self.spec_backend(),
            *call.request.executor == self.spec_executor(),
            call.request.overlay == Overlay::Fresh,
            call.request.method == method,
            call.request.call_data == call_data,
            call.request.manager == strategy,
            !call.request.compute_tx,
            call.request.native_call is None,
            call.request.recorder is None,
            given_or_default(extensions, call.request.extensions),
    {
        let (run, action) = StateRun::start(*id, false, false);
        let request = ExecuteRequest {
            backend: &self.backend,
            executor: &self.executor,
            overlay: Overlay::Fresh,
            method,
            call_data,
            manager: strategy,
            compute_tx: false,
            native_call: None,
            recorder: None,
            extensions: extensions.unwrap_or_default(),
        };
        StartedCall { run, action, request }
    }

    /// Starts a call of a runtime function in the context of other calls at block `at`, whose
    /// changes it starts from: the runtime is initialized first unless it already is for that block, and the execution is
    /// recorded where there is a recorder. The changes to the storage are not computed.
    pub fn contextual_call<'a, M, N, X: Default, R, S, O, F>(
        &'a self,
        at: &BlockId,
        method: &'a str,
        call_data: &'a [u8],
        initialize_block: &InitializeBlock,
        execution_manager: M,
        native_call: Option<N>,
        recorder: &'a Option<R>,
        extensions: Option<X>,
    ) -> (call: StartedCall<'a, B, E, M, N, R, X, S, O, F>)
        ensures
            call.run == (StateRun {
                at: *at,
                recorded: *recorder is Some,
                phase: first_phase::<S, O, F>(initializes(*initialize_block, *at)),
            }),
            call.action == first_action::<S>(*at, initializes(*initialize_block, *at)),
            *call.request.backend == self.spec_backend(),
            *call.request.executor == self.spec_executor(),
            call.request.overlay == Overlay::Given,
            call.request.method == method,
            call.request.call_data == call_data,
            call.request.manager == execution_manager,
            !call.request.compute_tx,
            call.request.native_call == native_call,
            call.request.recorder is Some <==> *recorder is Some,
            call.request.recorder matches Some(used) ==> *recorder == Some(*used),
            given_or_default(extensions, call.request.extensions),
    {
        let (run, action) = StateRun::start(*at, initialize_block.needed(at), recorder.is_some());
        let request = ExecuteRequest {
            backend: &self.backend,
            executor: &self.executor,
            overlay: Overlay::Given,
            method,
            call_data,
            manager: execution_manager,
            compute_tx: false,
            native_call,
            recorder: recorder.as_ref(),
            extensions: extensions.unwrap_or_default(),
        };
        StartedCall { run, action, request }
    }

    /// Starts to look up the version of the runtime at block `id`, without any changes on top of
    /// its state. What is executed on the state is the lookup, whose result is the version, if the
    /// code has one; `known_version` turns the outcome of the run into the answer.
    pub fn runtime_version<'a, S, V, F>(
        &'a self,
        id: &BlockId,
    ) -> (lookup: StartedLookup<'a, B, E, S, V, F>)
        ensures
            lookup.run == (StateRun {
                at: *id,
                recorded: false,
                phase: first_phase::<S, Option<V>, F>(false),
            }),
            lookup.action == first_action::<S>(*id, false),
            *lookup.backend == self.spec_backend(),
            *lookup.executor == self.spec_executor(),
            lookup.overlay == Overlay::Fresh,
    {
        let (run, action) = StateRun::start(*id, false, false);
        StartedLookup {
            run,
            action,
            backend: &self.backend,
            executor: &self.executor,
            overlay: Overlay::Fresh,
        }
    }

    /// What is executed where the caller holds the state itself, and the changes that it starts
    /// from. The changes to the storage are computed; `state_call_outcome` takes what comes of it.
    pub fn call_at_state<'a, M, N, X: Default>(
        &'a self,
        method: &'a str,
        call_data: &'a [u8],
        manager: M,
        native_call: Option<N>,
        extensions: Option<X>,
    ) -> (request: ExecuteRequest<'a, B, E, M, N, (), X>)
        ensures
            *request.backend == self.spec_backend(),
            *request.executor == self.spec_executor(),
            request.overlay == Overlay::Given,
            request.method == method,
            request.call_data == call_data,
            request.manager == manager,
            request.compute_tx,
            request.native_call == native_call,
            request.recorder is None,
            given_or_default(extensions, request.extensions),
    {
        ExecuteRequest {
            backend: &self.backend,
            executor: &self.executor,
            overlay: Overlay::Given,
            method,
            call_data,
            manager,
            compute_tx: true,
            native_call,
            recorder: None,
            extensions: extensions.unwrap_or_default(),
        }
    }

    /// What it takes to prove an execution on a trie that the caller holds, and the changes that it
    /// starts from.
    pub fn prove_at_trie_state<'a, K>(
        &'a self,
        method: &'a str,
        call_data: &'a [u8],
    ) -> (request: ProveRequest<'a, E, K>)
        ensures
            *request.executor == self.spec_executor(),
            request.overlay == Overlay::Given,
            request.method == method,
            request.call_data == call_data,
            request.keystore is None,
    {
        ProveRequest {
            executor: &self.executor,
            overlay: Overlay::Given,
            method,
            call_data,
            // Nothing is to be proved about the local keys.
            keystore: None,
        }
    }

    /// The version of the native runtime, which always has one.
    pub fn native_runtime_version<V>(&self, native_version: V) -> (version: Option<V>)
        ensures
            version == Some(native_version),
    {
        Some(native_version)
    }
}

impl<B, E> Clone for LocalCallExecutor<B, E> where E: Clone {
    fn clone(&self) -> (copy: Self)
        ensures
            copy.spec_backend() == self.spec_backend(),
            cloned(self.spec_executor(), copy.spec_executor()),
    {
        LocalCallExecutor { backend: self.backend.clone(), executor: self.executor.clone() }
    }
}

/// The answer to a lookup of the runtime's version that came out as `outcome`.
pub open spec fn version_of<V, X>(outcome: Result<Option<V>, Error<X>>) -> Result<V, Error<X>> {
    match outcome {
        Ok(Some(version)) => Ok(version),
        Ok(None) => Err(Error::VersionInvalid),
        Err(error) => Err(error),
    }
}

/// The answer to a lookup of the runtime's version, from the outcome of its run.
pub fn known_version<V, X>(outcome: Result<Option<V>, Error<X>>) -> (version: Result<V, Error<X>>)
    ensures
        version == version_of(outcome),
{
    match outcome {
        Ok(version) => version.ok_or(Error::VersionInvalid),
        Err(error) => Err(error),
    }
}

/// The result of an execution on a state that the caller holds, with the changes to the storage,
/// which are there because they were asked for.
pub fn state_call_outcome<R, T, C, X>(
    executed: Result<(R, Option<T>, Option<C>), X>,
) -> (outcome: Result<(R, T, Option<C>), Error<X>>)
    requires
        executed matches Ok(executed) ==> executed.1 is Some,
    ensures
        outcome == match executed {
            Ok((result, storage_tx, changes_tx)) => Ok((result, storage_tx->0, changes_tx)),
            Err(x) => Err(Error::Outside(x)),
        },
{
    match executed {
        Ok((result, storage_tx, changes_tx)) => Ok(
            (
                result,
                storage_tx.expect("storage_tx is always computed when compute_tx is true; qed"),
                changes_tx,
            ),
        ),
        Err(x) => Err(Error::Outside(x)),
    }
}

/// The outcome of proving an execution: its result with the proof, or why there is none.
pub fn prove_outcome<P, X>(proved: Result<(Vec<u8>, P), X>) -> (outcome: Result<
    (Vec<u8>, P),
    Error<X>,
>)
    ensures
        outcome == match proved {
            Ok(proved) => Ok(proved),
            Err(x) => Err(Error::Outside(x)),
        },
{
    match proved {
        Ok(proved) => Ok(proved),
        Err(x) => Err(Error::Outside(x)),
    }
}

} // verus!
