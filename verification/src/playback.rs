use crate::net::NodeRef;
use crate::scenario::{batch_size, batches_fit, Condition, Quantity, Step, TestDir};
use crate::topology::Link;
use crate::wait::{next_wait, Wait, WaitEvent, WaitPhase};
use vstd::prelude::*;

verus! {

/// The nodes that join in a step, by their numbers: authorities, full nodes and light nodes.
pub struct Joining {
    /// How many authorities join.
    pub authorities: usize,
    /// How many full nodes join.
    pub full: usize,
    /// How many light nodes join.
    pub light: usize,
}

/// The nodes that join in the step with number `pc`; none where there is no such step.
pub open spec fn joining_at(steps: Seq<Step>, pc: int) -> Joining {
    if 0 <= pc < steps.len() {
        match steps[pc] {
            Step::NewNet { base_port, authorities, full, light } => Joining {
                authorities,
                full,
                light,
            },
            Step::InsertNodes { full, light } => Joining { authorities: 0, full, light },
            _ => Joining { authorities: 0, full: 0, light: 0 },
        }
    } else {
        Joining { authorities: 0, full: 0, light: 0 }
    }
}

/// Why a scenario failed.
#[derive(Debug, Clone, Copy, PartialEq, Eq, Structural)]
pub enum Failure {
    /// There is no directory.
    TestDir,
    /// There is nothing to run nodes on.
    Runtime,
    /// A node was not built.
    NodeService,
    /// A reserved peer was not added.
    ReservedPeer,
    /// A transaction was not submitted.
    Extrinsic,
    /// The nodes did not become ready in time.
    WaitedTooLong,
    /// What the nodes ran on was not shut down.
    Shutdown,
    /// The directory was not removed.
    RemoveDir,
}

/// The message of a failure.
pub open spec fn failure_text(failure: Failure) -> Seq<char> {
    match failure {
        Failure::TestDir => "Error creating test dir"@,
        Failure::Runtime => "Error creating tokio runtime"@,
        Failure::NodeService => "Error creating test node service"@,
        Failure::ReservedPeer => "Error adding reserved peer"@,
        Failure::Extrinsic => "called `Result::unwrap()` on an `Err` value"@,
        Failure::WaitedTooLong => "Waited for too long"@,
        Failure::Shutdown => "Error shutting down runtime"@,
        Failure::RemoveDir => "Error removing temp dir"@,
    }
}

impl Failure {
    /// The message of the failure.
    pub fn message(&self) -> (message: &'static str)
        ensures
            message@ == failure_text(*self),
    {
        match self {
            Failure::TestDir => "Error creating test dir",
            Failure::Runtime => "Error creating tokio runtime",
            Failure::NodeService => "Error creating test node service",
            Failure::ReservedPeer => "Error adding reserved peer",
            Failure::Extrinsic => "called `Result::unwrap()` on an `Err` value",
            Failure::WaitedTooLong => "Waited for too long",
            Failure::Shutdown => "Error shutting down runtime",
            Failure::RemoveDir => "Error removing temp dir",
        }
    }
}

/// What is done next in a scenario.
#[derive(Debug, Clone, Copy, PartialEq, Eq, Structural)]
pub enum Action {
    /// Make a temporary directory.
    OpenDir(TestDir),
    /// Start what nodes run on, for a network whose first node listens at this port.
    StartRuntime(u16),
    /// Build and register the node with this position in the batch that joins.
    BuildNode(usize),
    /// Make one node a reserved peer of another.
    AddReservedPeer(Link),
    /// Make a block at a node and import it there.
    MakeBlock(NodeRef),
    /// Submit a transaction to the pool of a node, at the block with this number.
    SubmitExtrinsic(NodeRef, u128),
    /// Begin to wait for the nodes of the network.
    BeginWait,
    /// Wait for the next round, or for the end of the wait.
    AwaitTick,
    /// Count a quantity at a node; any number does where there is none.
    Count(NodeRef, Option<Quantity>),
    /// Drop the network and shut down what it ran on.
    ShutdownRuntime,
    /// Drop the network with what it ran on.
    DropNet,
    /// Remove the directory.
    CloseDir,
    /// Nothing.
    Pass,
    /// Nothing more: the scenario succeeded.
    Finish,
    /// Nothing more: the scenario failed.
    Fail(Failure),
}

/// What came of an action.
#[derive(Debug, Clone, Copy, PartialEq, Eq, Structural)]
pub enum Event {
    /// It was done.
    Done,
    /// It failed.
    Failed,
    /// A wait begins for so many full and so many light nodes.
    WaitBegun(usize, usize),
    /// It is time for the next round of a wait.
    Tick,
    /// The clock that measures the time between rounds failed.
    TickFailed,
    /// A wait has taken its maximum duration.
    Elapsed,
    /// So much was counted.
    Counted(u128),
}

/// How far the current step has come.
#[derive(Debug, Clone, Copy, PartialEq, Eq, Structural)]
pub enum Phase {
    /// Its one action is under way.
    Doing,
    /// What nodes run on is being started.
    StartingRuntime,
    /// So many nodes of the batch were built.
    Building(usize),
    /// So many blocks were made.
    Making(usize),
    /// The number of the node's best block is known, and a transaction is being submitted there.
    Submitting(u128),
    /// The nodes are waited for.
    Waiting(Wait),
    /// There is no step left.
    Finished,
    /// It failed.
    Failed(Failure),
}

/// How many blocks are made in a step.
pub open spec fn block_count(step: Step) -> int {
    match step {
        Step::MakeBlocks { node, count } => count as int,
        _ => 0,
    }
}

/// What the failure of a step's one action is called.
pub open spec fn failure_of(step: Step) -> Option<Failure> {
    match step {
        Step::OpenDir(_) => Some(Failure::TestDir),
        Step::AddReservedPeer(_) => Some(Failure::ReservedPeer),
        Step::ShutdownRuntime => Some(Failure::Shutdown),
        Step::CloseDir => Some(Failure::RemoveDir),
        _ => None,
    }
}

/// The node that a wait asks, and the condition that it has to meet.
pub open spec fn asked(step: Step, wait: Wait) -> (NodeRef, Condition) {
    match (step, wait.phase) {
        (
            Step::RunUntilAllFull { full_ready, light_ready },
            WaitPhase::AskingLight(i),
        ) => (NodeRef::Light(i), light_ready),
        (
            Step::RunUntilAllFull { full_ready, light_ready },
            WaitPhase::AskingFull(i),
        ) => (NodeRef::Full(i), full_ready),
        _ => (NodeRef::Full(0), Condition::Any),
    }
}

/// What an event is to a wait, if anything.
pub open spec fn wait_event(step: Step, wait: Wait, event: Event) -> Option<WaitEvent> {
    match event {
        Event::Tick => Some(WaitEvent::Tick),
        Event::TickFailed => Some(WaitEvent::TickFailed),
        Event::Elapsed => Some(WaitEvent::Elapsed),
        Event::Counted(counted) => Some(
            WaitEvent::Answer(asked(step, wait).1.spec_holds(counted as int)),
        ),
        _ => None,
    }
}

/// Where the step with number `pc` starts, or the end where there is no such step.
pub open spec fn entered(steps: Seq<Step>, pc: int) -> Phase {
    if pc < steps.len() {
        match steps[pc] {
            Step::NewNet { .. } => Phase::StartingRuntime,
            Step::InsertNodes { .. } => Phase::Building(0),
            Step::MakeBlocks { .. } => Phase::Making(0),
            _ => Phase::Doing,
        }
    } else {
        Phase::Finished
    }
}

/// The start of the step after the one with number `pc`.
pub open spec fn next_step(steps: Seq<Step>, pc: int) -> (int, Phase) {
    (pc + 1, entered(steps, pc + 1))
}

/// Where a scenario stands after an event: the number of its step, and how far that has come. An
/// event that answers no pending action changes nothing.
pub open spec fn next_place(steps: Seq<Step>, pc: int, phase: Phase, event: Event) -> (int, Phase) {
    let step = steps[pc];
    match (phase, event) {
        (Phase::Doing, Event::WaitBegun(full, light)) => if step is RunUntilAllFull {
            (pc, Phase::Waiting(Wait { full, light, phase: WaitPhase::Sleeping }))
        } else {
            (pc, phase)
        },
        (Phase::Doing, Event::Done) => if step is RunUntilAllFull || step is SubmitExtrinsic {
            (pc, phase)
        } else {
            next_step(steps, pc)
        },
        (Phase::Doing, Event::Counted(number)) => if step is SubmitExtrinsic {
            (pc, Phase::Submitting(number))
        } else {
            (pc, phase)
        },
        (Phase::Doing, Event::Failed) => match failure_of(step) {
            Some(failure) => (pc, Phase::Failed(failure)),
            None => (pc, phase),
        },
        (Phase::Submitting(_), Event::Done) => next_step(steps, pc),
        (Phase::Submitting(_), Event::Failed) => (pc, Phase::Failed(Failure::Extrinsic)),
        (Phase::StartingRuntime, Event::Done) => (pc, Phase::Building(0)),
        (Phase::StartingRuntime, Event::Failed) => (pc, Phase::Failed(Failure::Runtime)),
        (Phase::Building(built), Event::Done) => if built + 1 < batch_size(step) {
            (pc, Phase::Building((built + 1) as usize))
        } else {
            next_step(steps, pc)
        },
        (Phase::Building(built), Event::Failed) => if built < batch_size(step) {
            (pc, Phase::Failed(Failure::NodeService))
        } else {
            (pc, phase)
        },
        (Phase::Making(made), Event::Done) => if made + 1 < block_count(step) {
            (pc, Phase::Making((made + 1) as usize))
        } else {
            next_step(steps, pc)
        },
        (Phase::Waiting(wait), _) => match wait_event(step, wait, event) {
            Some(event) => {
                let after = next_wait(wait.full as nat, wait.light as nat, wait.phase, event);
                match after {
                    WaitPhase::Ready => next_step(steps, pc),
                    WaitPhase::TimedOut => (pc, Phase::Failed(Failure::WaitedTooLong)),
                    _ => (pc, Phase::Waiting(Wait { phase: after, ..wait })),
                }
            },
            None => (pc, phase),
        },
        _ => (pc, phase),
    }
}

/// What is done where a scenario stands.
pub open spec fn action_at(steps: Seq<Step>, pc: int, phase: Phase) -> Action {
    let step = steps[pc];
    match phase {
        Phase::Doing => match step {
            Step::OpenDir(dir) => Action::OpenDir(dir),
            Step::AddReservedPeer(link) => Action::AddReservedPeer(link),
            Step::SubmitExtrinsic(node) => Action::Count(node, Some(Quantity::BestNumber)),
            Step::RunUntilAllFull { .. } => Action::BeginWait,
            Step::ShutdownRuntime => Action::ShutdownRuntime,
            Step::DropNet => Action::DropNet,
            Step::CloseDir => Action::CloseDir,
            _ => Action::Pass,
        },
        Phase::Submitting(number) => match step {
            Step::SubmitExtrinsic(node) => Action::SubmitExtrinsic(node, number),
            _ => Action::Pass,
        },
        Phase::StartingRuntime => match step {
            Step::NewNet { base_port, .. } => Action::StartRuntime(base_port),
            _ => Action::Pass,
        },
        Phase::Building(built) => if built < batch_size(step) {
            Action::BuildNode(built)
        } else {
            Action::Pass
        },
        Phase::Making(made) => match step {
            Step::MakeBlocks { node, count } => if made < count {
                Action::MakeBlock(node)
            } else {
                Action::Pass
            },
            _ => Action::Pass,
        },
        Phase::Waiting(wait) => if wait.phase is AskingFull || wait.phase is AskingLight {
            Action::Count(asked(step, wait).0, asked(step, wait).1.spec_quantity())
        } else {
            Action::AwaitTick
        },
        Phase::Finished => Action::Finish,
        Phase::Failed(failure) => Action::Fail(failure),
    }
}

/// A scenario that is being played.
pub struct Playback {
    steps: Vec<Step>,
    pc: usize,
    phase: Phase,
}

impl Playback {
    /// The steps.
    pub closed spec fn spec_steps(&self) -> Seq<Step> {
        self.steps@
    }

    /// The number of the current step.
    pub closed spec fn spec_pc(&self) -> int {
        self.pc as int
    }

    /// How far the current step has come.
    pub closed spec fn spec_phase(&self) -> Phase {
        self.phase
    }

    /// The current step is one of the steps unless there is none left, and a wait waits for nodes
    /// that there are.
    pub open spec fn wf(&self) -> bool {
        &&& batches_fit(self.spec_steps())
        &&& 0 <= self.spec_pc() <= self.spec_steps().len()
        &&& self.spec_phase() == Phase::Finished <==> self.spec_pc() == self.spec_steps().len()
        &&& match self.spec_phase() {
            Phase::Waiting(wait) => wait.wf() && (wait.phase is Sleeping || wait.phase is AskingFull
                || wait.phase is AskingLight),
            _ => true,
        }
    }

    /// Starts to play some steps.
    pub fn new(steps: Vec<Step>) -> (playback: Playback)
        requires
            batches_fit(steps@),
        ensures
            playback.spec_steps() == steps@,
            playback.spec_pc() == 0,
            playback.spec_phase() == entered(steps@, 0),
            playback.wf(),
    {
        let phase = Self::enter(&steps, 0);
        Playback { steps, pc: 0, phase }
    }

    /// Where the step with number `pc` starts.
    fn enter(steps: &Vec<Step>, pc: usize) -> (phase: Phase)
        ensures
            phase == entered(steps@, pc as int),
    {
        if pc < steps.len() {
            match steps[pc] {
                Step::NewNet { .. } => Phase::StartingRuntime,
                Step::InsertNodes { .. } => Phase::Building(0),
                Step::MakeBlocks { .. } => Phase::Making(0),
                _ => Phase::Doing,
            }
        } else {
            Phase::Finished
        }
    }

    /// How many nodes join in a step.
    fn batch_size(step: Step) -> (size: usize)
        requires
            batch_size(step) <= usize::MAX,
        ensures
            size == batch_size(step),
    {
        match step {
            Step::NewNet { base_port: _, authorities, full, light } => authorities + full + light,
            Step::InsertNodes { full, light } => full + light,
            _ => 0,
        }
    }

    /// The node that a wait asks, and the condition that it has to meet.
    fn asked(step: Step, wait: Wait) -> (node: (NodeRef, Condition))
        ensures
            node == asked(step, wait),
    {
        match (step, wait.phase) {
            (
                Step::RunUntilAllFull { full_ready: _, light_ready },
                WaitPhase::AskingLight(i),
            ) => (NodeRef::Light(i), light_ready),
            (
                Step::RunUntilAllFull { full_ready, light_ready: _ },
                WaitPhase::AskingFull(i),
            ) => (NodeRef::Full(i), full_ready),
            _ => (NodeRef::Full(0), Condition::Any),
        }
    }

    /// What is done next.
    pub fn action(&self) -> (action: Action)
        requires
            self.wf(),
        ensures
            action == action_at(self.spec_steps(), self.spec_pc(), self.spec_phase()),
    {
        match self.phase {
            Phase::Finished => {
                return Action::Finish;
            },
            Phase::Failed(failure) => {
                return Action::Fail(failure);
            },
            _ => {},
        }
        let step = self.steps[self.pc];
        match self.phase {
            Phase::Doing => match step {
                Step::OpenDir(dir) => Action::OpenDir(dir),
                Step::AddReservedPeer(link) => Action::AddReservedPeer(link),
                Step::SubmitExtrinsic(node) => Action::Count(node, Some(Quantity::BestNumber)),
                Step::RunUntilAllFull { .. } => Action::BeginWait,
                Step::ShutdownRuntime => Action::ShutdownRuntime,
                Step::DropNet => Action::DropNet,
                Step::CloseDir => Action::CloseDir,
                _ => Action::Pass,
            },
            Phase::Submitting(number) => match step {
                Step::SubmitExtrinsic(node) => Action::SubmitExtrinsic(node, number),
                _ => Action::Pass,
            },
            Phase::StartingRuntime => match step {
                Step::NewNet { base_port, .. } => Action::StartRuntime(base_port),
                _ => Action::Pass,
            },
            Phase::Building(built) => if built < Self::batch_size(step) {
                Action::BuildNode(built)
            } else {
                Action::Pass
            },
            Phase::Making(made) => match step {
                Step::MakeBlocks { node, count } => if made < count {
                    Action::MakeBlock(node)
                } else {
                    Action::Pass
                },
                _ => Action::Pass,
            },
            Phase::Waiting(wait) => match wait.phase {
                WaitPhase::Sleeping => Action::AwaitTick,
                _ => {
                    let (node, condition) = Self::asked(step, wait);
                    Action::Count(node, condition.quantity())
                },
            },
            Phase::Finished => Action::Finish,
            Phase::Failed(failure) => Action::Fail(failure),
        }
    }

    /// The nodes that join in the current step.
    pub fn joining(&self) -> (joining: Joining)
        requires
            self.wf(),
        ensures
            joining == joining_at(self.spec_steps(), self.spec_pc()),
    {
        if self.pc < self.steps.len() {
            match self.steps[self.pc] {
                Step::NewNet { base_port: _, authorities, full, light } => Joining {
                    authorities,
                    full,
                    light,
                },
                Step::InsertNodes { full, light } => Joining { authorities: 0, full, light },
                _ => Joining { authorities: 0, full: 0, light: 0 },
            }
        } else {
            Joining { authorities: 0, full: 0, light: 0 }
        }
    }

    /// Goes on to the next step.
    fn go_on(&mut self)
        requires
            batches_fit(old(self).spec_steps()),
            old(self).spec_pc() < old(self).spec_steps().len(),
        ensures
            final(self).spec_steps() == old(self).spec_steps(),
            (final(self).spec_pc(), final(self).spec_phase()) == next_step(
                old(self).spec_steps(),
                old(self).spec_pc(),
            ),
            final(self).wf(),
    {
        assert(self.pc < self.steps.len());
        self.pc = self.pc + 1;
        self.phase = Self::enter(&self.steps, self.pc);
    }

    /// Takes what came of the last action.
    pub fn handle(&mut self, event: Event)
        requires
            old(self).wf(),
        ensures
            final(self).spec_steps() == old(self).spec_steps(),
            (final(self).spec_pc(), final(self).spec_phase()) == next_place(
                old(self).spec_steps(),
                old(self).spec_pc(),
                old(self).spec_phase(),
                event,
            ),
            final(self).wf(),
    {
        match self.phase {
            Phase::Finished => {
                return;
            },
            Phase::Failed(_) => {
                return;
            },
            _ => {},
        }
        let step = self.steps[self.pc];
        match (self.phase, event) {
            (Phase::Doing, Event::WaitBegun(full, light)) => {
                if let Step::RunUntilAllFull { .. } = step {
                    self.phase = Phase::Waiting(Wait::new(full, light));
                }
            },
            (Phase::Doing, Event::Done) => match step {
                Step::RunUntilAllFull { .. } => {},
                Step::SubmitExtrinsic(_) => {},
                _ => {
                    self.go_on();
                },
            },
            (Phase::Doing, Event::Counted(number)) => {
                if let Step::SubmitExtrinsic(_) = step {
                    self.phase = Phase::Submitting(number);
                }
            },
            (Phase::Doing, Event::Failed) => match step {
                Step::OpenDir(_) => {
                    self.phase = Phase::Failed(Failure::TestDir);
                },
                Step::AddReservedPeer(_) => {
                    self.phase = Phase::Failed(Failure::ReservedPeer);
                },
                Step::ShutdownRuntime => {
                    self.phase = Phase::Failed(Failure::Shutdown);
                },
                Step::CloseDir => {
                    self.phase = Phase::Failed(Failure::RemoveDir);
                },
                _ => {},
            },
            (Phase::Submitting(_), Event::Done) => {
                self.go_on();
            },
            (Phase::Submitting(_), Event::Failed) => {
                self.phase = Phase::Failed(Failure::Extrinsic);
            },
            (Phase::StartingRuntime, Event::Done) => {
                self.phase = Phase::Building(0);
            },
            (Phase::StartingRuntime, Event::Failed) => {
                self.phase = Phase::Failed(Failure::Runtime);
            },
            (Phase::Building(built), Event::Done) => {
                let size = Self::batch_size(step);
                if built < size && built + 1 < size {
                    self.phase = Phase::Building(built + 1);
                } else {
                    self.go_on();
                }
            },
            (Phase::Building(built), Event::Failed) => {
                if built < Self::batch_size(step) {
                    self.phase = Phase::Failed(Failure::NodeService);
                }
            },
            (Phase::Making(made), Event::Done) => {
                let count: usize = match step {
                    Step::MakeBlocks { node: _, count } => count,
                    _ => 0,
                };
                if made < count && made + 1 < count {
                    self.phase = Phase::Making(made + 1);
                } else {
                    self.go_on();
                }
            },
            (Phase::Waiting(wait), event) => {
                let wait_event = match event {
                    Event::Tick => WaitEvent::Tick,
                    Event::TickFailed => WaitEvent::TickFailed,
                    Event::Elapsed => WaitEvent::Elapsed,
                    Event::Counted(counted) => WaitEvent::Answer(
                        Self::asked(step, wait).1.holds(counted),
                    ),
                    _ => {
                        return;
                    },
                };
                let mut wait = wait;
                wait.advance(wait_event);
                match wait.phase {
                    WaitPhase::Ready => {
                        self.go_on();
                    },
                    WaitPhase::TimedOut => {
                        self.phase = Phase::Failed(Failure::WaitedTooLong);
                    },
                    _ => {
                        self.phase = Phase::Waiting(wait);
                    },
                }
            },
            _ => {},
        }
    }
}

} // verus!
