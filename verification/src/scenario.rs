use crate::net::{NodeBatch, NodeRef};
use crate::topology::{
    authority_star, authority_star_links, line, line_links, star, star_links, Link,
};
use vstd::prelude::*;

verus! {

/// The test whose files a directory holds.
#[derive(Debug, Clone, Copy, PartialEq, Eq, Structural)]
pub enum TestDir {
    /// The connectivity test.
    Connectivity,
    /// The sync test.
    Sync,
    /// The consensus test.
    Consensus,
}

/// How the name of a test's directory begins.
pub open spec fn dir_prefix(dir: TestDir) -> Seq<char> {
    match dir {
        TestDir::Connectivity => "substrate-connectivity-test"@,
        TestDir::Sync => "substrate-sync-test"@,
        TestDir::Consensus => "substrate-conensus-test"@,
    }
}

impl TestDir {
    /// How the name of the directory begins.
    pub fn prefix(&self) -> (prefix: &'static str)
        ensures
            prefix@ == dir_prefix(*self),
    {
        match self {
            TestDir::Connectivity => "substrate-connectivity-test",
            TestDir::Sync => "substrate-sync-test",
            TestDir::Consensus => "substrate-conensus-test",
        }
    }
}

/// What is counted at a node.
#[derive(Debug, Clone, Copy, PartialEq, Eq, Structural)]
pub enum Quantity {
    /// The peers that it is connected to.
    Connections,
    /// The number of its best block.
    BestNumber,
    /// The number of the last block that is final.
    FinalizedNumber,
    /// The transactions of its pool that are ready.
    ReadyTransactions,
}

/// When a node counts as ready.
#[derive(Debug, Clone, Copy, PartialEq, Eq, Structural)]
pub enum Condition {
    /// Always.
    Any,
    /// When a quantity is this number.
    Equals(Quantity, u32),
    /// When a quantity is this number or greater.
    AtLeast(Quantity, u32),
}

impl Condition {
    /// What has to be counted to see whether the condition holds; nothing where it always does.
    pub open spec fn spec_quantity(&self) -> Option<Quantity> {
        match *self {
            Condition::Any => None,
            Condition::Equals(quantity, _) => Some(quantity),
            Condition::AtLeast(quantity, _) => Some(quantity),
        }
    }

    /// Whether the condition holds where `counted` was counted.
    pub open spec fn spec_holds(&self, counted: int) -> bool {
        match *self {
            Condition::Any => true,
            Condition::Equals(_, number) => counted == number,
            Condition::AtLeast(_, number) => counted >= number,
        }
    }

    /// What has to be counted to see whether the condition holds; nothing where it always does.
    pub fn quantity(&self) -> (quantity: Option<Quantity>)
        ensures
            quantity == self.spec_quantity(),
    {
        match *self {
            Condition::Any => None,
            Condition::Equals(quantity, _) => Some(quantity),
            Condition::AtLeast(quantity, _) => Some(quantity),
        }
    }

    /// Whether the condition holds where `counted` was counted.
    pub fn holds(&self, counted: u128) -> (holds: bool)
        ensures
            holds == self.spec_holds(counted as int),
    {
        match *self {
            Condition::Any => true,
            Condition::Equals(_, number) => counted == number as u128,
            Condition::AtLeast(_, number) => counted >= number as u128,
        }
    }
}

/// One step of a scenario.
#[derive(Debug, Clone, Copy, PartialEq, Eq, Structural)]
pub enum Step {
    /// Make a temporary directory for the files of a test.
    OpenDir(TestDir),
    /// Start a network of so many nodes, of which the first listens at `base_port`.
    NewNet { base_port: u16, authorities: usize, full: usize, light: usize },
    /// Add so many nodes to the network.
    InsertNodes { full: usize, light: usize },
    /// Make one node a reserved peer of another.
    AddReservedPeer(Link),
    /// Make blocks at a node, one after the other, and import them there.
    MakeBlocks { node: NodeRef, count: usize },
    /// Submit a transaction to the pool of a node, at the block that is its best one then.
    SubmitExtrinsic(NodeRef),
    /// Wait until every full and every light node is ready.
    RunUntilAllFull { full_ready: Condition, light_ready: Condition },
    /// Drop the network and shut down what it ran on.
    ShutdownRuntime,
    /// Drop the network with what it ran on.
    DropNet,
    /// Remove the directory.
    CloseDir,
}

/// How many nodes join in a step.
pub open spec fn batch_size(step: Step) -> int {
    match step {
        Step::NewNet { base_port, authorities, full, light } => authorities + full + light,
        Step::InsertNodes { full, light } => full + light,
        _ => 0,
    }
}

/// Whether every batch is small enough to be counted.
pub open spec fn batches_fit(steps: Seq<Step>) -> bool {
    forall|i: int| 0 <= i < steps.len() ==> batch_size(#[trigger] steps[i]) <= usize::MAX
}

/// What is done in a test, step by step; a test fails at the first step that fails.
pub struct Scenario {
    /// The seeds of the keys of the authorities.
    pub authorities: Vec<String>,
    /// The steps.
    pub steps: Vec<Step>,
}

impl Scenario {
    /// The nodes that join with `authorities` authorities, which are the first of the scenario.
    pub fn batch(&self, authorities: usize, full: usize, light: usize) -> (batch: NodeBatch)
        requires
            authorities <= self.authorities@.len(),
        ensures
            batch.authorities@ == self.authorities@.take(authorities as int),
            batch.full == full,
            batch.light == light,
    {
        let mut keys: Vec<String> = Vec::new();
        let mut i: usize = 0;
        while i < authorities
            invariant
                i <= authorities <= self.authorities@.len(),
                keys@ == self.authorities@.take(i as int),
            decreases authorities - i,
        {
            keys.push(self.authorities[i].clone());
            i = i + 1;
            assert(keys@ =~= self.authorities@.take(i as int));
        }
        NodeBatch { authorities: keys, full, light }
    }
}

/// The steps that make links.
pub open spec fn link_steps(links: Seq<Link>) -> Seq<Step> {
    Seq::new(links.len(), |i: int| Step::AddReservedPeer(links[i]))
}

fn push_links(steps: &mut Vec<Step>, links: &Vec<Link>)
    ensures
        final(steps)@ == old(steps)@ + link_steps(links@),
{
    let ghost before = steps@;
    let mut i: usize = 0;
    while i < links.len()
        invariant
            i <= links@.len(),
            steps@ == before + link_steps(links@).take(i as int),
        decreases links@.len() - i,
    {
        steps.push(Step::AddReservedPeer(links[i]));
        i = i + 1;
        assert(steps@ =~= before + link_steps(links@).take(i as int));
    }
    assert(link_steps(links@).take(i as int) =~= link_steps(links@));
}

/// How many full nodes the connectivity test runs.
pub const CONNECTIVITY_FULL_NODES: usize = 5;

/// How many light nodes the connectivity test runs.
pub const CONNECTIVITY_LIGHT_NODES: usize = 5;

/// How many full nodes the sync test runs.
pub const SYNC_FULL_NODES: usize = 10;

/// How many light nodes the sync test runs.
pub const SYNC_LIGHT_NODES: usize = 10;

/// How many blocks the sync test makes.
pub const SYNC_BLOCKS: u32 = 512;

/// How many full nodes the consensus test runs in the end; half of them from the start.
pub const CONSENSUS_FULL_NODES: usize = 10;

/// How many light nodes the consensus test runs in the end; half of them from the start.
pub const CONSENSUS_LIGHT_NODES: usize = 10;

/// How many blocks the consensus test waits for.
pub const CONSENSUS_BLOCKS: u32 = 10;

/// How many authorities the consensus test has ports for, with its other nodes.
pub const CONSENSUS_MAX_AUTHORITIES: usize = 34916;

/// How many connections a full node is expected to have: one to every other node.
pub open spec fn expected_full_connections(full: nat, light: nat) -> int {
    full - 1 + light
}

/// How many connections a light node is expected to have: one to every full node, and one to
/// every other light node where these connect to each other.
pub open spec fn expected_light_connections(full: nat, light: nat, interconnected: bool) -> int {
    if interconnected {
        full - 1 + light
    } else {
        full as int
    }
}

/// The wait of the connectivity test.
pub open spec fn connectivity_wait(interconnected: bool) -> Step {
    let full = CONNECTIVITY_FULL_NODES as nat;
    let light = CONNECTIVITY_LIGHT_NODES as nat;
    Step::RunUntilAllFull {
        full_ready: Condition::Equals(
            Quantity::Connections,
            expected_full_connections(full, light) as u32,
        ),
        light_ready: Condition::Equals(
            Quantity::Connections,
            expected_light_connections(full, light, interconnected) as u32,
        ),
    }
}

/// How a network of the connectivity test starts.
pub open spec fn connectivity_start() -> Seq<Step> {
    seq![
        Step::OpenDir(TestDir::Connectivity),
        Step::NewNet {
            base_port: 30400,
            authorities: 0,
            full: CONNECTIVITY_FULL_NODES,
            light: CONNECTIVITY_LIGHT_NODES,
        },
    ]
}

/// The steps of the connectivity test: a star, and then a line.
pub open spec fn connectivity_steps(interconnected: bool) -> Seq<Step> {
    let full = CONNECTIVITY_FULL_NODES as nat;
    let light = CONNECTIVITY_LIGHT_NODES as nat;
    connectivity_start() + link_steps(star_links(full, light)) + seq![
        connectivity_wait(interconnected),
        Step::ShutdownRuntime,
        Step::CloseDir,
    ] + connectivity_start() + link_steps(line_links(full, light)) + seq![
        connectivity_wait(interconnected),
        Step::DropNet,
        Step::CloseDir,
    ]
}

/// The steps of the sync test.
pub open spec fn sync_steps() -> Seq<Step> {
    let synced = Condition::Equals(Quantity::BestNumber, SYNC_BLOCKS);
    seq![
        Step::OpenDir(TestDir::Sync),
        Step::NewNet {
            base_port: 30500,
            authorities: 0,
            full: SYNC_FULL_NODES,
            light: SYNC_LIGHT_NODES,
        },
        Step::MakeBlocks { node: NodeRef::Full(0), count: SYNC_BLOCKS as usize },
    ] + link_steps(star_links(SYNC_FULL_NODES as nat, SYNC_LIGHT_NODES as nat)) + seq![
        Step::RunUntilAllFull { full_ready: synced, light_ready: synced },
        Step::SubmitExtrinsic(NodeRef::Full(0)),
        Step::RunUntilAllFull {
            full_ready: Condition::Equals(Quantity::ReadyTransactions, 1),
            light_ready: Condition::Any,
        },
    ]
}

/// A wait of the consensus test: full nodes have made so many blocks final, and light nodes know
/// of so many.
pub open spec fn consensus_wait(blocks: u32) -> Step {
    Step::RunUntilAllFull {
        full_ready: Condition::AtLeast(Quantity::FinalizedNumber, blocks),
        light_ready: Condition::AtLeast(Quantity::BestNumber, blocks),
    }
}

/// The steps of the consensus test with so many authorities.
pub open spec fn consensus_steps(authorities: usize) -> Seq<Step> {
    let full = CONSENSUS_FULL_NODES / 2;
    let light = CONSENSUS_LIGHT_NODES / 2;
    seq![
        Step::OpenDir(TestDir::Consensus),
        Step::NewNet { base_port: 30600, authorities, full, light },
    ] + link_steps(authority_star_links(authorities as nat, full as nat, light as nat)) + seq![
        consensus_wait(CONSENSUS_BLOCKS / 2),
        Step::InsertNodes { full, light },
    ] + link_steps(
        authority_star_links(1, CONSENSUS_FULL_NODES as nat, CONSENSUS_LIGHT_NODES as nat),
    ) + seq![consensus_wait(CONSENSUS_BLOCKS)]
}

/// Checks that nodes find each other from a star of reserved peers and from a line of them. Light
/// nodes are expected to connect to each other where `light_node_interconnectivity` says so, which
/// is for light nodes that are not actually light.
pub fn connectivity(light_node_interconnectivity: bool) -> (scenario: Scenario)
    ensures
        scenario.authorities@.len() == 0,
        scenario.steps@ == connectivity_steps(light_node_interconnectivity),
        batches_fit(scenario.steps@),
{
    let full = CONNECTIVITY_FULL_NODES;
    let light = CONNECTIVITY_LIGHT_NODES;
    let expected_full_connections: u32 = (full - 1 + light) as u32;
    let expected_light_connections: u32 = if light_node_interconnectivity {
        expected_full_connections
    } else {
        full as u32
    };
    let open = Step::OpenDir(TestDir::Connectivity);
    let start = Step::NewNet { base_port: 30400, authorities: 0, full, light };
    let wait = Step::RunUntilAllFull {
        full_ready: Condition::Equals(Quantity::Connections, expected_full_connections),
        light_ready: Condition::Equals(Quantity::Connections, expected_light_connections),
    };
    let mut steps: Vec<Step> = Vec::new();
    steps.push(open);
    steps.push(start);
    push_links(&mut steps, &star(full, light));
    steps.push(wait);
    steps.push(Step::ShutdownRuntime);
    steps.push(Step::CloseDir);
    steps.push(open);
    steps.push(start);
    push_links(&mut steps, &line(full, light));
    steps.push(wait);
    steps.push(Step::DropNet);
    steps.push(Step::CloseDir);
    assert(steps@ =~= connectivity_steps(light_node_interconnectivity));
    Scenario { authorities: Vec::new(), steps }
}

/// Checks that nodes sync the blocks of the first full node, and that a transaction reaches the
/// full nodes.
pub fn sync() -> (scenario: Scenario)
    ensures
        scenario.authorities@.len() == 0,
        scenario.steps@ == sync_steps(),
        batches_fit(scenario.steps@),
{
    let full = SYNC_FULL_NODES;
    let light = SYNC_LIGHT_NODES;
    let first = NodeRef::Full(0);
    let synced = Condition::Equals(Quantity::BestNumber, SYNC_BLOCKS);
    let mut steps: Vec<Step> = Vec::new();
    steps.push(Step::OpenDir(TestDir::Sync));
    steps.push(Step::NewNet { base_port: 30500, authorities: 0, full, light });
    steps.push(Step::MakeBlocks { node: first, count: SYNC_BLOCKS as usize });
    push_links(&mut steps, &star(full, light));
    steps.push(Step::RunUntilAllFull { full_ready: synced, light_ready: synced });
    steps.push(Step::SubmitExtrinsic(first));
    steps.push(
        Step::RunUntilAllFull {
            full_ready: Condition::Equals(Quantity::ReadyTransactions, 1),
            light_ready: Condition::Any,
        },
    );
    assert(steps@ =~= sync_steps());
    Scenario { authorities: Vec::new(), steps }
}

/// Checks that blocks become final, first in a small network and then after more nodes joined it.
/// Without an authority the test comes no further than to its first link, which is to one; with
/// more than `CONSENSUS_MAX_AUTHORITIES` of them it comes to a node that there is no port for.
pub fn consensus(authorities: Vec<String>) -> (scenario: Scenario)
    requires
        authorities@.len() + CONSENSUS_FULL_NODES / 2 + CONSENSUS_LIGHT_NODES / 2 <= usize::MAX,
    ensures
        scenario.authorities == authorities,
        scenario.steps@ == consensus_steps(authorities@.len() as usize),
        batches_fit(scenario.steps@),
{
    let count = authorities.len();
    let full = CONSENSUS_FULL_NODES / 2;
    let light = CONSENSUS_LIGHT_NODES / 2;
    let mut steps: Vec<Step> = Vec::new();
    steps.push(Step::OpenDir(TestDir::Consensus));
    steps.push(Step::NewNet { base_port: 30600, authorities: count, full, light });
    push_links(&mut steps, &authority_star(count, full, light));
    steps.push(
        Step::RunUntilAllFull {
            full_ready: Condition::AtLeast(Quantity::FinalizedNumber, CONSENSUS_BLOCKS / 2),
            light_ready: Condition::AtLeast(Quantity::BestNumber, CONSENSUS_BLOCKS / 2),
        },
    );
    steps.push(Step::InsertNodes { full, light });
    push_links(
        &mut steps,
        &authority_star(1, CONSENSUS_FULL_NODES, CONSENSUS_LIGHT_NODES),
    );
    steps.push(
        Step::RunUntilAllFull {
            full_ready: Condition::AtLeast(Quantity::FinalizedNumber, CONSENSUS_BLOCKS),
            light_ready: Condition::AtLeast(Quantity::BestNumber, CONSENSUS_BLOCKS),
        },
    );
    assert(steps@ =~= consensus_steps(count));
    Scenario { authorities, steps }
}

} // verus!
