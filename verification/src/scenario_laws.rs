use crate::net::{batch_joined, NetView, Newcomer, NodeBatch, NodeRef};
use crate::scenario::{
    connectivity_start, connectivity_steps, connectivity_wait, consensus_steps, consensus_wait,
    expected_full_connections, expected_light_connections, link_steps, sync_steps, Condition,
    Quantity, Step, TestDir, CONNECTIVITY_FULL_NODES, CONNECTIVITY_LIGHT_NODES, CONSENSUS_BLOCKS,
    CONSENSUS_FULL_NODES, CONSENSUS_LIGHT_NODES, CONSENSUS_MAX_AUTHORITIES, SYNC_BLOCKS,
    SYNC_FULL_NODES, SYNC_LIGHT_NODES,
};
use crate::topology::{
    added_links_keep_connections, all_connected, authority_star_connects, authority_star_links,
    connects, is_among, line_connects, line_links, links_among, star_connects, star_links, Link,
};
use parity_multiaddr::multihash::Multihash;
use vstd::prelude::*;

verus! {

/// What there is at some point of a scenario.
pub struct Stage {
    /// Whether there is a directory.
    pub dir: bool,
    /// Whether there is a network.
    pub up: bool,
    /// The port of its first node.
    pub base_port: nat,
    /// How many authorities it has.
    pub authorities: nat,
    /// How many full nodes it has.
    pub full: nat,
    /// How many light nodes it has.
    pub light: nat,
    /// The links that were made in it.
    pub links: Seq<Link>,
}

impl Stage {
    /// Before the first step.
    pub open spec fn empty() -> Stage {
        Stage {
            dir: false,
            up: false,
            base_port: 0,
            authorities: 0,
            full: 0,
            light: 0,
            links: Seq::empty(),
        }
    }

    /// Whether the network has this node.
    pub open spec fn has(self, node: NodeRef) -> bool {
        self.up && is_among(node, self.authorities, self.full, self.light)
    }

    /// Whether there is a port for every node, and for so many more.
    pub open spec fn has_ports_for(self, more: nat) -> bool {
        self.base_port + self.authorities + self.full + self.light + more <= 0x1_0000
    }

    /// Whether all nodes of the network are connected to one of them.
    pub open spec fn connected(self) -> bool {
        exists|hub: NodeRef| #[trigger]
            self.has(hub) && all_connected(
                self.links,
                self.authorities,
                self.full,
                self.light,
                hub,
            )
    }

    /// What there is after a step.
    pub open spec fn after(self, step: Step) -> Stage {
        match step {
            Step::OpenDir(_) => Stage { dir: true, ..self },
            Step::NewNet { base_port, authorities, full, light } => Stage {
                dir: self.dir,
                up: true,
                base_port: base_port as nat,
                authorities: authorities as nat,
                full: full as nat,
                light: light as nat,
                links: Seq::empty(),
            },
            Step::InsertNodes { full, light } => Stage {
                full: self.full + full as nat,
                light: self.light + light as nat,
                ..self
            },
            Step::AddReservedPeer(link) => Stage { links: self.links.push(link), ..self },
            Step::ShutdownRuntime => Stage { up: false, ..self },
            Step::DropNet => Stage { up: false, ..self },
            Step::CloseDir => Stage { dir: false, ..self },
            Step::MakeBlocks { .. } => self,
            Step::SubmitExtrinsic(_) => self,
            Step::RunUntilAllFull { .. } => self,
        }
    }

    /// Whether a step can be made: the nodes that it speaks of are there, every new node has a
    /// port, and a wait begins only in a network that is connected.
    pub open spec fn allows(self, step: Step) -> bool {
        match step {
            Step::OpenDir(_) => !self.dir && !self.up,
            Step::NewNet { base_port, authorities, full, light } => {
                &&& self.dir
                &&& !self.up
                &&& self.after(step).has_ports_for(0)
            },
            Step::InsertNodes { full, light } => {
                &&& self.up
                &&& self.has_ports_for(full as nat + light as nat)
            },
            Step::AddReservedPeer(link) => {
                &&& self.has(link.node)
                &&& self.has(link.peer)
                &&& link.node != link.peer
            },
            Step::MakeBlocks { node, count } => self.has(node) && node is Full,
            Step::SubmitExtrinsic(node) => self.has(node) && node is Full,
            Step::RunUntilAllFull { .. } => self.up && self.connected(),
            Step::ShutdownRuntime => self.up,
            Step::DropNet => self.up,
            Step::CloseDir => self.dir && !self.up,
        }
    }
}

/// Whether a network has the nodes that there are at some point of a scenario.
pub open spec fn has_nodes_of<C, F, L, U>(net: NetView<C, F, L, U>, stage: Stage) -> bool {
    &&& net.authority_nodes.len() == stage.authorities
    &&& net.full_nodes.len() == stage.full
    &&& net.light_nodes.len() == stage.light
}

/// Whether a batch is the one that joins in a step.
pub open spec fn is_batch_of(batch: NodeBatch, step: Step) -> bool {
    match step {
        Step::NewNet { base_port, authorities, full, light } => {
            &&& batch.authorities@.len() == authorities
            &&& batch.full == full
            &&& batch.light == light
        },
        Step::InsertNodes { full, light } => {
            &&& batch.authorities@.len() == 0
            &&& batch.full == full
            &&& batch.light == light
        },
        _ => false,
    }
}

/// Once the batch of a step joined, the network has the nodes that there are after the step: where
/// it was new before, and where it had the nodes that there were and more are added. A wait for
/// this network is then for as many full and light nodes as the steps put into it.
pub proof fn joined_batch_makes_stage<C, F, L, U>(
    stage: Stage,
    step: Step,
    before: NetView<C, F, L, U>,
    after: NetView<C, F, L, U>,
    batch: NodeBatch,
    newcomers: Seq<(Newcomer<F, L, U>, Multihash)>,
)
    requires
        step is NewNet ==> has_nodes_of(before, Stage::empty()),
        step is InsertNodes ==> has_nodes_of(before, stage),
        is_batch_of(batch, step),
        newcomers.len() == batch.total(),
        batch_joined(before, after, batch, newcomers),
    ensures
        has_nodes_of(after, stage.after(step)),
{
}

/// What there is after some steps.
#[verifier::opaque]
pub open spec fn stage_after(start: Stage, steps: Seq<Step>) -> Stage
    decreases steps.len(),
{
    if steps.len() == 0 {
        start
    } else {
        stage_after(start, steps.drop_last()).after(steps.last())
    }
}

/// Whether each of some steps can be made after those before it.
#[verifier::opaque]
pub open spec fn runs(start: Stage, steps: Seq<Step>) -> bool
    decreases steps.len(),
{
    ||| steps.len() == 0
    ||| {
        &&& runs(start, steps.drop_last())
        &&& stage_after(start, steps.drop_last()).allows(steps.last())
    }
}

/// It is always possible to make no step, which changes nothing.
proof fn runs_nothing(start: Stage)
    ensures
        runs(start, Seq::empty()),
        stage_after(start, Seq::empty()) == start,
{
    reveal(runs);
    reveal(stage_after);
}

/// Steps after steps.
proof fn runs_on(start: Stage, a: Seq<Step>, b: Seq<Step>)
    requires
        runs(start, a),
        runs(stage_after(start, a), b),
    ensures
        runs(start, a + b),
        stage_after(start, a + b) == stage_after(stage_after(start, a), b),
    decreases b.len(),
{
    reveal(runs);
    reveal(stage_after);
    if b.len() == 0 {
        assert(a + b =~= a);
    } else {
        runs_on(start, a, b.drop_last());
        assert((a + b).drop_last() =~= a + b.drop_last());
        assert((a + b).last() == b.last());
    }
}

/// One step after steps.
proof fn runs_step(start: Stage, steps: Seq<Step>, step: Step)
    requires
        runs(start, steps),
        stage_after(start, steps).allows(step),
    ensures
        runs(start, steps.push(step)),
        stage_after(start, steps.push(step)) == stage_after(start, steps).after(step),
{
    reveal(runs);
    reveal(stage_after);
    assert(steps.push(step).drop_last() =~= steps);
}

/// Links among the nodes of a network can be made.
proof fn links_run(start: Stage, links: Seq<Link>)
    requires
        start.up,
        links_among(links, start.authorities, start.full, start.light),
    ensures
        runs(start, link_steps(links)),
        stage_after(start, link_steps(links)) == (Stage { links: start.links + links, ..start }),
    decreases links.len(),
{
    reveal(runs);
    reveal(stage_after);
    let steps = link_steps(links);
    if links.len() == 0 {
        assert(start.links + links =~= start.links);
    } else {
        let fewer = links.drop_last();
        assert forall|i: int| 0 <= i < fewer.len() implies is_among(
            (#[trigger] fewer[i]).node,
            start.authorities,
            start.full,
            start.light,
        ) && is_among(fewer[i].peer, start.authorities, start.full, start.light) && fewer[i].node
            != fewer[i].peer by {
            assert(fewer[i] == links[i]);
        }
        links_run(start, fewer);
        assert(steps.drop_last() =~= link_steps(fewer));
        assert(steps.last() == Step::AddReservedPeer(links.last()));
        assert(links[links.len() - 1] == links.last());
        assert((start.links + fewer).push(links.last()) =~= start.links + links);
    }
}

/// A network of the connectivity test starts where there is neither a network nor a directory.
proof fn start_runs(start: Stage)
    requires
        !start.dir,
        !start.up,
    ensures
        runs(start, connectivity_start()),
        stage_after(start, connectivity_start()) == (Stage {
            dir: true,
            up: true,
            base_port: 30400,
            authorities: 0,
            full: CONNECTIVITY_FULL_NODES as nat,
            light: CONNECTIVITY_LIGHT_NODES as nat,
            links: Seq::empty(),
        }),
{
    let none = Seq::<Step>::empty();
    let open = Step::OpenDir(TestDir::Connectivity);
    let new = connectivity_start()[1];
    runs_nothing(start);
    runs_step(start, none, open);
    runs_step(start, none.push(open), new);
    assert(connectivity_start() =~= none.push(open).push(new));
}

/// One part of the connectivity test, with its links and the way in which it drops its network.
pub open spec fn connectivity_part(links: Seq<Link>, wait: Step, drop: Step) -> Seq<Step> {
    connectivity_start() + link_steps(links) + seq![wait, drop, Step::CloseDir]
}

/// A part of the connectivity test runs where there is neither a network nor a directory, and
/// leaves neither.
proof fn connectivity_part_runs(start: Stage, links: Seq<Link>, wait: Step, drop: Step)
    requires
        !start.dir,
        !start.up,
        links_among(
            links,
            0,
            CONNECTIVITY_FULL_NODES as nat,
            CONNECTIVITY_LIGHT_NODES as nat,
        ),
        all_connected(
            links,
            0,
            CONNECTIVITY_FULL_NODES as nat,
            CONNECTIVITY_LIGHT_NODES as nat,
            NodeRef::Full(0),
        ),
        wait is RunUntilAllFull,
        drop is ShutdownRuntime || drop is DropNet,
    ensures
        runs(start, connectivity_part(links, wait, drop)),
        !stage_after(start, connectivity_part(links, wait, drop)).dir,
        !stage_after(start, connectivity_part(links, wait, drop)).up,
{
    let s1 = connectivity_start();
    start_runs(start);
    links_run(stage_after(start, s1), links);
    runs_on(start, s1, link_steps(links));
    let s2 = s1 + link_steps(links);
    let linked = stage_after(start, s2);
    assert(linked.links =~= links);
    assert(linked.has(NodeRef::Full(0)));
    runs_step(start, s2, wait);
    runs_step(start, s2.push(wait), drop);
    runs_step(start, s2.push(wait).push(drop), Step::CloseDir);
    assert(connectivity_part(links, wait, drop) =~= s2.push(wait).push(drop).push(Step::CloseDir));
}

/// The connectivity test runs: its links join nodes that are there, and it waits only once a star,
/// and then a line, connects them all. It leaves neither a network nor a directory.
pub proof fn connectivity_runs(interconnected: bool)
    ensures
        runs(Stage::empty(), connectivity_steps(interconnected)),
        !stage_after(Stage::empty(), connectivity_steps(interconnected)).up,
        !stage_after(Stage::empty(), connectivity_steps(interconnected)).dir,
{
    let full = CONNECTIVITY_FULL_NODES as nat;
    let light = CONNECTIVITY_LIGHT_NODES as nat;
    star_connects(full, light);
    line_connects(full, light);
    let empty = Stage::empty();
    let wait = connectivity_wait(interconnected);
    let first = connectivity_part(star_links(full, light), wait, Step::ShutdownRuntime);
    let second = connectivity_part(line_links(full, light), wait, Step::DropNet);
    connectivity_part_runs(empty, star_links(full, light), wait, Step::ShutdownRuntime);
    connectivity_part_runs(
        stage_after(empty, first),
        line_links(full, light),
        wait,
        Step::DropNet,
    );
    runs_on(empty, first, second);
    assert(first + second =~= connectivity_steps(interconnected));
}

/// The sync test runs: its links join nodes that are there, the node that makes the blocks and
/// takes the transaction is there, and the test waits only once a star connects all nodes.
pub proof fn sync_runs()
    ensures
        runs(Stage::empty(), sync_steps()),
{
    let full = SYNC_FULL_NODES as nat;
    let light = SYNC_LIGHT_NODES as nat;
    let links = star_links(full, light);
    star_connects(full, light);
    let empty = Stage::empty();
    let none = Seq::<Step>::empty();
    let open = Step::OpenDir(TestDir::Sync);
    let new = Step::NewNet {
        base_port: 30500,
        authorities: 0,
        full: SYNC_FULL_NODES,
        light: SYNC_LIGHT_NODES,
    };
    let make = Step::MakeBlocks { node: NodeRef::Full(0), count: SYNC_BLOCKS as usize };
    runs_nothing(empty);
    runs_step(empty, none, open);
    runs_step(empty, none.push(open), new);
    runs_step(empty, none.push(open).push(new), make);
    let s1 = none.push(open).push(new).push(make);
    links_run(stage_after(empty, s1), links);
    runs_on(empty, s1, link_steps(links));
    let s2 = s1 + link_steps(links);
    let linked = stage_after(empty, s2);
    assert(linked.links =~= links);
    assert(linked.has(NodeRef::Full(0)));
    assert(linked.connected());
    let synced = Condition::Equals(Quantity::BestNumber, SYNC_BLOCKS);
    let wait = Step::RunUntilAllFull { full_ready: synced, light_ready: synced };
    let submit = Step::SubmitExtrinsic(NodeRef::Full(0));
    let spread = Step::RunUntilAllFull {
        full_ready: Condition::Equals(Quantity::ReadyTransactions, 1),
        light_ready: Condition::Any,
    };
    runs_step(empty, s2, wait);
    runs_step(empty, s2.push(wait), submit);
    runs_step(empty, s2.push(wait).push(submit), spread);
    assert(sync_steps() =~= s2.push(wait).push(submit).push(spread));
}

/// The consensus test runs: every node gets a port, its links join nodes that are there, and the
/// test waits only once stars round the first authority connect all nodes, those that join later
/// too.
pub proof fn consensus_runs(authorities: usize)
    requires
        0 < authorities <= CONSENSUS_MAX_AUTHORITIES,
    ensures
        runs(Stage::empty(), consensus_steps(authorities)),
{
    let n = authorities as nat;
    let full = CONSENSUS_FULL_NODES / 2;
    let light = CONSENSUS_LIGHT_NODES / 2;
    let first = authority_star_links(n, full as nat, light as nat);
    let second = authority_star_links(
        1,
        CONSENSUS_FULL_NODES as nat,
        CONSENSUS_LIGHT_NODES as nat,
    );
    authority_star_connects(n, full as nat, light as nat);
    authority_star_connects(1, CONSENSUS_FULL_NODES as nat, CONSENSUS_LIGHT_NODES as nat);
    let hub = NodeRef::Authority(0);
    let empty = Stage::empty();
    let none = Seq::<Step>::empty();
    let open = Step::OpenDir(TestDir::Consensus);
    let new = Step::NewNet { base_port: 30600, authorities, full, light };
    runs_nothing(empty);
    runs_step(empty, none, open);
    runs_step(empty, none.push(open), new);
    let s1 = none.push(open).push(new);
    links_run(stage_after(empty, s1), first);
    runs_on(empty, s1, link_steps(first));
    let s2 = s1 + link_steps(first);
    let linked = stage_after(empty, s2);
    assert(linked.links =~= first);
    assert(linked.has(hub));
    let wait = consensus_wait(CONSENSUS_BLOCKS / 2);
    let insert = Step::InsertNodes { full, light };
    runs_step(empty, s2, wait);
    runs_step(empty, s2.push(wait), insert);
    let s3 = s2.push(wait).push(insert);
    let joined = stage_after(empty, s3);
    assert(joined.full == CONSENSUS_FULL_NODES && joined.light == CONSENSUS_LIGHT_NODES);
    links_run(joined, second);
    runs_on(empty, s3, link_steps(second));
    let s4 = s3 + link_steps(second);
    let relinked = stage_after(empty, s4);
    assert(relinked.links == first + second);
    assert(relinked.has(hub));
    assert forall|node: NodeRef| #[trigger]
        is_among(node, n, relinked.full, relinked.light) implies connects(
        relinked.links,
        node,
        hub,
    ) by {
        if node is Authority {
            assert(is_among(node, n, full as nat, light as nat));
        } else {
            assert(is_among(node, 1, relinked.full, relinked.light));
        }
        added_links_keep_connections(first, second, node, hub);
    }
    let last = consensus_wait(CONSENSUS_BLOCKS);
    runs_step(empty, s4, last);
    assert(consensus_steps(authorities) =~= s4.push(last));
}

/// Whether two nodes connect once they know each other: a light node connects to another only
/// where light nodes do.
pub open spec fn would_connect(a: NodeRef, b: NodeRef, interconnected: bool) -> bool {
    a != b && (interconnected || a is Full || b is Full)
}

/// How many of the first `n` full nodes a node connects to.
pub open spec fn full_peers(node: NodeRef, n: nat, interconnected: bool) -> nat
    decreases n,
{
    if n == 0 {
        0
    } else {
        let i = (n - 1) as nat;
        full_peers(node, i, interconnected) + if would_connect(
            node,
            NodeRef::Full(i as usize),
            interconnected,
        ) {
            1nat
        } else {
            0nat
        }
    }
}

/// How many of the first `n` light nodes a node connects to.
pub open spec fn light_peers(node: NodeRef, n: nat, interconnected: bool) -> nat
    decreases n,
{
    if n == 0 {
        0
    } else {
        let i = (n - 1) as nat;
        light_peers(node, i, interconnected) + if would_connect(
            node,
            NodeRef::Light(i as usize),
            interconnected,
        ) {
            1nat
        } else {
            0nat
        }
    }
}

proof fn count_full_peers(node: NodeRef, n: nat, interconnected: bool)
    requires
        n <= usize::MAX,
        node is Full || node is Light,
    ensures
        full_peers(node, n, interconnected) == match node {
            NodeRef::Full(i) => if i < n {
                n - 1
            } else {
                n as int
            },
            _ => n as int,
        },
    decreases n,
{
    if n > 0 {
        count_full_peers(node, (n - 1) as nat, interconnected);
    }
}

proof fn count_light_peers(node: NodeRef, n: nat, interconnected: bool)
    requires
        n <= usize::MAX,
        node is Full || node is Light,
    ensures
        light_peers(node, n, interconnected) == match node {
            NodeRef::Light(i) => if !interconnected {
                0
            } else if i < n {
                n - 1
            } else {
                n as int
            },
            _ => n as int,
        },
    decreases n,
{
    if n > 0 {
        count_light_peers(node, (n - 1) as nat, interconnected);
    }
}

/// The connections that the connectivity test expects of a node are those to all the nodes that it
/// would connect to.
pub proof fn expected_connections_are_the_peers(
    node: NodeRef,
    full: nat,
    light: nat,
    interconnected: bool,
)
    requires
        full <= usize::MAX,
        light <= usize::MAX,
        is_among(node, 0, full, light),
    ensures
        full_peers(node, full, interconnected) + light_peers(node, light, interconnected)
            == if node is Full {
            expected_full_connections(full, light)
        } else {
            expected_light_connections(full, light, interconnected)
        },
{
    count_full_peers(node, full, interconnected);
    count_light_peers(node, light, interconnected);
}

} // verus!
