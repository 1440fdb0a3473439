use crate::net::NodeRef;
use crate::scenario::{
    batch_size, connectivity_start, connectivity_steps, connectivity_wait, consensus_steps,
    consensus_wait, link_steps, sync_steps, Condition, Quantity, Step, TestDir,
};
use crate::topology::{authority_star_links, line_links, star_links, Link};
use crate::topology_laws::{
    authority_star_link_by_link, in_line, line_is_a_path, star_link_by_link,
};
use vstd::prelude::*;

verus! {

/// A node whose condition is that a quantity equals a number is ready when it is that number and
/// never else; one whose condition is that it is at least a number is ready from that number on.
/// What is counted is the quantity that the condition names. Without a condition a node is always
/// ready, and nothing is counted.
pub proof fn conditions_mean_what_they_say(quantity: Quantity, number: u32, counted: int)
    ensures
        Condition::Equals(quantity, number).spec_holds(counted) <==> counted == number,
        Condition::AtLeast(quantity, number).spec_holds(counted) <==> counted >= number,
        Condition::Any.spec_holds(counted),
        Condition::Equals(quantity, number).spec_quantity() == Some(quantity),
        Condition::AtLeast(quantity, number).spec_quantity() == Some(quantity),
        Condition::Any.spec_quantity() is None,
{
}

/// As many nodes join in a step as it says of each kind, taken together.
pub proof fn batches_are_sums(base_port: u16, authorities: usize, full: usize, light: usize)
    ensures
        batch_size(Step::NewNet { base_port, authorities, full, light }) == authorities + full
            + light,
        batch_size(Step::InsertNodes { full, light }) == full + light,
{
}

/// The steps for some links add each link once and in order.
pub proof fn links_are_added_in_order(links: Seq<Link>)
    ensures
        link_steps(links).len() == links.len(),
        forall|i: int|
            0 <= i < links.len() ==> #[trigger] link_steps(links)[i] == Step::AddReservedPeer(
                links[i],
            ),
{
}

/// How many authorities there are besides the first.
pub open spec fn other_authorities(authorities: usize) -> int {
    if authorities > 0 {
        authorities - 1
    } else {
        0
    }
}

/// Makes one node a reserved peer of another.
pub open spec fn links(node: NodeRef, peer: NodeRef) -> Step {
    Step::AddReservedPeer(Link { node, peer })
}

/// The connectivity test, step by step: a network of five full and five light nodes from port
/// 30400 on is linked as a star round the first full node, and a second one as a line in which full
/// and light nodes alternate. In both, every full node has to be connected to all nine others, and
/// every light node to the five full nodes, or to all nine others where light nodes connect to each
/// other.
pub proof fn connectivity_step_by_step(interconnected: bool)
    ensures
        ({
            let steps = connectivity_steps(interconnected);
            let start = Step::NewNet { base_port: 30400, authorities: 0, full: 5, light: 5 };
            let wait = Step::RunUntilAllFull {
                full_ready: Condition::Equals(Quantity::Connections, 9),
                light_ready: Condition::Equals(
                    Quantity::Connections,
                    if interconnected {
                        9
                    } else {
                        5
                    },
                ),
            };
            &&& steps.len() == 28
            &&& steps[0] == Step::OpenDir(TestDir::Connectivity)
            &&& steps[1] == start
            &&& forall|k: int|
                0 <= k < 4 ==> #[trigger] steps[2 + k] == links(
                    NodeRef::Full((k + 1) as usize),
                    NodeRef::Full(0),
                )
            &&& forall|k: int|
                0 <= k < 5 ==> #[trigger] steps[6 + k] == links(
                    NodeRef::Light(k as usize),
                    NodeRef::Full(0),
                )
            &&& steps[11] == wait
            &&& steps[12] == Step::ShutdownRuntime
            &&& steps[13] == Step::CloseDir
            &&& steps[14] == Step::OpenDir(TestDir::Connectivity)
            &&& steps[15] == start
            &&& forall|k: int|
                0 <= k < 5 ==> #[trigger] steps[16 + 2 * k] == links(
                    NodeRef::Light(k as usize),
                    NodeRef::Full(k as usize),
                )
            &&& forall|k: int|
                0 <= k < 4 ==> #[trigger] steps[17 + 2 * k] == links(
                    NodeRef::Full((k + 1) as usize),
                    NodeRef::Light(k as usize),
                )
            &&& steps[25] == wait
            &&& steps[26] == Step::DropNet
            &&& steps[27] == Step::CloseDir
        }),
{
    let steps = connectivity_steps(interconnected);
    star_link_by_link(5, 5);
    line_is_a_path(5, 5);
    let s1 = connectivity_start();
    let s2 = link_steps(star_links(5, 5));
    let s3 = seq![connectivity_wait(interconnected), Step::ShutdownRuntime, Step::CloseDir];
    let s4 = link_steps(line_links(5, 5));
    let s5 = seq![connectivity_wait(interconnected), Step::DropNet, Step::CloseDir];
    assert(steps == s1 + s2 + s3 + s1 + s4 + s5);
    assert forall|k: int| 0 <= k < 4 implies #[trigger] steps[2 + k] == links(
        NodeRef::Full((k + 1) as usize),
        NodeRef::Full(0),
    ) by {
        assert(steps[2 + k] == s2[k]);
        assert(star_links(5, 5)[k].node == NodeRef::Full((k + 1) as usize));
    }
    assert forall|k: int| 0 <= k < 5 implies #[trigger] steps[6 + k] == links(
        NodeRef::Light(k as usize),
        NodeRef::Full(0),
    ) by {
        assert(steps[6 + k] == s2[4 + k]);
        assert(star_links(5, 5)[4 + k].node == NodeRef::Light(k as usize));
    }
    assert forall|k: int| 0 <= k < 5 implies #[trigger] steps[16 + 2 * k] == links(
        NodeRef::Light(k as usize),
        NodeRef::Full(k as usize),
    ) by {
        assert(steps[16 + 2 * k] == s4[2 * k]);
        assert(line_links(5, 5)[2 * k].node == in_line(5, 5, 2 * k + 1));
    }
    assert forall|k: int| 0 <= k < 4 implies #[trigger] steps[17 + 2 * k] == links(
        NodeRef::Full((k + 1) as usize),
        NodeRef::Light(k as usize),
    ) by {
        assert(steps[17 + 2 * k] == s4[2 * k + 1]);
        assert(line_links(5, 5)[2 * k + 1].node == in_line(5, 5, 2 * k + 2));
    }
}

/// The sync test, step by step: in a network of ten full and ten light nodes from port 30500 on the
/// first full node makes 512 blocks, all others are linked to it, every node has to have a best
/// block of number 512, a transaction is submitted to the first full node, and every full node has
/// to have one transaction that is ready.
pub proof fn sync_step_by_step()
    ensures
        ({
            let steps = sync_steps();
            &&& steps.len() == 25
            &&& steps[0] == Step::OpenDir(TestDir::Sync)
            &&& steps[1] == Step::NewNet { base_port: 30500, authorities: 0, full: 10, light: 10 }
            &&& steps[2] == Step::MakeBlocks { node: NodeRef::Full(0), count: 512 }
            &&& forall|k: int|
                0 <= k < 9 ==> #[trigger] steps[3 + k] == links(
                    NodeRef::Full((k + 1) as usize),
                    NodeRef::Full(0),
                )
            &&& forall|k: int|
                0 <= k < 10 ==> #[trigger] steps[12 + k] == links(
                    NodeRef::Light(k as usize),
                    NodeRef::Full(0),
                )
            &&& steps[22] == Step::RunUntilAllFull {
                full_ready: Condition::Equals(Quantity::BestNumber, 512),
                light_ready: Condition::Equals(Quantity::BestNumber, 512),
            }
            &&& steps[23] == Step::SubmitExtrinsic(NodeRef::Full(0))
            &&& steps[24] == Step::RunUntilAllFull {
                full_ready: Condition::Equals(Quantity::ReadyTransactions, 1),
                light_ready: Condition::Any,
            }
        }),
{
    star_link_by_link(10, 10);
    let steps = sync_steps();
    let added = link_steps(star_links(10, 10));
    assert forall|k: int| 0 <= k < 9 implies #[trigger] steps[3 + k] == links(
        NodeRef::Full((k + 1) as usize),
        NodeRef::Full(0),
    ) by {
        assert(steps[3 + k] == added[k]);
        assert(star_links(10, 10)[k].node == NodeRef::Full((k + 1) as usize));
    }
    assert forall|k: int| 0 <= k < 10 implies #[trigger] steps[12 + k] == links(
        NodeRef::Light(k as usize),
        NodeRef::Full(0),
    ) by {
        assert(steps[12 + k] == added[9 + k]);
        assert(star_links(10, 10)[9 + k].node == NodeRef::Light(k as usize));
    }
}

/// The consensus test, step by step, with any number of authorities: in a network of these, five
/// full and five light nodes from port 30600 on, all nodes are linked to the first authority; every
/// full node has to have made five blocks final and every light node to know of five; then five
/// full and five light nodes join, all full and light nodes are linked to the first authority, and
/// the last step asks for ten blocks in place of five.
pub proof fn consensus_step_by_step(authorities: usize)
    ensures
        ({
            let steps = consensus_steps(authorities);
            let others = other_authorities(authorities);
            &&& steps.len() == 35 + others
            &&& steps[0] == Step::OpenDir(TestDir::Consensus)
            &&& steps[1] == Step::NewNet { base_port: 30600, authorities, full: 5, light: 5 }
            &&& forall|k: int|
                0 <= k < 5 ==> #[trigger] steps[2 + k] == links(
                    NodeRef::Full(k as usize),
                    NodeRef::Authority(0),
                )
            &&& forall|k: int|
                0 <= k < 5 ==> #[trigger] steps[7 + k] == links(
                    NodeRef::Light(k as usize),
                    NodeRef::Authority(0),
                )
            &&& forall|k: int|
                0 <= k < others ==> #[trigger] steps[12 + k] == links(
                    NodeRef::Authority((k + 1) as usize),
                    NodeRef::Authority(0),
                )
            &&& steps[12 + others] == Step::RunUntilAllFull {
                full_ready: Condition::AtLeast(Quantity::FinalizedNumber, 5),
                light_ready: Condition::AtLeast(Quantity::BestNumber, 5),
            }
            &&& steps[13 + others] == Step::InsertNodes { full: 5, light: 5 }
            &&& forall|k: int|
                0 <= k < 10 ==> #[trigger] steps[14 + others + k] == links(
                    NodeRef::Full(k as usize),
                    NodeRef::Authority(0),
                )
            &&& forall|k: int|
                0 <= k < 10 ==> #[trigger] steps[24 + others + k] == links(
                    NodeRef::Light(k as usize),
                    NodeRef::Authority(0),
                )
            &&& steps.last() == Step::RunUntilAllFull {
                full_ready: Condition::AtLeast(Quantity::FinalizedNumber, 10),
                light_ready: Condition::AtLeast(Quantity::BestNumber, 10),
            }
        }),
{
    let steps = consensus_steps(authorities);
    let n = authorities as nat;
    let others = other_authorities(authorities);
    authority_star_link_by_link(n, 5, 5);
    authority_star_link_by_link(1, 10, 10);
    let first = link_steps(authority_star_links(n, 5, 5));
    let second = link_steps(authority_star_links(1, 10, 10));
    let s1 = seq![
        Step::OpenDir(TestDir::Consensus),
        Step::NewNet { base_port: 30600, authorities, full: 5, light: 5 },
    ];
    let s2 = seq![consensus_wait(5), Step::InsertNodes { full: 5, light: 5 }];
    assert(steps =~= s1 + first + s2 + second + seq![consensus_wait(10)]);
    assert(first.len() == 10 + others && second.len() == 20);
    assert forall|k: int| 0 <= k < 5 implies #[trigger] steps[2 + k] == links(
        NodeRef::Full(k as usize),
        NodeRef::Authority(0),
    ) by {
        assert(steps[2 + k] == first[k]);
        assert(authority_star_links(n, 5, 5)[k].node == NodeRef::Full(k as usize));
    }
    assert forall|k: int| 0 <= k < 5 implies #[trigger] steps[7 + k] == links(
        NodeRef::Light(k as usize),
        NodeRef::Authority(0),
    ) by {
        assert(steps[7 + k] == first[5 + k]);
        assert(authority_star_links(n, 5, 5)[5 + k].node == NodeRef::Light(k as usize));
    }
    assert forall|k: int| 0 <= k < others implies #[trigger] steps[12 + k] == links(
        NodeRef::Authority((k + 1) as usize),
        NodeRef::Authority(0),
    ) by {
        assert(steps[12 + k] == first[10 + k]);
        assert(authority_star_links(n, 5, 5)[10 + k].node == NodeRef::Authority((k + 1) as usize));
    }
    assert forall|k: int| 0 <= k < 10 implies #[trigger] steps[14 + others + k] == links(
        NodeRef::Full(k as usize),
        NodeRef::Authority(0),
    ) by {
        assert(steps[14 + others + k] == second[k]);
        assert(authority_star_links(1, 10, 10)[k].node == NodeRef::Full(k as usize));
    }
    assert forall|k: int| 0 <= k < 10 implies #[trigger] steps[24 + others + k] == links(
        NodeRef::Light(k as usize),
        NodeRef::Authority(0),
    ) by {
        assert(steps[24 + others + k] == second[10 + k]);
        assert(authority_star_links(1, 10, 10)[10 + k].node == NodeRef::Light(k as usize));
    }
}

} // verus!
