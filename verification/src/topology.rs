use crate::net::NodeRef;
use vstd::prelude::*;

verus! {

/// One reserved peer: `node` keeps a connection to `peer`.
#[derive(Debug, Clone, Copy, PartialEq, Eq, Structural)]
pub struct Link {
    /// The node that keeps the connection.
    pub node: NodeRef,
    /// The node that it keeps the connection to.
    pub peer: NodeRef,
}

/// Links from the full nodes, from position `first` on, to one node.
pub open spec fn full_links(first: nat, full: nat, hub: NodeRef) -> Seq<Link>
    recommends
        first <= full,
{
    Seq::new(
        (full - first) as nat,
        |i: int| Link { node: NodeRef::Full((first + i) as usize), peer: hub },
    )
}

/// Links from the light nodes to one node.
pub open spec fn light_links(light: nat, hub: NodeRef) -> Seq<Link> {
    Seq::new(light, |i: int| Link { node: NodeRef::Light(i as usize), peer: hub })
}

/// Links from the authorities but the first to one node.
pub open spec fn authority_links(authorities: nat, hub: NodeRef) -> Seq<Link> {
    Seq::new(
        if authorities > 0 {
            (authorities - 1) as nat
        } else {
            0
        },
        |i: int| Link { node: NodeRef::Authority((1 + i) as usize), peer: hub },
    )
}

/// A star round the first full node: every other full node and every light node is linked to it.
pub open spec fn star_links(full: nat, light: nat) -> Seq<Link> {
    full_links(1, full, NodeRef::Full(0)) + light_links(light, NodeRef::Full(0))
}

/// A star round the first authority: every full node, every light node and every other authority
/// is linked to it.
pub open spec fn authority_star_links(authorities: nat, full: nat, light: nat) -> Seq<Link> {
    full_links(0, full, NodeRef::Authority(0)) + light_links(light, NodeRef::Authority(0))
        + authority_links(authorities, NodeRef::Authority(0))
}

/// The first `n` full and light nodes by turns: the first full node, the first light node, the
/// second full node, and so on; where one kind runs out, the other goes on alone.
pub open spec fn by_turns(full: nat, light: nat, n: nat) -> Seq<NodeRef>
    decreases n,
{
    if n == 0 {
        Seq::empty()
    } else {
        let i = (n - 1) as nat;
        let before = by_turns(full, light, i);
        let with_full = if i < full {
            before.push(NodeRef::Full(i as usize))
        } else {
            before
        };
        if i < light {
            with_full.push(NodeRef::Light(i as usize))
        } else {
            with_full
        }
    }
}

/// Links of each node of a chain to the one before it.
pub open spec fn chain_links(chain: Seq<NodeRef>) -> Seq<Link> {
    Seq::new((chain.len() - 1) as nat, |k: int| Link { node: chain[k + 1], peer: chain[k] })
}

/// The greater of two numbers.
pub open spec fn greater(a: nat, b: nat) -> nat {
    if a < b {
        b
    } else {
        a
    }
}

/// A line through all full and light nodes by turns: each is linked to the one before it.
pub open spec fn line_links(full: nat, light: nat) -> Seq<Link> {
    chain_links(by_turns(full, light, greater(full, light)))
}

fn push_full_links(links: &mut Vec<Link>, first: usize, full: usize, hub: NodeRef)
    requires
        first <= full,
    ensures
        final(links)@ == old(links)@ + full_links(first as nat, full as nat, hub),
{
    let ghost before = links@;
    let mut i: usize = first;
    while i < full
        invariant
            first <= i <= full,
            links@ == before + full_links(first as nat, i as nat, hub),
        decreases full - i,
    {
        links.push(Link { node: NodeRef::Full(i), peer: hub });
        i = i + 1;
        assert(links@ =~= before + full_links(first as nat, i as nat, hub));
    }
}

fn push_light_links(links: &mut Vec<Link>, light: usize, hub: NodeRef)
    ensures
        final(links)@ == old(links)@ + light_links(light as nat, hub),
{
    let ghost before = links@;
    let mut i: usize = 0;
    assert(links@ =~= before + light_links(0, hub));
    while i < light
        invariant
            i <= light,
            links@ == before + light_links(i as nat, hub),
        decreases light - i,
    {
        links.push(Link { node: NodeRef::Light(i), peer: hub });
        i = i + 1;
        assert(links@ =~= before + light_links(i as nat, hub));
    }
}

/// Links every other full node and every light node to the first full node.
pub fn star(full: usize, light: usize) -> (links: Vec<Link>)
    requires
        full > 0,
    ensures
        links@ == star_links(full as nat, light as nat),
{
    let mut links: Vec<Link> = Vec::new();
    push_full_links(&mut links, 1, full, NodeRef::Full(0));
    push_light_links(&mut links, light, NodeRef::Full(0));
    assert(links@ =~= star_links(full as nat, light as nat));
    links
}

/// Links every full node, every light node and every other authority to the first authority.
pub fn authority_star(authorities: usize, full: usize, light: usize) -> (links: Vec<Link>)
    ensures
        links@ == authority_star_links(authorities as nat, full as nat, light as nat),
{
    let hub = NodeRef::Authority(0);
    let mut links: Vec<Link> = Vec::new();
    push_full_links(&mut links, 0, full, hub);
    push_light_links(&mut links, light, hub);
    let ghost before = links@;
    assert(before =~= full_links(0, full as nat, hub) + light_links(light as nat, hub));
    let mut i: usize = 1;
    assert(links@ =~= before + authority_links(1, hub));
    while i < authorities
        invariant
            1 <= i,
            i <= authorities || i == 1,
            links@ == before + authority_links(i as nat, hub),
        decreases authorities - i,
    {
        links.push(Link { node: NodeRef::Authority(i), peer: hub });
        i = i + 1;
        assert(links@ =~= before + authority_links(i as nat, hub));
    }
    assert(links@ =~= before + authority_links(authorities as nat, hub));
    links
}

/// Links the full and light nodes in a line, by turns.
pub fn line(full: usize, light: usize) -> (links: Vec<Link>)
    requires
        full > 0,
    ensures
        links@ == line_links(full as nat, light as nat),
{
    let mut links: Vec<Link> = Vec::new();
    let mut address = NodeRef::Full(0);
    let max_nodes: usize = if full < light {
        light
    } else {
        full
    };
    let mut i: usize = 0;
    let ghost mut chain = seq![NodeRef::Full(0)];
    assert(links@ =~= chain_links(chain));
    while i < max_nodes
        invariant
            full > 0,
            i <= max_nodes,
            max_nodes == greater(full as nat, light as nat),
            i == 0 ==> chain == seq![NodeRef::Full(0)],
            i > 0 ==> chain == by_turns(full as nat, light as nat, i as nat),
            chain.len() > 0,
            address == chain.last(),
            links@ == chain_links(chain),
        decreases max_nodes - i,
    {
        if i != 0 && i < full {
            links.push(Link { node: NodeRef::Full(i), peer: address });
            address = NodeRef::Full(i);
            proof {
                chain = chain.push(address);
            }
            assert(links@ =~= chain_links(chain));
        }
        assert(chain =~= {
            let before = by_turns(full as nat, light as nat, i as nat);
            if i < full {
                before.push(NodeRef::Full(i))
            } else {
                before
            }
        });
        if i < light {
            links.push(Link { node: NodeRef::Light(i), peer: address });
            address = NodeRef::Light(i);
            proof {
                chain = chain.push(address);
            }
            assert(links@ =~= chain_links(chain));
        }
        i = i + 1;
    }
    links
}

/// Whether at most `n` links lead from `a` to `b`.
pub open spec fn leads(links: Seq<Link>, a: NodeRef, b: NodeRef, n: nat) -> bool
    decreases n,
{
    ||| a == b
    ||| n > 0 && exists|i: int|
        0 <= i < links.len() && (#[trigger] links[i]).node == a && leads(
            links,
            links[i].peer,
            b,
            (n - 1) as nat,
        )
}

/// Whether links lead from `a` to `b`.
pub open spec fn connects(links: Seq<Link>, a: NodeRef, b: NodeRef) -> bool {
    exists|n: nat| leads(links, a, b, n)
}

/// Whether `node` is one of so many authorities, full and light nodes.
pub open spec fn is_among(node: NodeRef, authorities: nat, full: nat, light: nat) -> bool {
    match node {
        NodeRef::Authority(i) => i < authorities,
        NodeRef::Full(i) => i < full,
        NodeRef::Light(i) => i < light,
    }
}

/// Whether every one of so many nodes is connected to `hub`.
pub open spec fn all_connected(
    links: Seq<Link>,
    authorities: nat,
    full: nat,
    light: nat,
    hub: NodeRef,
) -> bool {
    forall|node: NodeRef| #[trigger]
        is_among(node, authorities, full, light) ==> connects(links, node, hub)
}

/// Whether links join so many nodes only, and no node with itself.
pub open spec fn links_among(links: Seq<Link>, authorities: nat, full: nat, light: nat) -> bool {
    forall|i: int|
        0 <= i < links.len() ==> is_among(
            (#[trigger] links[i]).node,
            authorities,
            full,
            light,
        ) && is_among(links[i].peer, authorities, full, light) && links[i].node != links[i].peer
}

/// A node that is linked to `b` is connected to it.
proof fn linked_connects(links: Seq<Link>, i: int, b: NodeRef)
    requires
        0 <= i < links.len(),
        links[i].peer == b,
    ensures
        connects(links, links[i].node, b),
{
    assert(leads(links, b, b, 0));
    assert(leads(links, links[i].node, b, 1));
}

/// A node is connected to itself.
proof fn connects_itself(links: Seq<Link>, a: NodeRef)
    ensures
        connects(links, a, a),
{
    assert(leads(links, a, a, 0));
}

/// More links connect no less.
proof fn more_links_lead(few: Seq<Link>, many: Seq<Link>, a: NodeRef, b: NodeRef, n: nat)
    requires
        leads(few, a, b, n),
        forall|i: int| 0 <= i < few.len() ==> many.contains(#[trigger] few[i]),
    ensures
        leads(many, a, b, n),
    decreases n,
{
    if a != b {
        let i = choose|i: int|
            0 <= i < few.len() && (#[trigger] few[i]).node == a && leads(
                few,
                few[i].peer,
                b,
                (n - 1) as nat,
            );
        more_links_lead(few, many, few[i].peer, b, (n - 1) as nat);
        assert(many.contains(few[i]));
        let j = choose|j: int| 0 <= j < many.len() && many[j] == few[i];
        assert(many[j].node == a);
    }
}

/// Nodes that are connected stay so when links are added.
pub proof fn added_links_keep_connections(
    links: Seq<Link>,
    added: Seq<Link>,
    a: NodeRef,
    b: NodeRef,
)
    requires
        connects(links, a, b) || connects(added, a, b),
    ensures
        connects(links + added, a, b),
{
    let all = links + added;
    assert forall|i: int| 0 <= i < links.len() implies all.contains(#[trigger] links[i]) by {
        assert(all[i] == links[i]);
    }
    assert forall|i: int| 0 <= i < added.len() implies all.contains(#[trigger] added[i]) by {
        assert(all[links.len() + i] == added[i]);
    }
    if connects(links, a, b) {
        let n = choose|n: nat| leads(links, a, b, n);
        more_links_lead(links, all, a, b, n);
    } else {
        let n = choose|n: nat| leads(added, a, b, n);
        more_links_lead(added, all, a, b, n);
    }
}

/// A star connects all nodes to the first full node, and joins no others.
pub proof fn star_connects(full: nat, light: nat)
    requires
        0 < full <= usize::MAX,
        light <= usize::MAX,
    ensures
        all_connected(star_links(full, light), 0, full, light, NodeRef::Full(0)),
        links_among(star_links(full, light), 0, full, light),
{
    let links = star_links(full, light);
    assert forall|node: NodeRef| #[trigger] is_among(node, 0, full, light) implies connects(
        links,
        node,
        NodeRef::Full(0),
    ) by {
        match node {
            NodeRef::Full(i) => {
                if i == 0 {
                    connects_itself(links, node);
                } else {
                    assert(links[i - 1].node == node);
                    linked_connects(links, i - 1, NodeRef::Full(0));
                }
            },
            NodeRef::Light(i) => {
                let k = full - 1 + i;
                assert(links[k].node == node);
                linked_connects(links, k, NodeRef::Full(0));
            },
            NodeRef::Authority(_) => {},
        }
    }
}

/// A star round the first authority connects all nodes to it, and joins no others.
pub proof fn authority_star_connects(authorities: nat, full: nat, light: nat)
    requires
        0 < authorities <= usize::MAX,
        full <= usize::MAX,
        light <= usize::MAX,
    ensures
        all_connected(
            authority_star_links(authorities, full, light),
            authorities,
            full,
            light,
            NodeRef::Authority(0),
        ),
        links_among(authority_star_links(authorities, full, light), authorities, full, light),
{
    let links = authority_star_links(authorities, full, light);
    let hub = NodeRef::Authority(0);
    assert forall|node: NodeRef| #[trigger]
        is_among(node, authorities, full, light) implies connects(links, node, hub) by {
        match node {
            NodeRef::Full(i) => {
                assert(links[i as int].node == node);
                linked_connects(links, i as int, hub);
            },
            NodeRef::Light(i) => {
                assert(links[full + i].node == node);
                linked_connects(links, full + i, hub);
            },
            NodeRef::Authority(i) => {
                if i == 0 {
                    connects_itself(links, node);
                } else {
                    assert(links[full + light + i - 1].node == node);
                    linked_connects(links, full + light + i - 1, hub);
                }
            },
        }
    }
}

/// The nodes by turns are the full and light nodes up to position `n`, each of them once.
pub proof fn turns_are_the_nodes(full: nat, light: nat, n: nat)
    requires
        n <= usize::MAX,
    ensures
        by_turns(full, light, n).no_duplicates(),
        forall|node: NodeRef| #[trigger]
            by_turns(full, light, n).contains(node) <==> is_among(
                node,
                0,
                if n < full { n } else { full },
                if n < light { n } else { light },
            ),
    decreases n,
{
    if n > 0 {
        let i = (n - 1) as nat;
        turns_are_the_nodes(full, light, i);
        let before = by_turns(full, light, i);
        let f = NodeRef::Full(i as usize);
        let l = NodeRef::Light(i as usize);
        assert(!before.contains(f));
        assert(!before.contains(l));
        let with_full = if i < full { before.push(f) } else { before };
        assert forall|node: NodeRef| #[trigger]
            with_full.contains(node) <==> before.contains(node) || (i < full && node == f) by {
            pushed_contains(before, f, node);
        }
        assert(with_full.no_duplicates());
        assert(!with_full.contains(l));
        let after = by_turns(full, light, n);
        assert forall|node: NodeRef| #[trigger]
            after.contains(node) <==> with_full.contains(node) || (i < light && node == l) by {
            pushed_contains(with_full, l, node);
        }
    }
}

/// What a sequence contains once `last` is at its end.
proof fn pushed_contains(nodes: Seq<NodeRef>, last: NodeRef, node: NodeRef)
    ensures
        nodes.push(last).contains(node) <==> nodes.contains(node) || node == last,
{
    let pushed = nodes.push(last);
    if nodes.contains(node) {
        let i = choose|i: int| 0 <= i < nodes.len() && nodes[i] == node;
        assert(pushed[i] == node);
    }
    assert(pushed[nodes.len() as int] == last);
}

/// Every node of a chain is connected to the first one.
proof fn chain_leads(chain: Seq<NodeRef>, k: nat)
    requires
        k < chain.len(),
    ensures
        leads(chain_links(chain), chain[k as int], chain[0], k),
    decreases k,
{
    if k > 0 {
        chain_leads(chain, (k - 1) as nat);
        assert(chain_links(chain)[k - 1].node == chain[k as int]);
    }
}

/// The first node by turns is the first full node.
proof fn first_turn(full: nat, light: nat, n: nat)
    requires
        full > 0,
        n > 0,
    ensures
        by_turns(full, light, n).len() > 0,
        by_turns(full, light, n)[0] == NodeRef::Full(0),
    decreases n,
{
    if n > 1 {
        first_turn(full, light, (n - 1) as nat);
    } else {
        assert(by_turns(full, light, 0).len() == 0);
    }
}

/// A line connects all nodes to the first full node, and joins no others.
pub proof fn line_connects(full: nat, light: nat)
    requires
        0 < full <= usize::MAX,
        light <= usize::MAX,
    ensures
        all_connected(line_links(full, light), 0, full, light, NodeRef::Full(0)),
        links_among(line_links(full, light), 0, full, light),
{
    let n = greater(full, light);
    let chain = by_turns(full, light, n);
    let links = line_links(full, light);
    turns_are_the_nodes(full, light, n);
    first_turn(full, light, n);
    assert forall|node: NodeRef| #[trigger] is_among(node, 0, full, light) implies connects(
        links,
        node,
        NodeRef::Full(0),
    ) by {
        assert(chain.contains(node));
        let k = choose|k: int| 0 <= k < chain.len() && chain[k] == node;
        chain_leads(chain, k as nat);
    }
    assert forall|i: int| 0 <= i < links.len() implies is_among(
        (#[trigger] links[i]).node,
        0,
        full,
        light,
    ) && is_among(links[i].peer, 0, full, light) && links[i].node != links[i].peer by {
        assert(chain.contains(chain[i]));
        assert(chain.contains(chain[i + 1]));
    }
}

} // verus!
