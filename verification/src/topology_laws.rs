use crate::net::NodeRef;
use crate::topology::{
    authority_star_links, by_turns, greater, line_links, star_links, Link,
};
use vstd::prelude::*;

verus! {

/// A star round the first full node, link by link: there is one link for every other node, from
/// the second full node on in the order of positions and then from the first light node on, and
/// each is to the first full node.
pub proof fn star_link_by_link(full: nat, light: nat)
    requires
        0 < full <= usize::MAX,
        light <= usize::MAX,
    ensures
        star_links(full, light).len() == full - 1 + light,
        forall|k: int|
            0 <= k < full - 1 ==> #[trigger] star_links(full, light)[k] == (Link {
                node: NodeRef::Full((k + 1) as usize),
                peer: NodeRef::Full(0),
            }),
        forall|k: int|
            full - 1 <= k < full - 1 + light ==> #[trigger] star_links(full, light)[k] == (Link {
                node: NodeRef::Light((k - (full - 1)) as usize),
                peer: NodeRef::Full(0),
            }),
{
}

/// A star round the first authority, link by link: there is one link for every full node, then one
/// for every light node, then one for every authority but the first, in the order of positions,
/// and each is to the first authority.
pub proof fn authority_star_link_by_link(authorities: nat, full: nat, light: nat)
    requires
        authorities <= usize::MAX,
        full <= usize::MAX,
        light <= usize::MAX,
    ensures
        authority_star_links(authorities, full, light).len() == full + light + if authorities > 0 {
            authorities - 1
        } else {
            0
        },
        forall|k: int|
            0 <= k < full ==> #[trigger] authority_star_links(authorities, full, light)[k]
                == (Link { node: NodeRef::Full(k as usize), peer: NodeRef::Authority(0) }),
        forall|k: int|
            full <= k < full + light ==> #[trigger] authority_star_links(
                authorities,
                full,
                light,
            )[k] == (Link { node: NodeRef::Light((k - full) as usize), peer: NodeRef::Authority(0) }),
        forall|k: int|
            full + light <= k < full + light + authorities - 1
                ==> #[trigger] authority_star_links(authorities, full, light)[k] == (Link {
                node: NodeRef::Authority((k - full - light + 1) as usize),
                peer: NodeRef::Authority(0),
            }),
{
}

/// The node that is in place `k` of a line, counted from zero: full and light nodes alternate,
/// beginning with the first full node, until one kind runs out, and the other kind goes on.
pub open spec fn in_line(full: nat, light: nat, k: int) -> NodeRef {
    if full <= light {
        if k < 2 * full {
            if k % 2 == 0 {
                NodeRef::Full((k / 2) as usize)
            } else {
                NodeRef::Light((k / 2) as usize)
            }
        } else {
            NodeRef::Light((k - full) as usize)
        }
    } else {
        if k < 2 * light {
            if k % 2 == 0 {
                NodeRef::Full((k / 2) as usize)
            } else {
                NodeRef::Light((k / 2) as usize)
            }
        } else {
            NodeRef::Full((k - light) as usize)
        }
    }
}

/// The nodes by turns are those of a line, up to position `n` of both kinds.
proof fn turns_in_line(full: nat, light: nat, n: nat)
    requires
        full <= usize::MAX,
        light <= usize::MAX,
    ensures
        by_turns(full, light, n).len() == (if n < full {
            n
        } else {
            full
        }) + (if n < light {
            n
        } else {
            light
        }),
        forall|k: int|
            0 <= k < by_turns(full, light, n).len() ==> #[trigger] by_turns(full, light, n)[k]
                == in_line(full, light, k),
    decreases n,
{
    if n > 0 {
        turns_in_line(full, light, (n - 1) as nat);
    }
}

/// A line is one path over all full and light nodes, in the order of `in_line`: it has one link
/// fewer than there are nodes, the link in place `k` is from the node in place `k + 1` to the one
/// before it, so that the first link is to the first full node and every later one to the node of
/// the link just before.
pub proof fn line_is_a_path(full: nat, light: nat)
    requires
        0 < full <= usize::MAX,
        light <= usize::MAX,
    ensures
        line_links(full, light).len() == full + light - 1,
        forall|k: int|
            0 <= k < full + light - 1 ==> #[trigger] line_links(full, light)[k] == (Link {
                node: in_line(full, light, k + 1),
                peer: in_line(full, light, k),
            }),
        full + light > 1 ==> line_links(full, light)[0].peer == NodeRef::Full(0),
        forall|k: int|
            1 <= k < full + light - 1 ==> (#[trigger] line_links(full, light)[k]).peer
                == line_links(full, light)[k - 1].node,
{
    turns_in_line(full, light, greater(full, light));
}

/// Two places of a line hold two nodes.
proof fn places_differ(full: nat, light: nat, i: int, j: int)
    requires
        full <= usize::MAX,
        light <= usize::MAX,
        0 <= i < j < full + light,
    ensures
        in_line(full, light, i) != in_line(full, light, j),
{
}

/// Whether one of some links is from `node`.
pub open spec fn has_link_from(links: Seq<Link>, node: NodeRef) -> bool {
    exists|i: int| 0 <= i < links.len() && (#[trigger] links[i]).node == node
}

/// In a line no two links are from the same node and no two are to the same node, none is from the
/// first full node, and every other node has its link.
pub proof fn line_takes_each_node_once(full: nat, light: nat)
    requires
        0 < full <= usize::MAX,
        light <= usize::MAX,
    ensures
        forall|i: int, j: int|
            #![trigger line_links(full, light)[i], line_links(full, light)[j]]
            0 <= i < j < line_links(full, light).len() ==> line_links(full, light)[i].node
                != line_links(full, light)[j].node && line_links(full, light)[i].peer
                != line_links(full, light)[j].peer,
        forall|i: int|
            0 <= i < line_links(full, light).len() ==> (#[trigger] line_links(full, light)[i]).node
                != NodeRef::Full(0),
        forall|p: usize|
            0 < p < full ==> #[trigger] has_link_from(line_links(full, light), NodeRef::Full(p)),
        forall|p: usize|
            p < light ==> #[trigger] has_link_from(line_links(full, light), NodeRef::Light(p)),
{
    let links = line_links(full, light);
    let at = |k: int| in_line(full, light, k);
    assert(links.len() == full + light - 1 && forall|k: int|
        0 <= k < links.len() ==> #[trigger] links[k] == (Link { node: at(k + 1), peer: at(k) })) by {
        line_is_a_path(full, light);
    }
    assert forall|i: int, j: int|
        #![trigger links[i], links[j]]
        0 <= i < j < links.len() implies links[i].node != links[j].node && links[i].peer
        != links[j].peer by {
        places_differ(full, light, i, j);
        places_differ(full, light, i + 1, j + 1);
    }
    assert forall|i: int| 0 <= i < links.len() implies (#[trigger] links[i]).node != NodeRef::Full(
        0,
    ) by {
        places_differ(full, light, 0, i + 1);
    }
    assert forall|p: usize| 0 < p < full implies #[trigger] has_link_from(links, NodeRef::Full(p)) by {
        let k = if p < light {
            2 * p
        } else {
            p + light
        };
        assert(in_line(full, light, k) == NodeRef::Full(p));
        assert(links[k - 1].node == NodeRef::Full(p));
    }
    assert forall|p: usize| p < light implies #[trigger] has_link_from(links, NodeRef::Light(p)) by {
        let k = if p < full {
            2 * p + 1
        } else {
            p + full
        };
        assert(in_line(full, light, k) == NodeRef::Light(p));
        assert(links[k - 1].node == NodeRef::Light(p));
    }
}

} // verus!
