use crate::address::{
    base58, multiaddr_parts, multihash_bytes, node_port, peers_are_named_last, AddressPart,
};
use crate::config::{settings_of_every_node, Configuration, Roles};
use crate::decimal::decimal;
use crate::net::{NetView, Newcomer, NodeBatch, NodeRef};
use crate::sync_service::SyncService;
use parity_multiaddr::multihash::Multihash;
use vstd::prelude::*;

verus! {

/// The node that joins as number `k` of a batch is built in its role: first come the authorities,
/// each with the seed that stands at its place in the batch, then the full nodes and then the light
/// nodes, which have none. It is built under the next index of the network, for its chain and with
/// its own files and port.
pub proof fn nodes_are_built_in_their_roles<C: Clone, F, L, U>(
    net: NetView<C, F, L, U>,
    config: Configuration<C>,
    batch: NodeBatch,
    k: usize,
    base: Seq<char>,
    downloads: u32,
)
    requires
        net.plans(config, batch, k, base, downloads),
    ensures
        k < batch.authorities@.len() ==> config.roles == Roles::Authority && config.dev_key_seed
            == Some(batch.authorities@[k as int]),
        batch.authorities@.len() <= k < batch.authorities@.len() + batch.full ==> config.roles
            == Roles::Full && config.dev_key_seed is None,
        batch.authorities@.len() + batch.full <= k ==> config.roles == Roles::Light
            && config.dev_key_seed is None,
        cloned(net.chain_spec, config.chain_spec),
        config.name@ == "Node "@ + decimal(net.nodes as nat),
        config.config_dir->0@.base == base,
        config.config_dir->0@.names == seq!["node-"@ + decimal(net.nodes as nat)],
        config.network.max_parallel_downloads == downloads,
        config.network.listen_addresses@.len() == 1,
        net.nodes < 0x1_0000 && net.base_port + net.nodes <= u16::MAX ==> multiaddr_parts(
            config.network.listen_addresses@[0],
        ) == seq![
            AddressPart::Ip4(127, 0, 0, 1),
            AddressPart::Tcp((net.base_port + net.nodes) as u16),
        ],
{
    settings_of_every_node(
        config,
        net.nodes,
        batch.role(k as int),
        batch.key_seed(k as int),
        net.base_port,
        base,
        downloads,
    );
}

/// The seeds with which the authorities of a batch are built are, in order, those of the batch,
/// whatever the networks are like that they join.
pub proof fn authorities_get_the_seeds_of_the_batch<C: Clone, F, L, U>(
    nets: Seq<NetView<C, F, L, U>>,
    configs: Seq<Configuration<C>>,
    batch: NodeBatch,
    base: Seq<char>,
    downloads: u32,
)
    requires
        nets.len() == batch.authorities@.len(),
        configs.len() == batch.authorities@.len(),
        batch.authorities@.len() <= usize::MAX,
        forall|k: int|
            0 <= k < configs.len() ==> (#[trigger] nets[k]).plans(
                configs[k],
                batch,
                k as usize,
                base,
                downloads,
            ),
    ensures
        forall|k: int|
            0 <= k < configs.len() ==> (#[trigger] configs[k]).dev_key_seed is Some,
        Seq::new(configs.len(), |k: int| configs[k].dev_key_seed->0) == batch.authorities@,
{
    assert forall|k: int| 0 <= k < configs.len() implies (#[trigger] configs[k]).dev_key_seed
        == Some(batch.authorities@[k]) by {
        assert(nets[k].plans(configs[k], batch, k as usize, base, downloads));
        nodes_are_built_in_their_roles(nets[k], configs[k], batch, k as usize, base, downloads);
    }
    assert(Seq::new(configs.len(), |k: int| configs[k].dev_key_seed->0) =~= batch.authorities@);
}

/// As many nodes join with a batch as it has authorities, full and light nodes.
pub proof fn batch_is_counted(batch: NodeBatch)
    ensures
        batch.total() == batch.authorities@.len() + batch.full + batch.light,
{
}

/// A node that joins is the last of its kind: it is there with its handle and its user data, under
/// the index that was the next one, and at the address that is made of the loopback interface, the
/// port of that index and its identity. All nodes that were there stay, and the next index is one
/// more.
pub proof fn newcomer_is_the_last_of_its_kind<C, F, L, U>(
    before: NetView<C, F, L, U>,
    after: NetView<C, F, L, U>,
    newcomer: Newcomer<F, L, U>,
    peer: Multihash,
)
    requires
        before.joined_by(after, newcomer, peer),
    ensures
        after.nodes == before.nodes + 1,
        after.base_port == before.base_port,
        after.chain_spec == before.chain_spec,
        ({
            let address = seq![
                AddressPart::Ip4(127, 0, 0, 1),
                AddressPart::Tcp(node_port(before.base_port, before.nodes) as u16),
                AddressPart::P2p(base58(multihash_bytes(peer))),
            ];
            match newcomer {
                Newcomer::Authority(service, user_data) => {
                    let last = after.authority_nodes.last();
                    &&& after.authority_nodes.len() == before.authority_nodes.len() + 1
                    &&& after.authority_nodes.drop_last() == before.authority_nodes
                    &&& last.0 == before.nodes && last.1 == service && last.2 == user_data
                    &&& multiaddr_parts(last.3) == address
                    &&& after.full_nodes == before.full_nodes
                    &&& after.light_nodes == before.light_nodes
                },
                Newcomer::Full(service, user_data) => {
                    let last = after.full_nodes.last();
                    &&& after.full_nodes.len() == before.full_nodes.len() + 1
                    &&& after.full_nodes.drop_last() == before.full_nodes
                    &&& last.0 == before.nodes && last.1 == service && last.2 == user_data
                    &&& multiaddr_parts(last.3) == address
                    &&& after.authority_nodes == before.authority_nodes
                    &&& after.light_nodes == before.light_nodes
                },
                Newcomer::Light(service) => {
                    let last = after.light_nodes.last();
                    &&& after.light_nodes.len() == before.light_nodes.len() + 1
                    &&& after.light_nodes.drop_last() == before.light_nodes
                    &&& last.0 == before.nodes && last.1 == service
                    &&& multiaddr_parts(last.2) == address
                    &&& after.authority_nodes == before.authority_nodes
                    &&& after.full_nodes == before.full_nodes
                },
            }
        }),
{
    peers_are_named_last(node_port(before.base_port, before.nodes), peer);
    match newcomer {
        Newcomer::Authority(service, user_data) => {
            assert(after.authority_nodes.drop_last() =~= before.authority_nodes);
        },
        Newcomer::Full(service, user_data) => {
            assert(after.full_nodes.drop_last() =~= before.full_nodes);
        },
        Newcomer::Light(service) => {
            assert(after.light_nodes.drop_last() =~= before.light_nodes);
        },
    }
}

/// What comes of building a full node or an authority: where it was built, a handle around the
/// service that was built joins in that role, with the user data that came with it and under the
/// identity that it had when it was started; where it was not, nothing changes and the very error
/// is reported.
pub proof fn built_full_nodes_join<C, F, L, U, X, S: FnOnce(&SyncService<F>) -> Multihash>(
    before: NetView<C, F, L, U>,
    after: NetView<C, F, L, U>,
    role: Roles,
    built: Result<(F, U), X>,
    start: S,
    inserted: Result<(), X>,
) -> (joined: (SyncService<F>, Multihash))
    requires
        before.full_comes_of(after, role, built, start, inserted),
        role == Roles::Authority || role == Roles::Full,
    ensures
        inserted is Ok <==> built is Ok,
        built is Err ==> after == before && inserted->Err_0 == built->Err_0,
        built is Ok ==> joined.0.made_from(built->Ok_0.0),
        built is Ok ==> start.ensures((&joined.0,), joined.1),
        built is Ok && role == Roles::Authority ==> before.joined_by(
            after,
            Newcomer::Authority(joined.0, built->Ok_0.1),
            joined.1,
        ),
        built is Ok && role == Roles::Full ==> before.joined_by(
            after,
            Newcomer::Full(joined.0, built->Ok_0.1),
            joined.1,
        ),
{
    match built {
        Ok((service, user_data)) => {
            let (handle, peer) = choose|handle: SyncService<F>, peer: Multihash| #[trigger]
                start.ensures((&handle,), peer) && handle.made_from(service) && before.joined_by(
                    after,
                    if role == Roles::Authority {
                        Newcomer::Authority(handle, user_data)
                    } else {
                        Newcomer::Full(handle, user_data)
                    },
                    peer,
                );
            (handle, peer)
        },
        Err(_) => arbitrary(),
    }
}

/// What comes of building a light node: the same, but that there is no user data.
pub proof fn built_light_nodes_join<C, F, L, U, X, S: FnOnce(&SyncService<L>) -> Multihash>(
    before: NetView<C, F, L, U>,
    after: NetView<C, F, L, U>,
    built: Result<L, X>,
    start: S,
    inserted: Result<(), X>,
) -> (joined: (SyncService<L>, Multihash))
    requires
        before.light_comes_of(after, built, start, inserted),
    ensures
        inserted is Ok <==> built is Ok,
        built is Err ==> after == before && inserted->Err_0 == built->Err_0,
        built is Ok ==> joined.0.made_from(built->Ok_0),
        built is Ok ==> start.ensures((&joined.0,), joined.1),
        built is Ok ==> before.joined_by(after, Newcomer::Light(joined.0), joined.1),
{
    match built {
        Ok(service) => {
            let (handle, peer) = choose|handle: SyncService<L>, peer: Multihash| #[trigger]
                start.ensures((&handle,), peer) && handle.made_from(service) && before.joined_by(
                    after,
                    Newcomer::Light(handle),
                    peer,
                );
            (handle, peer)
        },
        Err(_) => arbitrary(),
    }
}

/// A node is found by its position among the nodes of its kind: there is one exactly where the
/// network has so many, and its index and its address are those that stand there.
pub proof fn nodes_are_found_by_position<C, F, L, U>(net: NetView<C, F, L, U>, i: usize)
    ensures
        net.has(NodeRef::Authority(i)) <==> i < net.authority_nodes.len(),
        net.has(NodeRef::Full(i)) <==> i < net.full_nodes.len(),
        net.has(NodeRef::Light(i)) <==> i < net.light_nodes.len(),
        i < net.authority_nodes.len() ==> net.index_of(NodeRef::Authority(i))
            == net.authority_nodes[i as int].0 && net.address_of(NodeRef::Authority(i))
            == net.authority_nodes[i as int].3,
        i < net.full_nodes.len() ==> net.index_of(NodeRef::Full(i)) == net.full_nodes[i as int].0
            && net.address_of(NodeRef::Full(i)) == net.full_nodes[i as int].3,
        i < net.light_nodes.len() ==> net.index_of(NodeRef::Light(i))
            == net.light_nodes[i as int].0 && net.address_of(NodeRef::Light(i))
            == net.light_nodes[i as int].2,
{
}

/// Other user data for a node is what is found there afterwards, and it changes nothing else: the
/// user data of other nodes, all indices, services and addresses stay.
pub proof fn user_data_is_kept<C, F, L, U>(
    net: NetView<C, F, L, U>,
    node: NodeRef,
    other: NodeRef,
    user_data: U,
)
    requires
        net.user_data_of(node) is Some,
    ensures
        net.with_user_data(node, user_data).user_data_of(node) == Some(user_data),
        other != node ==> net.with_user_data(node, user_data).user_data_of(other)
            == net.user_data_of(other),
        net.with_user_data(node, user_data).light_nodes == net.light_nodes,
        net.with_user_data(node, user_data).authority_nodes.len() == net.authority_nodes.len(),
        net.with_user_data(node, user_data).full_nodes.len() == net.full_nodes.len(),
        forall|i: int|
            0 <= i < net.authority_nodes.len() ==> {
                let entry = #[trigger] net.with_user_data(node, user_data).authority_nodes[i];
                &&& entry.0 == net.authority_nodes[i].0
                &&& entry.1 == net.authority_nodes[i].1
                &&& entry.3 == net.authority_nodes[i].3
            },
        forall|i: int|
            0 <= i < net.full_nodes.len() ==> {
                let entry = #[trigger] net.with_user_data(node, user_data).full_nodes[i];
                &&& entry.0 == net.full_nodes[i].0
                &&& entry.1 == net.full_nodes[i].1
                &&& entry.3 == net.full_nodes[i].3
            },
        net.with_user_data(node, user_data).nodes == net.nodes,
        net.with_user_data(node, user_data).base_port == net.base_port,
        net.with_user_data(node, user_data).chain_spec == net.chain_spec,
{
}

/// User data is kept for exactly the authorities and the full nodes that there are.
pub proof fn full_nodes_have_user_data<C, F, L, U>(net: NetView<C, F, L, U>, i: usize)
    ensures
        net.user_data_of(NodeRef::Light(i)) is None,
        i >= net.full_nodes.len() ==> net.user_data_of(NodeRef::Full(i)) is None,
        i >= net.authority_nodes.len() ==> net.user_data_of(NodeRef::Authority(i)) is None,
        i < net.full_nodes.len() ==> net.user_data_of(NodeRef::Full(i)) == Some(
            net.full_nodes[i as int].2,
        ),
        i < net.authority_nodes.len() ==> net.user_data_of(NodeRef::Authority(i)) == Some(
            net.authority_nodes[i as int].2,
        ),
{
}

/// As long as the indices count ports only once round, there are ports for more nodes exactly where
/// the port of the last of them is one.
pub proof fn room_ends_with_the_last_port<C, F, L, U>(net: NetView<C, F, L, U>, n: nat)
    requires
        net.nodes + n <= 0x1_0000,
        n > 0,
    ensures
        net.has_ports_for(n) <==> net.base_port + net.nodes + n <= 0x1_0000,
{
    let last = n - 1;
    assert((net.nodes + last) as usize == net.nodes + last);
    assert(node_port(net.base_port, (net.nodes + last) as usize) == net.base_port + net.nodes + last);
    if net.base_port + net.nodes + n <= 0x1_0000 {
        assert forall|k: int| 0 <= k < n implies #[trigger] node_port(
            net.base_port,
            (net.nodes + k) as usize,
        ) <= u16::MAX by {
            assert((net.nodes + k) % 0x1_0000 == net.nodes + k);
        }
    }
}

/// The indices of a network are those from zero on, each carried by one node, and within each kind
/// they increase.
pub proof fn indices_count_the_nodes<C, F, L, U>(net: NetView<C, F, L, U>)
    requires
        net.wf(),
    ensures
        net.nodes == net.authority_nodes.len() + net.full_nodes.len() + net.light_nodes.len(),
        forall|i: int, j: int|
            #![trigger net.authority_nodes[i], net.authority_nodes[j]]
            0 <= i < j < net.authority_nodes.len() ==> net.authority_nodes[i].0
                < net.authority_nodes[j].0,
        forall|i: int, j: int|
            #![trigger net.full_nodes[i], net.full_nodes[j]]
            0 <= i < j < net.full_nodes.len() ==> net.full_nodes[i].0 < net.full_nodes[j].0,
        forall|i: int, j: int|
            #![trigger net.light_nodes[i], net.light_nodes[j]]
            0 <= i < j < net.light_nodes.len() ==> net.light_nodes[i].0 < net.light_nodes[j].0,
        forall|i: int, j: int|
            #![trigger net.authority_nodes[i], net.full_nodes[j]]
            0 <= i < net.authority_nodes.len() && 0 <= j < net.full_nodes.len()
                ==> net.authority_nodes[i].0 != net.full_nodes[j].0,
        forall|i: int, j: int|
            #![trigger net.authority_nodes[i], net.light_nodes[j]]
            0 <= i < net.authority_nodes.len() && 0 <= j < net.light_nodes.len()
                ==> net.authority_nodes[i].0 != net.light_nodes[j].0,
        forall|i: int, j: int|
            #![trigger net.full_nodes[i], net.light_nodes[j]]
            0 <= i < net.full_nodes.len() && 0 <= j < net.light_nodes.len()
                ==> net.full_nodes[i].0 != net.light_nodes[j].0,
        forall|i: int|
            0 <= i < net.authority_nodes.len() ==> (#[trigger] net.authority_nodes[i]).0 < net.nodes,
        forall|i: int|
            0 <= i < net.full_nodes.len() ==> (#[trigger] net.full_nodes[i]).0 < net.nodes,
        forall|i: int|
            0 <= i < net.light_nodes.len() ==> (#[trigger] net.light_nodes[i]).0 < net.nodes,
{
    assert forall|i: int| 0 <= i < net.authority_nodes.len() implies net.has(
        NodeRef::Authority(i as usize),
    ) && (#[trigger] net.authority_nodes[i]).0 < net.nodes by {
        assert(net.has(NodeRef::Authority(i as usize)));
    }
    assert forall|i: int| 0 <= i < net.full_nodes.len() implies net.has(NodeRef::Full(i as usize))
        && (#[trigger] net.full_nodes[i]).0 < net.nodes by {
        assert(net.has(NodeRef::Full(i as usize)));
    }
    assert forall|i: int| 0 <= i < net.light_nodes.len() implies net.has(NodeRef::Light(i as usize))
        && (#[trigger] net.light_nodes[i]).0 < net.nodes by {
        assert(net.has(NodeRef::Light(i as usize)));
    }
    assert forall|i: int, j: int|
        #![trigger net.authority_nodes[i], net.authority_nodes[j]]
        0 <= i < j < net.authority_nodes.len() implies net.authority_nodes[i].0
        < net.authority_nodes[j].0 by {
        assert(net.index_of(NodeRef::Authority(i as usize)) < net.index_of(
            NodeRef::Authority(j as usize),
        ));
    }
    assert forall|i: int, j: int|
        #![trigger net.full_nodes[i], net.full_nodes[j]]
        0 <= i < j < net.full_nodes.len() implies net.full_nodes[i].0 < net.full_nodes[j].0 by {
        assert(net.index_of(NodeRef::Full(i as usize)) < net.index_of(NodeRef::Full(j as usize)));
    }
    assert forall|i: int, j: int|
        #![trigger net.light_nodes[i], net.light_nodes[j]]
        0 <= i < j < net.light_nodes.len() implies net.light_nodes[i].0 < net.light_nodes[j].0 by {
        assert(net.index_of(NodeRef::Light(i as usize)) < net.index_of(NodeRef::Light(j as usize)));
    }
}

} // verus!
