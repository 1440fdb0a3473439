use crate::address::{
    address_text, address_to_string, base58, listen_address, multiaddr_parts, multihash_bytes,
    node_port, peer_address_text, peer_parts, with_p2p, AddressPart,
};
use crate::config::{is_node_config, node_config, Configuration, Roles};
use crate::decimal::{decimal, decimal_has_digits, decimal_is_injective};
use crate::sync_service::SyncService;
use crate::wait::{Wait, WaitPhase};
use parity_multiaddr::multihash::Multihash;
use parity_multiaddr::Multiaddr;
use vstd::prelude::*;

verus! {

/// A node of a test network, by its position among the nodes of its kind.
#[derive(Debug, Clone, Copy, PartialEq, Eq, Structural)]
pub enum NodeRef {
    /// An authority.
    Authority(usize),
    /// A full node.
    Full(usize),
    /// A light node.
    Light(usize),
}

/// Whether two nodes are of one kind and `a` has the earlier position.
pub open spec fn comes_before(a: NodeRef, b: NodeRef) -> bool {
    match (a, b) {
        (NodeRef::Authority(i), NodeRef::Authority(j)) => i < j,
        (NodeRef::Full(i), NodeRef::Full(j)) => i < j,
        (NodeRef::Light(i), NodeRef::Light(j)) => i < j,
        _ => false,
    }
}

/// A node that joins a network, by its service and what a user keeps for it.
#[verifier::reject_recursive_types(F)]
#[verifier::reject_recursive_types(L)]
pub enum Newcomer<F, L, U> {
    /// An authority.
    Authority(SyncService<F>, U),
    /// A full node.
    Full(SyncService<F>, U),
    /// A light node.
    Light(SyncService<L>),
}

impl<F, L, U> Newcomer<F, L, U> {
    /// The role of the node.
    pub open spec fn role(&self) -> Roles {
        match self {
            Newcomer::Authority(..) => Roles::Authority,
            Newcomer::Full(..) => Roles::Full,
            Newcomer::Light(_) => Roles::Light,
        }
    }
}

/// Nodes that join a network together, in this order: authorities, full nodes, light nodes.
pub struct NodeBatch {
    /// The authorities, by the seeds of their keys.
    pub authorities: Vec<String>,
    /// How many full nodes there are.
    pub full: usize,
    /// How many light nodes there are.
    pub light: usize,
}

impl NodeBatch {
    /// How many nodes join.
    pub open spec fn total(&self) -> nat {
        self.authorities@.len() + self.full as nat + self.light as nat
    }

    /// The role of the node that joins as number `k`.
    pub open spec fn role(&self, k: int) -> Roles {
        if k < self.authorities@.len() {
            Roles::Authority
        } else if k < self.authorities@.len() + self.full {
            Roles::Full
        } else {
            Roles::Light
        }
    }

    /// The seed of the key of the node that joins as number `k`: only authorities have one.
    pub open spec fn key_seed(&self, k: int) -> Option<String> {
        if k < self.authorities@.len() {
            Some(self.authorities@[k])
        } else {
            None
        }
    }
}

/// A network of nodes on one machine. `C` describes the chain, `F` and `L` are the services of
/// full and light nodes, and `U` is what a user keeps for each full node.
#[verifier::reject_recursive_types(F)]
#[verifier::reject_recursive_types(L)]
pub struct TestNet<C, F, L, U> {
    authority_nodes: Vec<(usize, SyncService<F>, U, Multiaddr)>,
    full_nodes: Vec<(usize, SyncService<F>, U, Multiaddr)>,
    light_nodes: Vec<(usize, SyncService<L>, Multiaddr)>,
    chain_spec: C,
    base_port: u16,
    nodes: usize,
}

/// What a network holds.
#[verifier::reject_recursive_types(F)]
#[verifier::reject_recursive_types(L)]
#[verifier::ext_equal]
pub struct NetView<C, F, L, U> {
    /// The authorities: index, service, user data and address.
    pub authority_nodes: Seq<(usize, SyncService<F>, U, Multiaddr)>,
    /// The full nodes: index, service, user data and address.
    pub full_nodes: Seq<(usize, SyncService<F>, U, Multiaddr)>,
    /// The light nodes: index, service and address.
    pub light_nodes: Seq<(usize, SyncService<L>, Multiaddr)>,
    /// The chain.
    pub chain_spec: C,
    /// The port of the node with index zero.
    pub base_port: u16,
    /// How many nodes there are, which is the index of the next one.
    pub nodes: usize,
}

impl<C, F, L, U> View for TestNet<C, F, L, U> {
    type V = NetView<C, F, L, U>;

    closed spec fn view(&self) -> NetView<C, F, L, U> {
        NetView {
            authority_nodes: self.authority_nodes@,
            full_nodes: self.full_nodes@,
            light_nodes: self.light_nodes@,
            chain_spec: self.chain_spec,
            base_port: self.base_port,
            nodes: self.nodes,
        }
    }
}

impl<C, F, L, U> NetView<C, F, L, U> {
    /// Whether there is such a node.
    pub open spec fn has(&self, node: NodeRef) -> bool {
        match node {
            NodeRef::Authority(i) => i < self.authority_nodes.len(),
            NodeRef::Full(i) => i < self.full_nodes.len(),
            NodeRef::Light(i) => i < self.light_nodes.len(),
        }
    }

    /// The index of a node.
    pub open spec fn index_of(&self, node: NodeRef) -> usize {
        match node {
            NodeRef::Authority(i) => self.authority_nodes[i as int].0,
            NodeRef::Full(i) => self.full_nodes[i as int].0,
            NodeRef::Light(i) => self.light_nodes[i as int].0,
        }
    }

    /// The address of a node.
    pub open spec fn address_of(&self, node: NodeRef) -> Multiaddr {
        match node {
            NodeRef::Authority(i) => self.authority_nodes[i as int].3,
            NodeRef::Full(i) => self.full_nodes[i as int].3,
            NodeRef::Light(i) => self.light_nodes[i as int].2,
        }
    }

    /// Whether a node is registered under its own port of the loopback interface and some
    /// identity.
    pub open spec fn is_registered(&self, node: NodeRef) -> bool {
        let port = node_port(self.base_port, self.index_of(node));
        &&& port <= u16::MAX
        &&& exists|peer: Multihash|
            multiaddr_parts(self.address_of(node)) == #[trigger] peer_parts(port, peer)
    }

    /// Whether some node carries the index `i`.
    pub open spec fn is_taken(&self, i: usize) -> bool {
        exists|node: NodeRef| #[trigger] self.has(node) && self.index_of(node) == i
    }

    /// The nodes carry the indices from zero on, each one once and those of one kind in the order of
    /// their positions, and each is registered at the port of its index.
    pub open spec fn wf(&self) -> bool {
        &&& self.nodes == self.authority_nodes.len() + self.full_nodes.len()
            + self.light_nodes.len()
        &&& forall|node: NodeRef| #[trigger]
            self.has(node) ==> self.index_of(node) < self.nodes && self.is_registered(node)
        &&& forall|a: NodeRef, b: NodeRef|
            #![trigger self.has(a), self.has(b)]
            self.has(a) && self.has(b) && self.index_of(a) == self.index_of(b) ==> a == b
        &&& forall|a: NodeRef, b: NodeRef|
            #![trigger self.has(a), self.has(b)]
            self.has(a) && self.has(b) && comes_before(a, b) ==> self.index_of(a) < self.index_of(b)
        &&& forall|i: usize| i < self.nodes ==> #[trigger] self.is_taken(i)
    }

    /// Whether the next `n` nodes get ports that there are.
    pub open spec fn has_ports_for(&self, n: nat) -> bool {
        &&& self.nodes + n <= usize::MAX
        &&& forall|k: int|
            0 <= k < n ==> #[trigger] node_port(self.base_port, (self.nodes + k) as usize)
                <= u16::MAX
    }

    /// Whether `after` is this network once `newcomer` joined it under the identity `peer`: it is
    /// the last of its kind, carries the next index and is registered at the port of that index,
    /// and nothing else changed.
    pub open spec fn joined_by(
        &self,
        after: Self,
        newcomer: Newcomer<F, L, U>,
        peer: Multihash,
    ) -> bool {
        let parts = peer_parts(node_port(self.base_port, self.nodes), peer);
        &&& after.chain_spec == self.chain_spec
        &&& after.base_port == self.base_port
        &&& after.nodes == self.nodes + 1
        &&& match newcomer {
            Newcomer::Authority(service, user_data) => {
                let address = after.authority_nodes.last().3;
                &&& after.authority_nodes == self.authority_nodes.push(
                    (self.nodes, service, user_data, address),
                )
                &&& multiaddr_parts(address) == parts
                &&& after.full_nodes == self.full_nodes
                &&& after.light_nodes == self.light_nodes
            },
            Newcomer::Full(service, user_data) => {
                let address = after.full_nodes.last().3;
                &&& after.full_nodes == self.full_nodes.push(
                    (self.nodes, service, user_data, address),
                )
                &&& multiaddr_parts(address) == parts
                &&& after.authority_nodes == self.authority_nodes
                &&& after.light_nodes == self.light_nodes
            },
            Newcomer::Light(service) => {
                let address = after.light_nodes.last().2;
                &&& after.light_nodes == self.light_nodes.push((self.nodes, service, address))
                &&& multiaddr_parts(address) == parts
                &&& after.authority_nodes == self.authority_nodes
                &&& after.full_nodes == self.full_nodes
            },
        }
    }

    /// Whether `config` holds the settings with which the node that joins as number `k` of a batch
    /// is built, where it is the next node of this network.
    pub open spec fn plans(
        &self,
        config: Configuration<C>,
        batch: NodeBatch,
        k: usize,
        base: Seq<char>,
        max_parallel_downloads: u32,
    ) -> bool where C: Clone {
        &&& is_node_config(
            config,
            self.nodes,
            batch.role(k as int),
            batch.key_seed(k as int),
            self.base_port,
            base,
            max_parallel_downloads,
        )
        &&& cloned(self.chain_spec, config.chain_spec)
    }

    /// What comes of building a full node or an authority, where the builder gave `built`: a handle
    /// is made around the service and started, and the node joins under the identity that it then
    /// has; or the network stays as it is, and the builder's error is reported.
    pub open spec fn full_comes_of<X, S: FnOnce(&SyncService<F>) -> Multihash>(
        &self,
        after: Self,
        role: Roles,
        built: Result<(F, U), X>,
        start: S,
        inserted: Result<(), X>,
    ) -> bool {
        match built {
            Ok((service, user_data)) => {
                &&& inserted is Ok
                &&& exists|handle: SyncService<F>, peer: Multihash| #[trigger]
                    start.ensures((&handle,), peer) && handle.made_from(service) && self.joined_by(
                        after,
                        if role == Roles::Authority {
                            Newcomer::Authority(handle, user_data)
                        } else {
                            Newcomer::Full(handle, user_data)
                        },
                        peer,
                    )
            },
            Err(x) => inserted == Err::<(), X>(x) && after == *self,
        }
    }

    /// What comes of building a light node, where the builder gave `built`; the same as for a full
    /// node, but that there is no user data.
    pub open spec fn light_comes_of<X, S: FnOnce(&SyncService<L>) -> Multihash>(
        &self,
        after: Self,
        built: Result<L, X>,
        start: S,
        inserted: Result<(), X>,
    ) -> bool {
        match built {
            Ok(service) => {
                &&& inserted is Ok
                &&& exists|handle: SyncService<L>, peer: Multihash| #[trigger]
                    start.ensures((&handle,), peer) && handle.made_from(service) && self.joined_by(
                        after,
                        Newcomer::Light(handle),
                        peer,
                    )
            },
            Err(x) => inserted == Err::<(), X>(x) && after == *self,
        }
    }

    /// What a user keeps for a node; nothing is kept for light nodes.
    pub open spec fn user_data_of(&self, node: NodeRef) -> Option<U> {
        match node {
            NodeRef::Authority(i) => if i < self.authority_nodes.len() {
                Some(self.authority_nodes[i as int].2)
            } else {
                None
            },
            NodeRef::Full(i) => if i < self.full_nodes.len() {
                Some(self.full_nodes[i as int].2)
            } else {
                None
            },
            NodeRef::Light(_) => None,
        }
    }

    /// This network with other user data for one of its authorities or full nodes.
    pub open spec fn with_user_data(self, node: NodeRef, user_data: U) -> Self {
        match node {
            NodeRef::Authority(i) => {
                let entry = self.authority_nodes[i as int];
                NetView {
                    authority_nodes: self.authority_nodes.update(
                        i as int,
                        (entry.0, entry.1, user_data, entry.3),
                    ),
                    ..self
                }
            },
            NodeRef::Full(i) => {
                let entry = self.full_nodes[i as int];
                NetView {
                    full_nodes: self.full_nodes.update(
                        i as int,
                        (entry.0, entry.1, user_data, entry.3),
                    ),
                    ..self
                }
            },
            NodeRef::Light(_) => self,
        }
    }

    /// A network that one node joined is well-formed.
    proof fn joined_wf(self, before: Self, joined: NodeRef, peer: Multihash)
        requires
            before.wf(),
            before.has_ports_for(1),
            self.base_port == before.base_port,
            self.nodes == before.nodes + 1,
            self.nodes == self.authority_nodes.len() + self.full_nodes.len()
                + self.light_nodes.len(),
            forall|node: NodeRef| #[trigger]
                self.has(node) <==> before.has(node) || node == joined,
            forall|node: NodeRef| #[trigger]
                before.has(node) ==> node != joined && !comes_before(joined, node)
                    && self.index_of(node) == before.index_of(node) && self.address_of(node)
                    == before.address_of(node),
            self.index_of(joined) == before.nodes,
            multiaddr_parts(self.address_of(joined)) == peer_parts(
                node_port(before.base_port, before.nodes),
                peer,
            ),
        ensures
            self.wf(),
    {
        assert(node_port(before.base_port, (before.nodes + 0) as usize) <= u16::MAX);
        assert(self.is_registered(joined));
        assert forall|node: NodeRef| #[trigger] self.has(node) implies self.index_of(node)
            < self.nodes && self.is_registered(node) by {
            if node != joined {
                assert(before.has(node));
                assert(before.is_registered(node));
            }
        }
        assert forall|a: NodeRef, b: NodeRef|
            #![trigger self.has(a), self.has(b)]
            self.has(a) && self.has(b) && self.index_of(a) == self.index_of(b) implies a == b by {
            if a != joined {
                assert(before.has(a));
            }
            if b != joined {
                assert(before.has(b));
            }
        }
        assert forall|a: NodeRef, b: NodeRef|
            #![trigger self.has(a), self.has(b)]
            self.has(a) && self.has(b) && comes_before(a, b) implies self.index_of(a)
            < self.index_of(b) by {
            if b != joined {
                assert(before.has(b));
            }
            if a != joined {
                assert(before.has(a));
            }
        }
        assert forall|i: usize| i < self.nodes implies #[trigger] self.is_taken(i) by {
            if i == before.nodes {
                assert(self.has(joined));
            } else {
                assert(before.is_taken(i));
                let node = choose|node: NodeRef| #[trigger]
                    before.has(node) && before.index_of(node) == i;
                assert(self.has(node));
            }
        }
    }

    /// Other user data leaves a network well-formed.
    proof fn with_user_data_wf(self, node: NodeRef, user_data: U)
        requires
            self.wf(),
            self.user_data_of(node) is Some,
        ensures
            self.with_user_data(node, user_data).wf(),
    {
        let after = self.with_user_data(node, user_data);
        assert forall|n: NodeRef| #[trigger] after.has(n) implies self.has(n) && after.index_of(n)
            == self.index_of(n) && after.address_of(n) == self.address_of(n) by {}
        assert forall|n: NodeRef| #[trigger] after.has(n) implies after.index_of(n) < after.nodes
            && after.is_registered(n) by {
            assert(self.has(n));
            assert(self.is_registered(n));
            assert(after.base_port == self.base_port && after.nodes == self.nodes);
            assert(after.index_of(n) == self.index_of(n));
            assert(after.address_of(n) == self.address_of(n));
        }
        assert forall|a: NodeRef, b: NodeRef|
            #![trigger after.has(a), after.has(b)]
            after.has(a) && after.has(b) implies (after.index_of(a) == after.index_of(b) ==> a == b)
            && (comes_before(a, b) ==> after.index_of(a) < after.index_of(b)) by {
            assert(self.has(a) && self.has(b));
        }
        assert forall|i: usize| i < after.nodes implies #[trigger] after.is_taken(i) by {
            assert(self.is_taken(i));
            let n = choose|n: NodeRef| #[trigger] self.has(n) && self.index_of(n) == i;
            assert(after.has(n));
        }
    }
}

impl<C, F, L, U> TestNet<C, F, L, U> {
    /// A network without nodes.
    pub fn new(spec: C, base_port: u16) -> (net: Self)
        ensures
            net@.authority_nodes.len() == 0,
            net@.full_nodes.len() == 0,
            net@.light_nodes.len() == 0,
            net@.chain_spec == spec,
            net@.base_port == base_port,
            net@.nodes == 0,
            net@.wf(),
    {
        TestNet {
            authority_nodes: Vec::new(),
            full_nodes: Vec::new(),
            light_nodes: Vec::new(),
            chain_spec: spec,
            base_port,
            nodes: 0,
        }
    }

    /// Whether the next `n` nodes get ports that there are.
    pub fn has_room_for(&self, n: usize) -> (room: bool)
        ensures
            room == self@.has_ports_for(n as nat),
    {
        if n > usize::MAX - self.nodes {
            return false;
        }
        let mut k: usize = 0;
        while k < n
            invariant
                k <= n,
                self.nodes + n <= usize::MAX,
                forall|i: int|
                    0 <= i < k ==> #[trigger] node_port(self.base_port, (self.nodes + i) as usize)
                        <= u16::MAX,
            decreases n - k,
        {
            let offset: u16 = ((self.nodes + k) % 0x1_0000) as u16;
            if offset > u16::MAX - self.base_port {
                assert(node_port(self@.base_port, (self@.nodes + k) as usize) > u16::MAX);
                return false;
            }
            k = k + 1;
        }
        true
    }

    /// Builds the node that joins as number `k` of a batch, and registers it. The role of the node
    /// decides which builder gets its settings; where the builder fails, nothing is registered and
    /// its error is returned.
    pub fn insert_node<X, Fb, Lb, Fs, Ls>(
        &mut self,
        root: &str,
        batch: &NodeBatch,
        k: usize,
        max_parallel_downloads: u32,
        full_builder: Fb,
        light_builder: Lb,
        start_full: Fs,
        start_light: Ls,
    ) -> (inserted: Result<(), X>) where
        C: Clone,
        Fb: FnOnce(Configuration<C>) -> Result<(F, U), X>,
        Lb: FnOnce(Configuration<C>) -> Result<L, X>,
        Fs: FnOnce(&SyncService<F>) -> Multihash,
        Ls: FnOnce(&SyncService<L>) -> Multihash,

        requires
            old(self)@.wf(),
            old(self)@.has_ports_for(1),
            k < batch.total(),
            forall|config: Configuration<C>| #[trigger]
                old(self)@.plans(config, *batch, k, root@, max_parallel_downloads)
                    ==> full_builder.requires((config,)) && light_builder.requires((config,)),
            forall|handle: SyncService<F>| start_full.requires((&handle,)),
            forall|handle: SyncService<L>| start_light.requires((&handle,)),
        ensures
            final(self)@.wf(),
            batch.role(k as int) == Roles::Light ==> exists|
                config: Configuration<C>,
                built: Result<L, X>,
            | #[trigger]
                light_builder.ensures((config,), built) && old(self)@.plans(
                    config,
                    *batch,
                    k,
                    root@,
                    max_parallel_downloads,
                ) && old(self)@.light_comes_of(final(self)@, built, start_light, inserted),
            batch.role(k as int) != Roles::Light ==> exists|
                config: Configuration<C>,
                built: Result<(F, U), X>,
            | #[trigger]
                full_builder.ensures((config,), built) && old(self)@.plans(
                    config,
                    *batch,
                    k,
                    root@,
                    max_parallel_downloads,
                ) && old(self)@.full_comes_of(
                    final(self)@,
                    batch.role(k as int),
                    built,
                    start_full,
                    inserted,
                ),
    {
        assert(node_port(self@.base_port, (self@.nodes + 0) as usize) <= u16::MAX);
        let authorities: usize = batch.authorities.len();
        let (role, key_seed) = if k < authorities {
            (Roles::Authority, Some(batch.authorities[k].clone()))
        } else if k - authorities < batch.full {
            (Roles::Full, None)
        } else {
            (Roles::Light, None)
        };
        let config = node_config(
            self.nodes,
            &self.chain_spec,
            role,
            key_seed,
            self.base_port,
            root,
            max_parallel_downloads,
        );
        assert(self@.plans(config, *batch, k, root@, max_parallel_downloads));
        if role == Roles::Light {
            match light_builder(config) {
                Ok(service) => {
                    let handle = SyncService::from(service);
                    let peer = start_light(&handle);
                    self.insert_light(handle, peer);
                    Ok(())
                },
                Err(x) => Err(x),
            }
        } else {
            match full_builder(config) {
                Ok((service, user_data)) => {
                    let handle = SyncService::from(service);
                    let peer = start_full(&handle);
                    if role == Roles::Authority {
                        self.insert_authority(handle, user_data, peer);
                    } else {
                        self.insert_full(handle, user_data, peer);
                    }
                    Ok(())
                },
                Err(x) => Err(x),
            }
        }
    }

    /// Registers an authority as the next node, which goes by the identity `peer`.
    pub fn insert_authority(&mut self, service: SyncService<F>, user_data: U, peer: Multihash)
        requires
            old(self)@.wf(),
            old(self)@.has_ports_for(1),
        ensures
            old(self)@.joined_by(final(self)@, Newcomer::Authority(service, user_data), peer),
            final(self)@.wf(),
    {
        assert(node_port(self@.base_port, (self@.nodes + 0) as usize) <= u16::MAX);
        let address = with_p2p(listen_address(self.base_port, self.nodes), peer);
        self.authority_nodes.push((self.nodes, service, user_data, address));
        self.nodes = self.nodes + 1;
        proof {
            let joined = NodeRef::Authority((self.authority_nodes@.len() - 1) as usize);
            self@.joined_wf(old(self)@, joined, peer);
        }
    }

    /// Registers a full node as the next node, which goes by the identity `peer`.
    pub fn insert_full(&mut self, service: SyncService<F>, user_data: U, peer: Multihash)
        requires
            old(self)@.wf(),
            old(self)@.has_ports_for(1),
        ensures
            old(self)@.joined_by(final(self)@, Newcomer::Full(service, user_data), peer),
            final(self)@.wf(),
    {
        assert(node_port(self@.base_port, (self@.nodes + 0) as usize) <= u16::MAX);
        let address = with_p2p(listen_address(self.base_port, self.nodes), peer);
        self.full_nodes.push((self.nodes, service, user_data, address));
        self.nodes = self.nodes + 1;
        proof {
            let joined = NodeRef::Full((self.full_nodes@.len() - 1) as usize);
            self@.joined_wf(old(self)@, joined, peer);
        }
    }

    /// Registers a light node as the next node, which goes by the identity `peer`.
    pub fn insert_light(&mut self, service: SyncService<L>, peer: Multihash)
        requires
            old(self)@.wf(),
            old(self)@.has_ports_for(1),
        ensures
            old(self)@.joined_by(final(self)@, Newcomer::Light(service), peer),
            final(self)@.wf(),
    {
        assert(node_port(self@.base_port, (self@.nodes + 0) as usize) <= u16::MAX);
        let address = with_p2p(listen_address(self.base_port, self.nodes), peer);
        self.light_nodes.push((self.nodes, service, address));
        self.nodes = self.nodes + 1;
        proof {
            let joined = NodeRef::Light((self.light_nodes@.len() - 1) as usize);
            self@.joined_wf(old(self)@, joined, peer);
        }
    }

    /// The authorities: index, service, user data and address.
    pub fn authority_nodes(&self) -> (nodes: &Vec<(usize, SyncService<F>, U, Multiaddr)>)
        ensures
            nodes@ == self@.authority_nodes,
    {
        &self.authority_nodes
    }

    /// The full nodes: index, service, user data and address.
    pub fn full_nodes(&self) -> (nodes: &Vec<(usize, SyncService<F>, U, Multiaddr)>)
        ensures
            nodes@ == self@.full_nodes,
    {
        &self.full_nodes
    }

    /// The light nodes: index, service and address.
    pub fn light_nodes(&self) -> (nodes: &Vec<(usize, SyncService<L>, Multiaddr)>)
        ensures
            nodes@ == self@.light_nodes,
    {
        &self.light_nodes
    }

    /// How many nodes there are.
    pub fn nodes(&self) -> (nodes: usize)
        ensures
            nodes == self@.nodes,
    {
        self.nodes
    }

    /// What a user keeps for a node, to be changed; nothing where there is no such node, or it is a
    /// light node.
    pub fn user_data(&mut self, node: NodeRef) -> (user_data: Option<&mut U>)
        requires
            old(self)@.wf(),
        ensures
            match user_data {
                Some(user_data) => {
                    &&& old(self)@.user_data_of(node) == Some(*user_data)
                    &&& final(self)@ == old(self)@.with_user_data(node, *final(user_data))
                },
                None => old(self)@.user_data_of(node) is None && final(self)@ == old(self)@,
            },
            final(self)@.wf(),
    {
        proof {
            let before = self@;
            assert forall|user_data: U| before.user_data_of(node) is Some implies #[trigger]
                before.with_user_data(node, user_data).wf() by {
                before.with_user_data_wf(node, user_data);
            }
        }
        match node {
            NodeRef::Authority(i) => if i < self.authority_nodes.len() {
                Some(&mut self.authority_nodes[i].2)
            } else {
                None
            },
            NodeRef::Full(i) => if i < self.full_nodes.len() {
                Some(&mut self.full_nodes[i].2)
            } else {
                None
            },
            NodeRef::Light(_) => None,
        }
    }

    /// The text of the address under which a node is made a reserved peer of others; none where
    /// there is no such node.
    pub fn reserved_address(&self, node: NodeRef) -> (text: Option<String>)
        ensures
            text is Some <==> self@.has(node),
            text matches Some(text) ==> text@ == address_text(
                multiaddr_parts(self@.address_of(node)),
            ),
    {
        match node {
            NodeRef::Authority(i) => if i < self.authority_nodes.len() {
                Some(address_to_string(&self.authority_nodes[i].3))
            } else {
                None
            },
            NodeRef::Full(i) => if i < self.full_nodes.len() {
                Some(address_to_string(&self.full_nodes[i].3))
            } else {
                None
            },
            NodeRef::Light(i) => if i < self.light_nodes.len() {
                Some(address_to_string(&self.light_nodes[i].2))
            } else {
                None
            },
        }
    }

    /// A wait until every full and every light node of the network is ready. Authorities are not
    /// asked.
    pub fn run_until_all_full(&self) -> (wait: Wait)
        ensures
            wait == (Wait {
                full: self@.full_nodes.len() as usize,
                light: self@.light_nodes.len() as usize,
                phase: WaitPhase::Sleeping,
            }),
            wait.wf(),
    {
        Wait::new(self.full_nodes.len(), self.light_nodes.len())
    }
}

/// There is a port for every node as long as the last one's is a port.
pub proof fn ports_suffice<C, F, L, U>(net: NetView<C, F, L, U>, n: nat)
    requires
        net.base_port + net.nodes + n <= 0x1_0000,
    ensures
        net.has_ports_for(n),
{
    assert forall|k: int| 0 <= k < n implies #[trigger] node_port(
        net.base_port,
        (net.nodes + k) as usize,
    ) <= u16::MAX by {
        assert((net.nodes + k) % 0x1_0000 == net.nodes + k);
    }
}

/// The smaller of two numbers.
pub open spec fn up_to(a: nat, b: nat) -> nat {
    if a < b {
        a
    } else {
        b
    }
}

/// The node as which number `k` of a batch joins the network `before`: the authorities come after
/// those that were there, and so do the full and the light nodes.
pub open spec fn place_in_batch<C, F, L, U>(
    before: NetView<C, F, L, U>,
    batch: NodeBatch,
    k: int,
) -> NodeRef {
    let authorities = batch.authorities@.len();
    if k < authorities {
        NodeRef::Authority((before.authority_nodes.len() + k) as usize)
    } else if k < authorities + batch.full {
        NodeRef::Full((before.full_nodes.len() + k - authorities) as usize)
    } else {
        NodeRef::Light((before.light_nodes.len() + k - authorities - batch.full) as usize)
    }
}

/// Whether the network has `newcomer` as the given node: with its handle and its user data, under
/// the given index, and at the port of that index with the identity `peer`.
pub open spec fn is_entry<C, F, L, U>(
    net: NetView<C, F, L, U>,
    node: NodeRef,
    index: int,
    newcomer: Newcomer<F, L, U>,
    peer: Multihash,
) -> bool {
    &&& net.has(node)
    &&& net.index_of(node) == index
    &&& multiaddr_parts(net.address_of(node)) == peer_parts(
        node_port(net.base_port, index as usize),
        peer,
    )
    &&& match (node, newcomer) {
        (NodeRef::Authority(i), Newcomer::Authority(service, user_data)) => {
            &&& net.authority_nodes[i as int].1 == service
            &&& net.authority_nodes[i as int].2 == user_data
        },
        (NodeRef::Full(i), Newcomer::Full(service, user_data)) => {
            &&& net.full_nodes[i as int].1 == service
            &&& net.full_nodes[i as int].2 == user_data
        },
        (NodeRef::Light(i), Newcomer::Light(service)) => net.light_nodes[i as int].1 == service,
        _ => false,
    }
}

/// Whether `after` is the network `before` once the first nodes of a batch joined it, which are
/// `newcomers`, each with its identity: they have the roles that the batch gives them and the
/// next indices in that order, each is there with its handle, its user data and its address, the
/// nodes that were there stayed what they were, and there are no others.
pub open spec fn batch_joined<C, F, L, U>(
    before: NetView<C, F, L, U>,
    after: NetView<C, F, L, U>,
    batch: NodeBatch,
    newcomers: Seq<(Newcomer<F, L, U>, Multihash)>,
) -> bool {
    let n = newcomers.len();
    let new_authorities = up_to(n, batch.authorities@.len());
    let new_full = up_to((n - new_authorities) as nat, batch.full as nat);
    &&& n <= batch.total()
    &&& after.chain_spec == before.chain_spec
    &&& after.base_port == before.base_port
    &&& after.nodes == before.nodes + n
    &&& after.authority_nodes.len() == before.authority_nodes.len() + new_authorities
    &&& after.full_nodes.len() == before.full_nodes.len() + new_full
    &&& after.light_nodes.len() == before.light_nodes.len() + (n - new_authorities - new_full)
    &&& after.authority_nodes.len() <= usize::MAX
    &&& after.full_nodes.len() <= usize::MAX
    &&& after.light_nodes.len() <= usize::MAX
    &&& after.authority_nodes.take(before.authority_nodes.len() as int) == before.authority_nodes
    &&& after.full_nodes.take(before.full_nodes.len() as int) == before.full_nodes
    &&& after.light_nodes.take(before.light_nodes.len() as int) == before.light_nodes
    &&& forall|k: int|
        0 <= k < n ==> is_entry(
            after,
            place_in_batch(before, batch, k),
            before.nodes + k,
            (#[trigger] newcomers[k]).0,
            newcomers[k].1,
        )
}

/// Before the first node of a batch joins, the network is that of the batch so far.
pub proof fn batch_starts<C, F, L, U>(net: NetView<C, F, L, U>, batch: NodeBatch)
    requires
        net.wf(),
    ensures
        batch_joined(net, net, batch, Seq::empty()),
{
    assert(net.authority_nodes.take(net.authority_nodes.len() as int) =~= net.authority_nodes);
    assert(net.full_nodes.take(net.full_nodes.len() as int) =~= net.full_nodes);
    assert(net.light_nodes.take(net.light_nodes.len() as int) =~= net.light_nodes);
}

/// The nodes of a batch join in order: where the next one joins in its role, the network is again
/// that of the batch so far.
pub proof fn batch_joins_in_order<C, F, L, U>(
    before: NetView<C, F, L, U>,
    now: NetView<C, F, L, U>,
    after: NetView<C, F, L, U>,
    batch: NodeBatch,
    newcomers: Seq<(Newcomer<F, L, U>, Multihash)>,
    newcomer: Newcomer<F, L, U>,
    peer: Multihash,
)
    requires
        after.wf(),
        batch_joined(before, now, batch, newcomers),
        newcomers.len() < batch.total(),
        newcomer.role() == batch.role(newcomers.len() as int),
        now.joined_by(after, newcomer, peer),
    ensures
        batch_joined(before, after, batch, newcomers.push((newcomer, peer))),
{
    let all = newcomers.push((newcomer, peer));
    assert(after.authority_nodes.take(before.authority_nodes.len() as int)
        =~= before.authority_nodes);
    assert(after.full_nodes.take(before.full_nodes.len() as int) =~= before.full_nodes);
    assert(after.light_nodes.take(before.light_nodes.len() as int) =~= before.light_nodes);
    assert forall|k: int| 0 <= k < all.len() implies is_entry(
        after,
        place_in_batch(before, batch, k),
        before.nodes + k,
        (#[trigger] all[k]).0,
        all[k].1,
    ) by {
        if k < newcomers.len() {
            let node = place_in_batch(before, batch, k);
            assert(is_entry(now, node, before.nodes + k, newcomers[k].0, newcomers[k].1));
        }
    }
}

/// Whether two networks have the same nodes: the same indices, services, user data and addresses
/// at the same positions.
pub open spec fn same_nodes<C, F, L, U>(a: NetView<C, F, L, U>, b: NetView<C, F, L, U>) -> bool {
    &&& a.chain_spec == b.chain_spec
    &&& a.base_port == b.base_port
    &&& a.nodes == b.nodes
    &&& a.authority_nodes.len() == b.authority_nodes.len()
    &&& a.full_nodes.len() == b.full_nodes.len()
    &&& a.light_nodes.len() == b.light_nodes.len()
    &&& forall|i: int|
        #![trigger a.authority_nodes[i]]
        #![trigger b.authority_nodes[i]]
        0 <= i < a.authority_nodes.len() ==> {
            &&& a.authority_nodes[i].0 == b.authority_nodes[i].0
            &&& a.authority_nodes[i].1 == b.authority_nodes[i].1
            &&& a.authority_nodes[i].2 == b.authority_nodes[i].2
            &&& multiaddr_parts(a.authority_nodes[i].3) == multiaddr_parts(b.authority_nodes[i].3)
        }
    &&& forall|i: int|
        #![trigger a.full_nodes[i]]
        #![trigger b.full_nodes[i]]
        0 <= i < a.full_nodes.len() ==> {
            &&& a.full_nodes[i].0 == b.full_nodes[i].0
            &&& a.full_nodes[i].1 == b.full_nodes[i].1
            &&& a.full_nodes[i].2 == b.full_nodes[i].2
            &&& multiaddr_parts(a.full_nodes[i].3) == multiaddr_parts(b.full_nodes[i].3)
        }
    &&& forall|i: int|
        #![trigger a.light_nodes[i]]
        #![trigger b.light_nodes[i]]
        0 <= i < a.light_nodes.len() ==> {
            &&& a.light_nodes[i].0 == b.light_nodes[i].0
            &&& a.light_nodes[i].1 == b.light_nodes[i].1
            &&& multiaddr_parts(a.light_nodes[i].2) == multiaddr_parts(b.light_nodes[i].2)
        }
}

/// A batch of the same newcomers comes to the same nodes, whenever it joins the same network.
pub proof fn batch_decides_nodes<C, F, L, U>(
    before: NetView<C, F, L, U>,
    a: NetView<C, F, L, U>,
    b: NetView<C, F, L, U>,
    batch: NodeBatch,
    newcomers: Seq<(Newcomer<F, L, U>, Multihash)>,
)
    requires
        batch_joined(before, a, batch, newcomers),
        batch_joined(before, b, batch, newcomers),
    ensures
        same_nodes(a, b),
{
    let authorities = batch.authorities@.len();
    assert forall|i: int| 0 <= i < a.authority_nodes.len() implies {
        &&& #[trigger] a.authority_nodes[i].0 == b.authority_nodes[i].0
        &&& a.authority_nodes[i].1 == b.authority_nodes[i].1
        &&& a.authority_nodes[i].2 == b.authority_nodes[i].2
        &&& multiaddr_parts(a.authority_nodes[i].3) == multiaddr_parts(b.authority_nodes[i].3)
    } by {
        let old = before.authority_nodes.len();
        if i < old {
            assert(a.authority_nodes.take(old as int)[i] == b.authority_nodes.take(old as int)[i]);
        } else {
            let k = i - old;
            let (newcomer, peer) = newcomers[k];
            let node = NodeRef::Authority(i as usize);
            assert(place_in_batch(before, batch, k) == node);
            assert(is_entry(a, node, before.nodes + k, newcomer, peer));
            assert(is_entry(b, node, before.nodes + k, newcomer, peer));
        }
    }
    assert forall|i: int| 0 <= i < a.full_nodes.len() implies {
        &&& #[trigger] a.full_nodes[i].0 == b.full_nodes[i].0
        &&& a.full_nodes[i].1 == b.full_nodes[i].1
        &&& a.full_nodes[i].2 == b.full_nodes[i].2
        &&& multiaddr_parts(a.full_nodes[i].3) == multiaddr_parts(b.full_nodes[i].3)
    } by {
        let old = before.full_nodes.len();
        if i < old {
            assert(a.full_nodes.take(old as int)[i] == b.full_nodes.take(old as int)[i]);
        } else {
            let k = authorities + i - old;
            let (newcomer, peer) = newcomers[k];
            let node = NodeRef::Full(i as usize);
            assert(place_in_batch(before, batch, k) == node);
            assert(is_entry(a, node, before.nodes + k, newcomer, peer));
            assert(is_entry(b, node, before.nodes + k, newcomer, peer));
        }
    }
    assert forall|i: int| 0 <= i < a.light_nodes.len() implies {
        &&& #[trigger] a.light_nodes[i].0 == b.light_nodes[i].0
        &&& a.light_nodes[i].1 == b.light_nodes[i].1
        &&& multiaddr_parts(a.light_nodes[i].2) == multiaddr_parts(b.light_nodes[i].2)
    } by {
        let old = before.light_nodes.len();
        if i < old {
            assert(a.light_nodes.take(old as int)[i] == b.light_nodes.take(old as int)[i]);
        } else {
            let k = authorities + batch.full + i - old;
            let (newcomer, peer) = newcomers[k];
            let node = NodeRef::Light(i as usize);
            assert(place_in_batch(before, batch, k) == node);
            assert(is_entry(a, node, before.nodes + k, newcomer, peer));
            assert(is_entry(b, node, before.nodes + k, newcomer, peer));
        }
    }
}

/// A batch without nodes changes nothing.
pub proof fn empty_batch_changes_nothing<C, F, L, U>(
    before: NetView<C, F, L, U>,
    after: NetView<C, F, L, U>,
    batch: NodeBatch,
    newcomers: Seq<(Newcomer<F, L, U>, Multihash)>,
)
    requires
        batch.total() == 0,
        batch_joined(before, after, batch, newcomers),
    ensures
        after == before,
{
    assert(after.authority_nodes.take(after.authority_nodes.len() as int)
        =~= after.authority_nodes);
    assert(after.full_nodes.take(after.full_nodes.len() as int) =~= after.full_nodes);
    assert(after.light_nodes.take(after.light_nodes.len() as int) =~= after.light_nodes);
    assert(after =~= before);
}

/// Whether a batch consists of `full` full nodes.
pub open spec fn is_full_batch(batch: NodeBatch, full: int) -> bool {
    batch.authorities@.len() == 0 && batch.full == full && batch.light == 0
}

/// Two batches of full nodes, one after the other, come to one batch of both: the network that
/// they lead to is that of the one batch, and every node is built with the same settings.
pub proof fn full_batches_add_up<C: Clone, F, L, U>(
    before: NetView<C, F, L, U>,
    between: NetView<C, F, L, U>,
    after: NetView<C, F, L, U>,
    first: NodeBatch,
    second: NodeBatch,
    both: NodeBatch,
    newcomers: Seq<(Newcomer<F, L, U>, Multihash)>,
    later: Seq<(Newcomer<F, L, U>, Multihash)>,
)
    requires
        is_full_batch(first, first.full as int),
        is_full_batch(second, second.full as int),
        is_full_batch(both, first.full + second.full),
        newcomers.len() == first.total(),
        batch_joined(before, between, first, newcomers),
        batch_joined(between, after, second, later),
    ensures
        batch_joined(before, after, both, newcomers + later),
        forall|
            net: NetView<C, F, L, U>,
            config: Configuration<C>,
            k: usize,
            base: Seq<char>,
            downloads: u32,
        |
            k < first.full ==> #[trigger] net.plans(config, first, k, base, downloads) == net.plans(
                config,
                both,
                k,
                base,
                downloads,
            ),
        forall|
            net: NetView<C, F, L, U>,
            config: Configuration<C>,
            k: usize,
            base: Seq<char>,
            downloads: u32,
        |
            k < second.full ==> #[trigger] net.plans(config, second, k, base, downloads)
                == net.plans(config, both, (first.full + k) as usize, base, downloads),
{
    let all = newcomers + later;
    assert(after.authority_nodes.take(before.authority_nodes.len() as int)
        =~= before.authority_nodes);
    assert(after.light_nodes.take(before.light_nodes.len() as int) =~= before.light_nodes);
    assert forall|i: int| 0 <= i < between.full_nodes.len() implies #[trigger] after.full_nodes[i]
        == between.full_nodes[i] by {
        assert(after.full_nodes.take(between.full_nodes.len() as int)[i] == between.full_nodes[i]);
    }
    assert forall|i: int| 0 <= i < before.full_nodes.len() implies #[trigger] after.full_nodes[i]
        == before.full_nodes[i] by {
        assert(between.full_nodes.take(before.full_nodes.len() as int)[i] == before.full_nodes[i]);
    }
    assert(after.full_nodes.take(before.full_nodes.len() as int) =~= before.full_nodes);
    assert forall|k: int| 0 <= k < all.len() implies is_entry(
        after,
        place_in_batch(before, both, k),
        before.nodes + k,
        (#[trigger] all[k]).0,
        all[k].1,
    ) by {
        let node = place_in_batch(before, both, k);
        if k < newcomers.len() {
            assert(all[k] == newcomers[k]);
            assert(place_in_batch(before, first, k) == node);
            assert(is_entry(between, node, before.nodes + k, newcomers[k].0, newcomers[k].1));
        } else {
            let m = k - newcomers.len();
            assert(all[k] == later[m]);
            assert(place_in_batch(between, second, m) == node);
            assert(is_entry(after, node, between.nodes + m, later[m].0, later[m].1));
        }
    }
}

/// No two nodes have the same port, as long as the indices count ports only once round.
pub proof fn ports_differ<C, F, L, U>(net: NetView<C, F, L, U>, a: NodeRef, b: NodeRef)
    requires
        net.wf(),
        net.has(a),
        net.has(b),
        a != b,
        net.nodes <= 0x1_0000,
    ensures
        node_port(net.base_port, net.index_of(a)) != node_port(net.base_port, net.index_of(b)),
{
}

/// A node is registered under the address of its settings and its identity.
pub proof fn registered_where_it_listens<C>(
    config: Configuration<C>,
    index: usize,
    role: Roles,
    key_seed: Option<String>,
    base_port: u16,
    base: Seq<char>,
    downloads: u32,
    address: Multiaddr,
    peer: Multihash,
)
    requires
        is_node_config(config, index, role, key_seed, base_port, base, downloads),
        multiaddr_parts(address) == peer_parts(node_port(base_port, index), peer),
    ensures
        multiaddr_parts(address) == multiaddr_parts(config.network.listen_addresses@[0]).push(
            AddressPart::P2p(base58(multihash_bytes(peer))),
        ),
{
}

/// The text of a node's address names its own port of the loopback interface and its identity.
pub proof fn address_names_port<C, F, L, U>(net: NetView<C, F, L, U>, node: NodeRef)
    requires
        net.wf(),
        net.has(node),
    ensures
        exists|peer: Multihash|
            address_text(multiaddr_parts(net.address_of(node))) == "/ip4/127.0.0.1/tcp/"@ + decimal(
                node_port(net.base_port, net.index_of(node)) as nat,
            ) + "/p2p/"@ + base58(#[trigger] multihash_bytes(peer)),
{
    let port = node_port(net.base_port, net.index_of(node));
    assert(net.is_registered(node));
    let peer = choose|peer: Multihash|
        multiaddr_parts(net.address_of(node)) == #[trigger] peer_parts(port, peer);
    peer_address_text(port, peer);
    assert(address_text(multiaddr_parts(net.address_of(node))) == "/ip4/127.0.0.1/tcp/"@ + decimal(
        port as nat,
    ) + "/p2p/"@ + base58(multihash_bytes(peer)));
}

/// Decimal texts that stand between the same text and a slash are the same where the whole is.
proof fn same_decimal(before: Seq<char>, a: nat, after_a: Seq<char>, b: nat, after_b: Seq<char>)
    requires
        before + decimal(a) + "/p2p/"@ + after_a == before + decimal(b) + "/p2p/"@ + after_b,
    ensures
        decimal(a).len() >= decimal(b).len(),
{
    reveal_strlit("/p2p/");
    decimal_has_digits(b);
    let end = before.len() + decimal(a).len();
    let left = before + decimal(a) + "/p2p/"@ + after_a;
    let right = before + decimal(b) + "/p2p/"@ + after_b;
    if decimal(a).len() < decimal(b).len() {
        assert(left[end as int] == '/');
        assert(right[end as int] == decimal(b)[decimal(a).len() as int]);
    }
}

/// The texts of the addresses of two nodes differ, so that a reserved peer is one node, as long
/// as the indices count ports only once round.
pub proof fn addresses_differ<C, F, L, U>(net: NetView<C, F, L, U>, a: NodeRef, b: NodeRef)
    requires
        net.wf(),
        net.has(a),
        net.has(b),
        a != b,
        net.nodes <= 0x1_0000,
    ensures
        address_text(multiaddr_parts(net.address_of(a))) != address_text(
            multiaddr_parts(net.address_of(b)),
        ),
{
    let text = address_text(multiaddr_parts(net.address_of(a)));
    let port_a = node_port(net.base_port, net.index_of(a)) as nat;
    let port_b = node_port(net.base_port, net.index_of(b)) as nat;
    ports_differ(net, a, b);
    if text == address_text(multiaddr_parts(net.address_of(b))) {
        address_names_port(net, a);
        address_names_port(net, b);
        let before = "/ip4/127.0.0.1/tcp/"@;
        let peer_a = choose|peer: Multihash|
            text == before + decimal(port_a) + "/p2p/"@ + base58(#[trigger] multihash_bytes(peer));
        let peer_b = choose|peer: Multihash|
            text == before + decimal(port_b) + "/p2p/"@ + base58(#[trigger] multihash_bytes(peer));
        let after_a = base58(multihash_bytes(peer_a));
        let after_b = base58(multihash_bytes(peer_b));
        same_decimal(before, port_a, after_a, port_b, after_b);
        same_decimal(before, port_b, after_b, port_a, after_a);
        let start = before.len() as int;
        let end = start + decimal(port_a).len();
        assert(text.subrange(start, end) =~= decimal(port_a));
        assert(text.subrange(start, end) =~= decimal(port_b));
        decimal_is_injective(port_a, port_b);
    }
}

} // verus!
