use crate::address::{
    listen_address, loopback_parts, multiaddr_parts, node_port, nodes_listen_at_loopback, AddressPart,
};
use crate::decimal::{decimal, decimal_is_injective, decimal_string};
use parity_multiaddr::Multiaddr;
use vstd::prelude::*;

verus! {

/// What a node does in its network.
#[derive(Debug, Clone, Copy, PartialEq, Eq, Structural)]
pub enum Roles {
    /// Keeps the whole chain.
    Full,
    /// Keeps headers only.
    Light,
    /// Keeps the whole chain and produces blocks.
    Authority,
}

/// A directory, by a base and the names that lead from it to the directory.
pub struct DirPath {
    /// Where the names start.
    pub base: String,
    /// The names, outermost first.
    pub names: Vec<String>,
}

/// The directory that a `DirPath` stands for.
pub struct DirPathView {
    /// Where the names start.
    pub base: Seq<char>,
    /// The names, outermost first.
    pub names: Seq<Seq<char>>,
}

impl View for DirPath {
    type V = DirPathView;

    open spec fn view(&self) -> DirPathView {
        DirPathView {
            base: self.base@,
            names: Seq::new(self.names@.len(), |i: int| self.names@[i]@),
        }
    }
}

/// A directory `name` of the node directory of the node with the given index, under `base`; the
/// node directory itself where there is no name.
pub open spec fn node_dir(base: Seq<char>, index: usize, name: Option<Seq<char>>) -> DirPathView {
    let root = "node-"@ + decimal(index as nat);
    DirPathView {
        base,
        names: match name {
            Some(name) => seq![root].push(name),
            None => seq![root],
        },
    }
}

impl DirPath {
    /// The directory `name` below `base`.
    pub fn new(base: &str, name: String) -> (dir: DirPath)
        ensures
            dir@ == (DirPathView { base: base@, names: seq![name@] }),
    {
        let mut names: Vec<String> = Vec::new();
        names.push(name);
        let dir = DirPath { base: base.to_owned(), names };
        assert(dir@.names =~= seq![name@]);
        dir
    }

    /// The directory `name` in this one.
    pub fn join(&self, name: &str) -> (dir: DirPath)
        ensures
            dir@ == (DirPathView { base: self@.base, names: self@.names.push(name@) }),
    {
        let mut names = self.names.clone();
        names.push(name.to_owned());
        let dir = DirPath { base: self.base.clone(), names };
        assert(dir@.names =~= self@.names.push(name@));
        dir
    }
}

/// A setting that is left at the default of its type.
#[derive(Debug, Clone, Copy, PartialEq, Eq, Structural)]
pub enum Preset {
    /// The default.
    Default,
}

/// A transport that comes from outside the node.
#[derive(Debug, Clone, Copy, PartialEq, Eq, Structural)]
pub enum ExternalTransport {
    /// There is none.
    Absent,
}

/// Where the secret half of a node's key comes from.
#[derive(Debug, Clone, Copy, PartialEq, Eq, Structural)]
pub enum Secret {
    /// It is generated when the node starts.
    New,
}

/// The key by which a node proves its identity.
#[derive(Debug, Clone, Copy, PartialEq, Eq, Structural)]
pub enum NodeKeyConfig {
    /// A key on the curve Ed25519.
    Ed25519(Secret),
}

/// Whether peers that are not reserved are let in.
#[derive(Debug, Clone, Copy, PartialEq, Eq, Structural)]
pub enum NonReservedPeerMode {
    /// They are let in.
    Accept,
    /// They are turned away.
    Deny,
}

/// How a node reaches its network.
#[derive(Debug, Clone, Copy, PartialEq, Eq, Structural)]
pub enum TransportConfig {
    /// By the ordinary transports.
    Normal {
        /// Whether nodes of the local network are discovered.
        enable_mdns: bool,
        /// Whether addresses of private IPv4 networks are dialled.
        allow_private_ipv4: bool,
        /// A transport of the surrounding web page.
        wasm_external_transport: ExternalTransport,
    },
}

/// The settings of a node's network.
pub struct NetworkConfiguration {
    pub config_path: Option<DirPath>,
    pub net_config_path: Option<DirPath>,
    pub listen_addresses: Vec<Multiaddr>,
    pub public_addresses: Vec<Multiaddr>,
    pub boot_nodes: Vec<String>,
    pub node_key: NodeKeyConfig,
    pub in_peers: u32,
    pub out_peers: u32,
    pub reserved_nodes: Vec<String>,
    pub non_reserved_mode: NonReservedPeerMode,
    pub client_version: String,
    pub node_name: String,
    pub transport: TransportConfig,
    pub max_parallel_downloads: u32,
}

/// Where a node keeps its chain.
pub enum DatabaseConfig {
    /// In a directory.
    Path {
        /// The directory.
        path: DirPath,
        /// The size of the cache; the default where there is none.
        cache_size: Option<u32>,
    },
}

/// How a node runs the code of its chain.
#[derive(Debug, Clone, Copy, PartialEq, Eq, Structural)]
pub enum WasmExecutionMethod {
    /// By interpreting it.
    Interpreted,
}

/// The settings of a node, for a chain that `C` describes.
pub struct Configuration<C> {
    pub impl_name: &'static str,
    pub impl_version: &'static str,
    pub impl_commit: &'static str,
    pub roles: Roles,
    pub transaction_pool: Preset,
    pub network: NetworkConfiguration,
    pub keystore_path: Option<DirPath>,
    pub keystore_password: Option<String>,
    pub config_dir: Option<DirPath>,
    pub database: DatabaseConfig,
    pub state_cache_size: usize,
    pub state_cache_child_ratio: Option<usize>,
    pub pruning: Preset,
    pub chain_spec: C,
    pub custom: Preset,
    pub name: String,
    pub wasm_method: WasmExecutionMethod,
    pub execution_strategies: Preset,
    pub rpc_http: Option<String>,
    pub rpc_ws: Option<String>,
    pub rpc_ws_max_connections: Option<usize>,
    pub rpc_cors: Option<Vec<String>>,
    pub grafana_port: Option<String>,
    pub telemetry_endpoints: Option<Vec<String>>,
    pub telemetry_external_transport: ExternalTransport,
    pub default_heap_pages: Option<u64>,
    pub offchain_worker: bool,
    pub sentry_mode: bool,
    pub force_authoring: bool,
    pub disable_grandpa: bool,
    pub dev_key_seed: Option<String>,
    pub tracing_targets: Option<String>,
    pub tracing_receiver: Preset,
}

/// Whether `network` holds the network settings of the node with the given index, whose files
/// lie under `base`.
pub open spec fn is_node_network(
    network: NetworkConfiguration,
    index: usize,
    base_port: u16,
    base: Seq<char>,
    max_parallel_downloads: u32,
) -> bool {
    &&& network.config_path is Some
    &&& network.config_path->0@ == node_dir(base, index, Some("network"@))
    &&& network.net_config_path is Some
    &&& network.net_config_path->0@ == node_dir(base, index, Some("network"@))
    &&& network.listen_addresses@.len() == 1
    &&& multiaddr_parts(network.listen_addresses@[0]) == loopback_parts(
        node_port(base_port, index),
    )
    &&& network.public_addresses@.len() == 0
    &&& network.boot_nodes@.len() == 0
    &&& network.node_key == NodeKeyConfig::Ed25519(Secret::New)
    &&& network.in_peers == 50
    &&& network.out_peers == 450
    &&& network.reserved_nodes@.len() == 0
    &&& network.non_reserved_mode == NonReservedPeerMode::Accept
    &&& network.client_version@ == "network/test/0.1"@
    &&& network.node_name@ == "unknown"@
    &&& network.transport == (TransportConfig::Normal {
        enable_mdns: false,
        allow_private_ipv4: true,
        wasm_external_transport: ExternalTransport::Absent,
    })
    &&& network.max_parallel_downloads == max_parallel_downloads
}

/// Whether `config` holds the settings of the node with the given index and role, whose key
/// comes from `key_seed` and whose files lie under `base`. The description of the chain is left
/// open.
pub open spec fn is_node_config<C>(
    config: Configuration<C>,
    index: usize,
    role: Roles,
    key_seed: Option<String>,
    base_port: u16,
    base: Seq<char>,
    max_parallel_downloads: u32,
) -> bool {
    &&& config.impl_name@ == "network-test-impl"@
    &&& config.impl_version@ == "0.1"@
    &&& config.impl_commit@ == ""@
    &&& config.roles == role
    &&& config.transaction_pool == Preset::Default
    &&& is_node_network(config.network, index, base_port, base, max_parallel_downloads)
    &&& config.keystore_path is Some
    &&& config.keystore_path->0@ == node_dir(base, index, Some("key"@))
    &&& config.keystore_password is None
    &&& config.config_dir is Some
    &&& config.config_dir->0@ == node_dir(base, index, None)
    &&& config.database->path@ == node_dir(base, index, Some("db"@))
    &&& config.database->cache_size is None
    &&& config.state_cache_size == 16777216
    &&& config.state_cache_child_ratio is None
    &&& config.pruning == Preset::Default
    &&& config.custom == Preset::Default
    &&& config.name@ == "Node "@ + decimal(index as nat)
    &&& config.wasm_method == WasmExecutionMethod::Interpreted
    &&& config.execution_strategies == Preset::Default
    &&& config.rpc_http is None
    &&& config.rpc_ws is None
    &&& config.rpc_ws_max_connections is None
    &&& config.rpc_cors is None
    &&& config.grafana_port is None
    &&& config.telemetry_endpoints is None
    &&& config.telemetry_external_transport == ExternalTransport::Absent
    &&& config.default_heap_pages is None
    &&& !config.offchain_worker
    &&& !config.sentry_mode
    &&& !config.force_authoring
    &&& !config.disable_grandpa
    &&& config.dev_key_seed == key_seed
    &&& config.tracing_targets is None
    &&& config.tracing_receiver == Preset::Default
}

/// The settings of the node with the given index. Its files lie in a directory of its own below
/// `root`, and it listens at a port of its own, counted from `base_port`. The number of parallel
/// downloads is the network's default, `max_parallel_downloads`.
pub fn node_config<C: Clone>(
    index: usize,
    spec: &C,
    role: Roles,
    key_seed: Option<String>,
    base_port: u16,
    root: &str,
    max_parallel_downloads: u32,
) -> (config: Configuration<C>)
    requires
        node_port(base_port, index) <= u16::MAX,
    ensures
        is_node_config(
            config,
            index,
            role,
            key_seed,
            base_port,
            root@,
            max_parallel_downloads,
        ),
        cloned(*spec, config.chain_spec),
{
    let number = decimal_string(index);
    let root = DirPath::new(root, "node-".to_owned().concat(number.as_str()));
    assert(root@ == node_dir(root@.base, index, None));
    let config_path = root.join("network");
    let net_config_path = root.join("network");
    let mut listen_addresses: Vec<Multiaddr> = Vec::new();
    listen_addresses.push(listen_address(base_port, index));
    let network = NetworkConfiguration {
        config_path: Some(config_path),
        net_config_path: Some(net_config_path),
        listen_addresses,
        public_addresses: Vec::new(),
        boot_nodes: Vec::new(),
        node_key: NodeKeyConfig::Ed25519(Secret::New),
        in_peers: 50,
        out_peers: 450,
        reserved_nodes: Vec::new(),
        non_reserved_mode: NonReservedPeerMode::Accept,
        client_version: "network/test/0.1".to_owned(),
        node_name: "unknown".to_owned(),
        transport: TransportConfig::Normal {
            enable_mdns: false,
            allow_private_ipv4: true,
            wasm_external_transport: ExternalTransport::Absent,
        },
        max_parallel_downloads,
    };
    Configuration {
        impl_name: "network-test-impl",
        impl_version: "0.1",
        impl_commit: "",
        roles: role,
        transaction_pool: Preset::Default,
        network,
        keystore_path: Some(root.join("key")),
        keystore_password: None,
        database: DatabaseConfig::Path { path: root.join("db"), cache_size: None },
        config_dir: Some(root),
        state_cache_size: 16777216,
        state_cache_child_ratio: None,
        pruning: Preset::Default,
        chain_spec: spec.clone(),
        custom: Preset::Default,
        name: "Node ".to_owned().concat(number.as_str()),
        wasm_method: WasmExecutionMethod::Interpreted,
        execution_strategies: Preset::Default,
        rpc_http: None,
        rpc_ws: None,
        rpc_ws_max_connections: None,
        rpc_cors: None,
        grafana_port: None,
        telemetry_endpoints: None,
        telemetry_external_transport: ExternalTransport::Absent,
        default_heap_pages: None,
        offchain_worker: false,
        sentry_mode: false,
        force_authoring: false,
        disable_grandpa: false,
        dev_key_seed: key_seed,
        tracing_targets: None,
        tracing_receiver: Preset::Default,
    }
}

/// Texts that differ only behind a common beginning differ.
proof fn same_beginning(beginning: Seq<char>, a: Seq<char>, b: Seq<char>)
    requires
        beginning + a == beginning + b,
    ensures
        a == b,
{
    assert((beginning + a).skip(beginning.len() as int) =~= a);
    assert((beginning + b).skip(beginning.len() as int) =~= b);
}

/// Directories of two nodes are never the same, whatever their names in the node directories.
pub proof fn node_dirs_differ(
    base: Seq<char>,
    i: usize,
    j: usize,
    name_i: Option<Seq<char>>,
    name_j: Option<Seq<char>>,
)
    requires
        i != j,
    ensures
        node_dir(base, i, name_i) != node_dir(base, j, name_j),
{
    if node_dir(base, i, name_i) == node_dir(base, j, name_j) {
        assert(node_dir(base, i, name_i).names[0] == "node-"@ + decimal(i as nat));
        assert(node_dir(base, j, name_j).names[0] == "node-"@ + decimal(j as nat));
        same_beginning("node-"@, decimal(i as nat), decimal(j as nat));
        decimal_is_injective(i as nat, j as nat);
    }
}

/// Two nodes of one network share neither their name nor any of their directories, and they
/// listen at different addresses as long as their indices count ports only once round.
pub proof fn nodes_are_apart<C>(
    a: Configuration<C>,
    b: Configuration<C>,
    i: usize,
    j: usize,
    role_a: Roles,
    role_b: Roles,
    seed_a: Option<String>,
    seed_b: Option<String>,
    base_port: u16,
    base: Seq<char>,
    downloads: u32,
)
    requires
        i != j,
        node_port(base_port, i) <= u16::MAX,
        node_port(base_port, j) <= u16::MAX,
        is_node_config(a, i, role_a, seed_a, base_port, base, downloads),
        is_node_config(b, j, role_b, seed_b, base_port, base, downloads),
    ensures
        a.name@ != b.name@,
        a.config_dir->0@ != b.config_dir->0@,
        a.keystore_path->0@ != b.keystore_path->0@,
        a.database->path@ != b.database->path@,
        a.network.config_path->0@ != b.network.config_path->0@,
        i < 0x1_0000 && j < 0x1_0000 ==> multiaddr_parts(a.network.listen_addresses@[0])
            != multiaddr_parts(b.network.listen_addresses@[0]),
{
    if a.name@ == b.name@ {
        same_beginning("Node "@, decimal(i as nat), decimal(j as nat));
        decimal_is_injective(i as nat, j as nat);
    }
    node_dirs_differ(base, i, j, None, None);
    node_dirs_differ(base, i, j, Some("key"@), Some("key"@));
    node_dirs_differ(base, i, j, Some("db"@), Some("db"@));
    node_dirs_differ(base, i, j, Some("network"@), Some("network"@));
    if i < 0x1_0000 && j < 0x1_0000 {
        let parts_a = loopback_parts(node_port(base_port, i));
        let parts_b = loopback_parts(node_port(base_port, j));
        assert(node_port(base_port, i) != node_port(base_port, j));
        assert(parts_a[1] != parts_b[1]);
    }
}

/// What every node is set to, whatever its index, role and key: its files lie in directories of
/// one that is named after its index, it listens at one address only, and all that is not its own
/// is the same for all nodes.
pub proof fn settings_of_every_node<C>(
    config: Configuration<C>,
    index: usize,
    role: Roles,
    key_seed: Option<String>,
    base_port: u16,
    base: Seq<char>,
    downloads: u32,
)
    requires
        is_node_config(config, index, role, key_seed, base_port, base, downloads),
    ensures
        config.roles == role,
        config.dev_key_seed == key_seed,
        config.name@ == "Node "@ + decimal(index as nat),
        config.config_dir is Some,
        config.config_dir->0@.base == base,
        config.config_dir->0@.names == seq!["node-"@ + decimal(index as nat)],
        config.keystore_path is Some,
        config.keystore_path->0@.base == base,
        config.keystore_path->0@.names == seq!["node-"@ + decimal(index as nat), "key"@],
        config.database->path@.base == base,
        config.database->path@.names == seq!["node-"@ + decimal(index as nat), "db"@],
        config.network.config_path is Some,
        config.network.config_path->0@.base == base,
        config.network.config_path->0@.names == seq![
            "node-"@ + decimal(index as nat),
            "network"@,
        ],
        config.network.net_config_path is Some,
        config.network.net_config_path->0@ == config.network.config_path->0@,
        config.network.listen_addresses@.len() == 1,
        index < 0x1_0000 && base_port + index <= u16::MAX ==> multiaddr_parts(
            config.network.listen_addresses@[0],
        ) == seq![
            AddressPart::Ip4(127, 0, 0, 1),
            AddressPart::Tcp((base_port + index) as u16),
        ],
        config.network.max_parallel_downloads == downloads,
        config.network.in_peers == 50,
        config.network.out_peers == 450,
        config.network.public_addresses@.len() == 0,
        config.network.boot_nodes@.len() == 0,
        config.network.reserved_nodes@.len() == 0,
        config.network.node_key == NodeKeyConfig::Ed25519(Secret::New),
        config.network.non_reserved_mode == NonReservedPeerMode::Accept,
        config.network.client_version@ == "network/test/0.1"@,
        config.network.node_name@ == "unknown"@,
        config.network.transport == (TransportConfig::Normal {
            enable_mdns: false,
            allow_private_ipv4: true,
            wasm_external_transport: ExternalTransport::Absent,
        }),
        config.impl_name@ == "network-test-impl"@,
        config.impl_version@ == "0.1"@,
        config.impl_commit@ == ""@,
        config.state_cache_size == 16777216,
        config.state_cache_child_ratio is None,
        config.database->cache_size is None,
        config.keystore_password is None,
        config.wasm_method == WasmExecutionMethod::Interpreted,
        config.rpc_http is None,
        config.rpc_ws is None,
        config.rpc_ws_max_connections is None,
        config.rpc_cors is None,
        config.grafana_port is None,
        config.telemetry_endpoints is None,
        config.telemetry_external_transport == ExternalTransport::Absent,
        config.default_heap_pages is None,
        config.tracing_targets is None,
        !config.offchain_worker,
        !config.sentry_mode,
        !config.force_authoring,
        !config.disable_grandpa,
{
    let root = "node-"@ + decimal(index as nat);
    assert(seq![root].push("key"@) =~= seq![root, "key"@]);
    assert(seq![root].push("db"@) =~= seq![root, "db"@]);
    assert(seq![root].push("network"@) =~= seq![root, "network"@]);
    if index < 0x1_0000 && base_port + index <= u16::MAX {
        nodes_listen_at_loopback(base_port, index);
    }
}

/// A directory is reached from its base by its names, all of them and in order.
pub proof fn directories_are_reached_by_their_names(dir: DirPath)
    ensures
        dir@.base == dir.base@,
        dir@.names.len() == dir.names@.len(),
        forall|i: int|
            0 <= i < dir.names@.len() ==> #[trigger] dir@.names[i] == dir.names@[i]@,
{
}

} // verus!
