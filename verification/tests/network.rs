use parity_multiaddr::multihash::{self, encode, Multihash};
use substrate_client::config::{
    node_config, DatabaseConfig, DirPath, NodeKeyConfig, NonReservedPeerMode, Preset, Roles, Secret,
    TransportConfig, WasmExecutionMethod,
};
use substrate_client::address::listen_address;
use substrate_client::net::{NodeBatch, NodeRef, TestNet};
use substrate_client::sync_service::SyncService;
use substrate_client::wait::WaitPhase;

fn peer(name: &str) -> Multihash {
    encode(multihash::Hash::SHA2256, name.as_bytes()).unwrap()
}

fn names(dir: &DirPath) -> Vec<&str> {
    dir.names.iter().map(|name| name.as_str()).collect()
}

type Net = TestNet<&'static str, char, i8, u32>;

#[test]
fn listens_at_its_own_port() {
    assert_eq!(listen_address(30400, 0).to_string(), "/ip4/127.0.0.1/tcp/30400");
    assert_eq!(listen_address(30400, 7).to_string(), "/ip4/127.0.0.1/tcp/30407");
    assert_eq!(listen_address(0, 65535).to_string(), "/ip4/127.0.0.1/tcp/65535");
    assert_eq!(listen_address(12, 65536).to_string(), "/ip4/127.0.0.1/tcp/12");
}

#[test]
fn directories_are_joined() {
    let dir = DirPath::new("/tmp/x", String::from("a"));
    let inner = dir.join("b");
    assert_eq!(dir.base, "/tmp/x");
    assert_eq!(names(&dir), vec!["a"]);
    assert_eq!(inner.base, "/tmp/x");
    assert_eq!(names(&inner), vec!["a", "b"]);
}

#[test]
fn settings_of_an_authority() {
    let seed = Some(String::from("//Alice"));
    let config = node_config(12, &"spec", Roles::Authority, seed, 30600, "/tmp/t", 5);
    assert_eq!(config.impl_name, "network-test-impl");
    assert_eq!(config.impl_version, "0.1");
    assert_eq!(config.impl_commit, "");
    assert_eq!(config.roles, Roles::Authority);
    assert_eq!(config.transaction_pool, Preset::Default);
    assert_eq!(config.chain_spec, "spec");
    assert_eq!(config.name, "Node 12");
    assert_eq!(config.state_cache_size, 16777216);
    assert_eq!(config.state_cache_child_ratio, None);
    assert_eq!(config.wasm_method, WasmExecutionMethod::Interpreted);
    assert_eq!(config.dev_key_seed.as_deref(), Some("//Alice"));
    assert_eq!(config.keystore_password, None);
    assert!(!config.offchain_worker && !config.sentry_mode);
    assert!(!config.force_authoring && !config.disable_grandpa);
    assert!(config.rpc_http.is_none() && config.rpc_ws.is_none());
    assert_eq!(names(config.config_dir.as_ref().unwrap()), vec!["node-12"]);
    assert_eq!(config.config_dir.as_ref().unwrap().base, "/tmp/t");
    assert_eq!(names(config.keystore_path.as_ref().unwrap()), vec!["node-12", "key"]);
    let DatabaseConfig::Path { path, cache_size } = &config.database;
    assert_eq!(names(path), vec!["node-12", "db"]);
    assert_eq!(*cache_size, None);
    let network = &config.network;
    assert_eq!(names(network.config_path.as_ref().unwrap()), vec!["node-12", "network"]);
    assert_eq!(names(network.net_config_path.as_ref().unwrap()), vec!["node-12", "network"]);
    assert_eq!(network.listen_addresses.len(), 1);
    assert_eq!(network.listen_addresses[0].to_string(), "/ip4/127.0.0.1/tcp/30612");
    assert!(network.public_addresses.is_empty() && network.boot_nodes.is_empty());
    assert_eq!(network.node_key, NodeKeyConfig::Ed25519(Secret::New));
    assert_eq!((network.in_peers, network.out_peers), (50, 450));
    assert!(network.reserved_nodes.is_empty());
    assert_eq!(network.non_reserved_mode, NonReservedPeerMode::Accept);
    assert_eq!(network.client_version, "network/test/0.1");
    assert_eq!(network.node_name, "unknown");
    let TransportConfig::Normal { enable_mdns, allow_private_ipv4, .. } = network.transport;
    assert!(!enable_mdns && allow_private_ipv4);
    assert_eq!(network.max_parallel_downloads, 5);
}

#[test]
fn settings_of_two_nodes_are_apart() {
    let a = node_config(1, &0u8, Roles::Full, None, 30400, "/t", 5);
    let b = node_config(11, &0u8, Roles::Light, None, 30400, "/t", 5);
    assert_ne!(a.name, b.name);
    assert_ne!(names(a.config_dir.as_ref().unwrap()), names(b.config_dir.as_ref().unwrap()));
    assert_ne!(
        names(a.keystore_path.as_ref().unwrap()),
        names(b.keystore_path.as_ref().unwrap())
    );
    assert_ne!(
        a.network.listen_addresses[0].to_string(),
        b.network.listen_addresses[0].to_string()
    );
}

/// Inserts the nodes of a batch, whose services are the letters of `names`, and returns the
/// settings that the builders got.
fn insert_batch(net: &mut Net, batch: &NodeBatch, names: &str) -> Vec<String> {
    let mut built = Vec::new();
    for (k, name) in names.chars().enumerate() {
        let seen = std::cell::RefCell::new(Vec::new());
        let inserted: Result<(), ()> = net.insert_node(
            "/tmp/t",
            batch,
            k,
            5,
            |config| {
                let seed = config.dev_key_seed.unwrap_or_default();
                seen.borrow_mut().push(format!("{} {:?} {}", config.name, config.roles, seed));
                Ok((name, k as u32))
            },
            |config| {
                let seed = config.dev_key_seed.unwrap_or_default();
                seen.borrow_mut().push(format!("{} {:?} {}", config.name, config.roles, seed));
                Ok(name as u8 as i8)
            },
            |service: &SyncService<char>| peer(&service.get().unwrap().guard.to_string()),
            |service: &SyncService<i8>| peer(&service.get().unwrap().guard.to_string()),
        );
        assert_eq!(inserted, Ok(()));
        built.append(&mut seen.borrow_mut());
    }
    built
}

#[test]
fn batch_joins_in_order() {
    let mut net: Net = TestNet::new("spec", 30600);
    net.insert_full(SyncService::from('x'), 9, peer("x"));
    let batch = NodeBatch {
        authorities: vec![String::from("//Alice"), String::from("//Bob")],
        full: 2,
        light: 1,
    };
    assert_eq!(
        insert_batch(&mut net, &batch, "abcde"),
        vec![
            "Node 1 Authority //Alice",
            "Node 2 Authority //Bob",
            "Node 3 Full ",
            "Node 4 Full ",
            "Node 5 Light ",
        ]
    );
    assert_eq!(net.nodes(), 6);
    let authorities: Vec<(usize, u32)> = net.authority_nodes().iter().map(|n| (n.0, n.2)).collect();
    assert_eq!(authorities, vec![(1, 0), (2, 1)]);
    let full: Vec<(usize, u32)> = net.full_nodes().iter().map(|n| (n.0, n.2)).collect();
    assert_eq!(full, vec![(0, 9), (3, 2), (4, 3)]);
    assert_eq!(net.light_nodes()[0].0, 5);
    assert_eq!(*net.authority_nodes()[1].1.get().unwrap().guard, 'b');
    assert_eq!(*net.full_nodes()[2].1.get().unwrap().guard, 'd');
    assert_eq!(*net.light_nodes()[0].1.get().unwrap().guard, 'e' as u8 as i8);
    let mut direct: Net = TestNet::new("spec", 30604);
    direct.insert_full(SyncService::from('d'), 0, peer("d"));
    assert_eq!(
        net.reserved_address(NodeRef::Full(2)),
        direct.reserved_address(NodeRef::Full(0))
    );
}

#[test]
fn indices_increase_within_each_kind() {
    let mut net: Net = TestNet::new("spec", 30600);
    for _ in 0..3 {
        let batch = NodeBatch { authorities: vec![String::from("//Eve")], full: 1, light: 2 };
        insert_batch(&mut net, &batch, "abcd");
    }
    let authorities: Vec<usize> = net.authority_nodes().iter().map(|node| node.0).collect();
    let full: Vec<usize> = net.full_nodes().iter().map(|node| node.0).collect();
    let light: Vec<usize> = net.light_nodes().iter().map(|node| node.0).collect();
    assert_eq!(authorities, vec![0, 4, 8]);
    assert_eq!(full, vec![1, 5, 9]);
    assert_eq!(light, vec![2, 3, 6, 7, 10, 11]);
}

#[test]
fn node_that_is_not_built_does_not_join() {
    let mut net: Net = TestNet::new("spec", 30600);
    let batch = NodeBatch { authorities: vec![String::from("//Alice")], full: 1, light: 1 };
    for k in 0..3 {
        let inserted = net.insert_node(
            "/tmp/t",
            &batch,
            k,
            5,
            |_| Err("no full node"),
            |_| Err("no light node"),
            |_: &SyncService<char>| unreachable!("nothing was built"),
            |_: &SyncService<i8>| unreachable!("nothing was built"),
        );
        assert_eq!(inserted, Err(if k < 2 { "no full node" } else { "no light node" }));
        assert_eq!(net.nodes(), 0);
        assert!(net.authority_nodes().is_empty());
        assert!(net.full_nodes().is_empty());
        assert!(net.light_nodes().is_empty());
    }
}

#[test]
fn nodes_are_registered() {
    let mut net: Net = TestNet::new("spec", 30400);
    assert_eq!(net.nodes(), 0);
    net.insert_authority(SyncService::from('a'), 7, peer("a"));
    net.insert_light(SyncService::from(-1), peer("l"));
    net.insert_full(SyncService::from('f'), 8, peer("f"));
    assert_eq!(net.nodes(), 3);
    assert_eq!((net.authority_nodes()[0].0, net.authority_nodes()[0].2), (0, 7));
    assert_eq!(net.light_nodes()[0].0, 1);
    assert_eq!((net.full_nodes()[0].0, net.full_nodes()[0].2), (2, 8));
    assert_eq!(*net.full_nodes()[0].1.get().unwrap().guard, 'f');
    assert_eq!(*net.light_nodes()[0].1.get().unwrap().guard, -1);
    let text = net.reserved_address(NodeRef::Light(0)).unwrap();
    assert!(text.starts_with("/ip4/127.0.0.1/tcp/30401/p2p/Qm"));
    assert_eq!(text, net.light_nodes()[0].2.to_string());
    assert!(net.reserved_address(NodeRef::Light(1)).is_none());
    assert!(net.reserved_address(NodeRef::Full(1)).is_none());
    assert!(net.reserved_address(NodeRef::Authority(1)).is_none());
}

#[test]
fn user_data_can_be_changed() {
    let mut net: Net = TestNet::new("spec", 30400);
    net.insert_authority(SyncService::from('a'), 7, peer("a"));
    net.insert_full(SyncService::from('f'), 8, peer("f"));
    net.insert_full(SyncService::from('g'), 9, peer("g"));
    net.insert_light(SyncService::from(0), peer("l"));
    *net.user_data(NodeRef::Full(1)).unwrap() += 100;
    *net.user_data(NodeRef::Authority(0)).unwrap() = 1;
    let full: Vec<(usize, u32)> = net.full_nodes().iter().map(|n| (n.0, n.2)).collect();
    assert_eq!(full, vec![(1, 8), (2, 109)]);
    assert_eq!(net.authority_nodes()[0].2, 1);
    assert!(net.user_data(NodeRef::Light(0)).is_none());
    assert!(net.user_data(NodeRef::Full(2)).is_none());
    assert!(net.user_data(NodeRef::Authority(1)).is_none());
}

#[test]
fn two_batches_of_full_nodes_come_to_one() {
    let mut apart: Net = TestNet::new("spec", 30600);
    let mut at_once: Net = TestNet::new("spec", 30600);
    let batch = |full| NodeBatch { authorities: vec![], full, light: 0 };
    let mut built = insert_batch(&mut apart, &batch(2), "ab");
    built.append(&mut insert_batch(&mut apart, &batch(3), "cde"));
    assert_eq!(insert_batch(&mut at_once, &batch(5), "abcde"), built);
    assert_eq!(apart.nodes(), at_once.nodes());
    for i in 0..5 {
        assert_eq!(apart.full_nodes()[i].0, at_once.full_nodes()[i].0);
        assert_eq!(
            apart.reserved_address(NodeRef::Full(i)),
            at_once.reserved_address(NodeRef::Full(i))
        );
        assert_eq!(
            *apart.full_nodes()[i].1.get().unwrap().guard,
            *at_once.full_nodes()[i].1.get().unwrap().guard
        );
    }
    insert_batch(&mut apart, &batch(0), "");
    assert_eq!(apart.nodes(), 5);
}

#[test]
fn address_names_the_peer() {
    let bytes = b"hello world";
    let mut net: Net = TestNet::new("spec", 30400);
    net.insert_full(SyncService::from('f'), 0, encode(multihash::Hash::SHA2256, bytes).unwrap());
    assert_eq!(
        net.reserved_address(NodeRef::Full(0)).unwrap(),
        "/ip4/127.0.0.1/tcp/30400/p2p/QmaozNR7DZHQK1ZcU9p7QdrshMvXqWK6gpu5rmrkPdT3L4"
    );
}

#[test]
fn addresses_of_nodes_differ() {
    let mut net: Net = TestNet::new("spec", 30400);
    for _ in 0..12 {
        net.insert_full(SyncService::from('f'), 0, peer("same"));
        net.insert_light(SyncService::from(0), peer("same"));
    }
    let mut texts: Vec<String> = Vec::new();
    for i in 0..12 {
        texts.push(net.reserved_address(NodeRef::Full(i)).unwrap());
        texts.push(net.reserved_address(NodeRef::Light(i)).unwrap());
    }
    texts.sort();
    texts.dedup();
    assert_eq!(texts.len(), 24);
}

#[test]
fn room_ends_with_the_ports() {
    let mut net: Net = TestNet::new("spec", 65534);
    assert!(net.has_room_for(0));
    assert!(net.has_room_for(2));
    assert!(!net.has_room_for(3));
    net.insert_full(SyncService::from('f'), 0, peer("f"));
    assert!(net.has_room_for(1));
    assert!(!net.has_room_for(2));
    assert!(!net.has_room_for(usize::MAX));
}

#[test]
fn wait_is_for_full_and_light_nodes() {
    let mut net: Net = TestNet::new("spec", 30400);
    net.insert_authority(SyncService::from('a'), 0, peer("a"));
    net.insert_full(SyncService::from('f'), 0, peer("f"));
    net.insert_full(SyncService::from('g'), 0, peer("g"));
    net.insert_light(SyncService::from(0), peer("l"));
    let wait = net.run_until_all_full();
    assert_eq!((wait.full, wait.light), (2, 1));
    assert_eq!(wait.phase, WaitPhase::Sleeping);
}
