use synapsed::net::error::{NetworkError, PrivacyError};
use synapsed::net::obfuscation::{ObfuscationState, PaddingParams};
use synapsed::net::privacy::{ObfuscationMethod, PaddingDistribution};

fn exact_padding(size: usize) -> PaddingParams {
    PaddingParams {
        min_packet_size: size,
        max_packet_size: size,
        distribution: PaddingDistribution::Uniform,
        padding_rate_millis: 1000,
    }
}

#[test]
fn padding_defaults() {
    let p = PaddingParams::default();
    assert_eq!(p.min_packet_size, 256);
    assert_eq!(p.max_packet_size, 1500);
    assert_eq!(p.distribution, PaddingDistribution::Uniform);
    assert_eq!(p.padding_rate_millis, 1000);
    let s = ObfuscationState::default();
    let stats = s.get_stats();
    assert_eq!(stats.method, ObfuscationMethod::Padding);
    assert_eq!(stats.real_bytes_sent, 0);
    assert_eq!(stats.total_bytes_sent, 0);
    assert_eq!(stats.overhead_permille, 0);
}

#[test]
fn unobfuscated_traffic_passes_through() {
    for method in [
        ObfuscationMethod::Disabled,
        ObfuscationMethod::Shaping,
        ObfuscationMethod::DummyTraffic,
        ObfuscationMethod::TimingObfuscation,
    ] {
        let mut s = ObfuscationState::new(method);
        let data = vec![7u8, 8, 9];
        assert_eq!(s.obfuscate_outgoing(&data).unwrap(), data);
        assert_eq!(s.deobfuscate_incoming(&data).unwrap(), data);
    }
}

#[test]
fn padding_with_a_bare_header_comes_off() {
    let mut s = ObfuscationState::new(ObfuscationMethod::Padding);
    let data = b"hello".to_vec();
    s.update_padding_params(exact_padding(data.len() + 4));
    let out = s.obfuscate_outgoing(&data).unwrap();
    assert_eq!(out, vec![b'h', b'e', b'l', b'l', b'o', 0, 0, 0, 5]);
    assert_eq!(s.deobfuscate_incoming(&out).unwrap(), data);
    let stats = s.get_stats();
    assert_eq!(stats.real_bytes_sent, 5);
    assert_eq!(stats.total_bytes_sent, 9);
    assert_eq!(stats.overhead_permille, 800);
}

#[test]
fn padding_reaches_the_drawn_size() {
    let mut s = ObfuscationState::new(ObfuscationMethod::Padding);
    let data = vec![1u8; 100];
    for _ in 0..20 {
        let out = s.obfuscate_outgoing(&data).unwrap();
        assert!(out.len() >= 256 && out.len() <= 1500);
        assert_eq!(&out[..100], &data[..]);
        assert_eq!(&out[100..104], &[0, 0, 0, 100]);
    }
    let big = vec![2u8; 1600];
    assert_eq!(s.obfuscate_outgoing(&big).unwrap(), big);
}

#[test]
fn other_distributions_stay_within_the_sizes() {
    for distribution in [PaddingDistribution::Exponential, PaddingDistribution::Normal, PaddingDistribution::Custom] {
        let mut s = ObfuscationState::new(ObfuscationMethod::Padding);
        s.update_padding_params(PaddingParams {
            min_packet_size: 64,
            max_packet_size: 512,
            distribution,
            padding_rate_millis: 1000,
        });
        let data = vec![3u8; 40];
        for _ in 0..20 {
            let out = s.obfuscate_outgoing(&data).unwrap();
            assert!(out.len() >= 64 && out.len() <= 512);
            assert_eq!(&out[..40], &data[..]);
        }
    }
}

#[test]
fn malformed_padding_is_refused() {
    let mut s = ObfuscationState::new(ObfuscationMethod::Padding);
    assert!(matches!(
        s.deobfuscate_incoming(&[1, 2, 3]),
        Err(NetworkError::Privacy(PrivacyError::AnonymizationFailed(_)))
    ));
    assert!(matches!(
        s.deobfuscate_incoming(&[1, 2, 0, 0, 0, 9]),
        Err(NetworkError::Privacy(PrivacyError::AnonymizationFailed(_)))
    ));
    assert_eq!(s.deobfuscate_incoming(&[1, 2, 0, 0, 0, 1]).unwrap(), vec![1]);
}

#[test]
fn normalized_packets_have_one_size() {
    let mut s = ObfuscationState::new(ObfuscationMethod::SizeNormalization);
    s.update_padding_params(exact_padding(20));
    let data = vec![1u8, 2, 3];
    let out = s.obfuscate_outgoing(&data).unwrap();
    assert_eq!(out.len(), 20);
    assert_eq!(&out[..7], &[1, 2, 3, 0, 0, 0, 3]);
    assert_eq!(s.deobfuscate_incoming(&out).unwrap(), data);
    let long = vec![5u8; 25];
    assert_eq!(s.obfuscate_outgoing(&long).unwrap(), long);
}

#[test]
fn normalization_stops_at_an_earlier_header() {
    let mut s = ObfuscationState::new(ObfuscationMethod::SizeNormalization);
    s.update_padding_params(exact_padding(20));
    let data = vec![0u8, 0, 0, 0];
    let out = s.obfuscate_outgoing(&data).unwrap();
    assert_eq!(s.deobfuscate_incoming(&out).unwrap(), Vec::<u8>::new());
    assert!(matches!(
        s.deobfuscate_incoming(&[9, 9, 9]),
        Err(NetworkError::Privacy(PrivacyError::AnonymizationFailed(_)))
    ));
    assert!(matches!(
        s.deobfuscate_incoming(&[9, 9, 9, 9, 9]),
        Err(NetworkError::Privacy(PrivacyError::AnonymizationFailed(_)))
    ));
}

use synapsed::net::mix::{MixNetwork, MixNetworkConfig, MixNode, MixPacket};
use synapsed::net::types::PeerId;

fn node_at(id: u128, now: i64) -> MixNode {
    MixNode::new_at(PeerId(id), vec![id as u8; 32], now)
}

#[test]
fn mix_defaults_and_node_availability() {
    let c = MixNetworkConfig::default();
    assert_eq!((c.num_nodes, c.mix_delay_ms, c.batch_size), (3, 100, 10));
    assert_eq!((c.cover_traffic_rate_millis, c.max_message_age_ms), (1000, 30_000));
    let mut n = node_at(1, 1_000);
    assert_eq!(n.capacity_millis, 100_000);
    assert!(n.is_available_at(1_000));
    assert!(n.is_available_at(60_999));
    assert!(!n.is_available_at(61_000));
    assert!(!n.is_available_at(999));
    n.update_load_at(800, 2_000);
    assert_eq!(n.load_permille, 800);
    assert!(!n.is_available_at(2_000));
    n.update_load_at(-5, 2_000);
    assert_eq!(n.load_permille, 0);
    n.update_load_at(5_000, 3_000);
    assert_eq!(n.load_permille, 1000);
    assert_eq!(n.last_seen, 3_000);
}

#[test]
fn mix_packets_move_hop_by_hop() {
    let mut p = MixPacket::new_at(vec![1, 2], vec![PeerId(10), PeerId(20)], 5, 1_000);
    assert_eq!(p.next_destination(), Some(PeerId(10)));
    assert!(p.is_ready_at(1_000));
    assert!(!p.is_expired_at(500, 1_500));
    assert!(p.is_expired_at(500, 1_501));
    assert!(p.is_expired_at(500, 999));
    p.advance_hop_at(100, 2_000).unwrap();
    assert_eq!(p.current_hop, 1);
    assert_eq!(p.delay_until, 2_100);
    assert!(!p.is_ready_at(2_099));
    assert_eq!(p.next_destination(), Some(PeerId(20)));
    p.advance_hop_at(100, 3_000).unwrap();
    assert_eq!(p.next_destination(), None);
    assert!(p.advance_hop_at(100, 3_000).is_err());
    assert_eq!(p.current_hop, 2);
    p.advance_hop_at(0, 0).unwrap_err();
    let mut q = MixPacket::new_at(vec![], vec![PeerId(1)], 6, 0);
    q.advance_hop_at(u64::MAX, i64::MAX - 1).unwrap();
    assert_eq!(q.delay_until, i64::MAX);
}

#[test]
fn mix_network_routes_through_available_nodes() {
    let mut net = MixNetwork::new(MixNetworkConfig::default());
    for id in 1..=4u128 {
        net.register_node(node_at(id, 1_000)).unwrap();
    }
    net.update_node_stats_at(PeerId(4), 900, 1_000).unwrap();
    let available = net.get_available_nodes_at(1_000);
    assert_eq!(available.iter().map(|n| n.id).collect::<Vec<_>>(), vec![PeerId(1), PeerId(2), PeerId(3)]);
    let route = net.create_route_at(3, 1_000).unwrap();
    assert_eq!(route.len(), 3);
    let mut sorted: Vec<u128> = route.iter().map(|p| p.0).collect();
    sorted.sort();
    assert_eq!(sorted, vec![1, 2, 3]);
    match net.create_route_at(4, 1_000) {
        Err(NetworkError::Privacy(PrivacyError::MixNetwork(msg))) => assert_eq!(msg, "Not enough available nodes: 3 < 4"),
        _ => panic!("expected a mix network error"),
    }
    net.unregister_node(PeerId(2)).unwrap();
    assert!(net.create_route_at(3, 1_000).is_err());
    let stats = net.get_stats_at(1_000);
    assert_eq!(stats.total_nodes, 3);
    assert_eq!(stats.available_nodes, 2);
    assert_eq!(stats.pending_packets, 0);
    assert_eq!(stats.average_load_permille, 300);
}

#[test]
fn mixing_releases_ready_packets_and_drops_expired_ones() {
    let mut net = MixNetwork::new(MixNetworkConfig::default());
    for id in 1..=3u128 {
        net.register_node(node_at(id, 1_000)).unwrap();
    }
    net.send_message_at(b"first".to_vec(), PeerId(99), 1, 1_000).unwrap();
    net.send_message_at(b"second".to_vec(), PeerId(98), 2, 1_000).unwrap();
    assert_eq!(net.get_stats_at(1_000).pending_packets, 2);
    let out = net.process_packets_at(1_000).unwrap();
    assert_eq!(out.len(), 2);
    assert_eq!(out[0].id, 1);
    assert_eq!(out[1].id, 2);
    assert_eq!(out[0].current_hop, 1);
    assert_eq!(out[0].delay_until, 1_100);
    assert_eq!(out[0].route.len(), 4);
    assert_eq!(out[0].route[3], PeerId(99));
    assert_eq!(net.get_stats_at(1_000).pending_packets, 0);
    // an expired packet is dropped
    net.send_message_at(b"late".to_vec(), PeerId(97), 3, 1_000).unwrap();
    assert_eq!(net.process_packets_at(40_000).unwrap().len(), 0);
    assert_eq!(net.get_stats_at(40_000).pending_packets, 0);
}

#[test]
fn cover_traffic_follows_the_rate() {
    let mut config = MixNetworkConfig::default();
    config.cover_traffic_rate_millis = 25_000;
    let mut net = MixNetwork::new(config);
    assert_eq!(net.generate_cover_traffic_at(1_000).unwrap().len(), 0);
    for id in 1..=3u128 {
        net.register_node(node_at(id, 1_000)).unwrap();
    }
    let cover = net.generate_cover_traffic_at(1_000).unwrap();
    assert_eq!(cover.len(), 2);
    assert!(cover.iter().all(|p| p.payload == vec![0u8; 1024] && p.route.len() == 3));
    let quiet = MixNetwork::default();
    assert_eq!(quiet.generate_cover_traffic_at(1_000).unwrap().len(), 0);
}

use synapsed::net::privacy::HiddenServiceState;
use synapsed::net::tor::{HiddenServicePort, TorConfig, TorManager};

fn expected_onion(name: &str) -> String {
    format!("{}.onion", &blake3::hash(name.as_bytes()).to_hex()[..16])
}

#[test]
fn tor_config_defaults() {
    let c = TorConfig::new().unwrap();
    assert_eq!(c.socks_proxy, "127.0.0.1:9050");
    assert_eq!(c.control_port.as_deref(), Some("127.0.0.1:9051"));
    assert!(!c.enable_hidden_services);
    assert!(c.hidden_service_ports.is_empty());
    assert_eq!(c.connection_timeout_ms, 30_000);
}

#[test]
fn onion_addresses_are_checked() {
    assert!(TorManager::validate_onion_address("3g2upl4pq6kufc4m3g2upl4p.onion"));
    assert!(!TorManager::validate_onion_address("short.onion"));
    assert!(!TorManager::validate_onion_address("3g2upl4pq6kufc4m3g2upl4p.com"));
    assert!(!TorManager::validate_onion_address("3g2upl4pq6kufc4m-g2upl4p.onion"));
    assert_eq!(
        TorManager::extract_service_name("3g2upl4pq6kufc4m3g2upl4p.onion"),
        Some("3g2upl4pq6kufc4m3g2upl4p".to_string())
    );
    assert_eq!(
        TorManager::extract_service_name("3g2upl4pq6kufc4m.onion.onion"),
        Some("3g2upl4pq6kufc4m".to_string())
    );
    assert_eq!(TorManager::extract_service_name("not an address"), None);
}

#[test]
fn hidden_services_need_enabling() {
    let mut tor = TorManager::default();
    assert!(matches!(
        tor.create_hidden_service("web".to_string(), Vec::new()),
        Err(NetworkError::Privacy(PrivacyError::Tor(_)))
    ));
    assert!(tor.list_hidden_services().is_empty());
    assert_eq!(tor.get_stats().hidden_services_created, 0);
}

#[test]
fn hidden_services_are_named_by_hash() {
    let mut config = TorConfig::default();
    config.enable_hidden_services = true;
    let mut tor = TorManager::new(config);
    let port = HiddenServicePort { virtual_port: 80, target: "127.0.0.1:8080".to_string() };
    let addr = tor.create_hidden_service_at("web".to_string(), vec![port], 5).unwrap();
    assert_eq!(addr, expected_onion("web"));
    assert_eq!(addr.len(), 22);
    assert!(TorManager::validate_onion_address(&addr));
    let services = tor.list_hidden_services();
    assert_eq!(services.len(), 1);
    assert_eq!(services[0].name, "web");
    assert_eq!(services[0].state, HiddenServiceState::Running);
    assert_eq!(services[0].created_at, 5);
    assert_eq!(services[0].ports[0].virtual_port, 80);
    // the same name replaces the service
    tor.create_hidden_service_at("web".to_string(), Vec::new(), 6).unwrap();
    assert_eq!(tor.list_hidden_services().len(), 1);
    assert_eq!(tor.get_stats().hidden_services_created, 2);
    tor.destroy_hidden_service("web").unwrap();
    tor.destroy_hidden_service("absent").unwrap();
    assert!(tor.list_hidden_services().is_empty());
}

#[test]
fn configured_ports_become_services() {
    let mut config = TorConfig::default();
    config.enable_hidden_services = true;
    config.hidden_service_ports = vec![
        HiddenServicePort { virtual_port: 80, target: "127.0.0.1:80".to_string() },
        HiddenServicePort { virtual_port: 443, target: "127.0.0.1:443".to_string() },
    ];
    let mut tor = TorManager::new(config);
    tor.initialize_hidden_services_at(1).unwrap();
    let names: Vec<String> = tor.list_hidden_services().into_iter().map(|s| s.name).collect();
    assert_eq!(names, vec!["service_80".to_string(), "service_443".to_string()]);
    assert_eq!(tor.list_hidden_services()[1].onion_address, expected_onion("service_443"));
}

#[test]
fn tor_statistics_count() {
    let mut tor = TorManager::default();
    let mut conn = tor.connect_through_tor_at("example.onion:80", 9).unwrap();
    assert_eq!(conn.target, "example.onion:80");
    assert_eq!(conn.connected_at, 9);
    conn.send(b"abc").unwrap();
    assert_eq!(conn.bytes_sent, 3);
    let mut buf = [0u8; 4];
    assert_eq!(conn.receive(&mut buf).unwrap(), 0);
    tor.record_sent_data(10);
    tor.record_received_data(7);
    tor.record_failed_connection();
    let s = tor.get_stats();
    assert_eq!((s.connections_made, s.bytes_sent, s.bytes_received, s.failed_connections), (1, 10, 7, 1));
}
