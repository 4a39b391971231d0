use tono_service::ip::{parse_ip, IpAddr};
use tono_service::structure::{KillSwitchStatusMode, ProxyEndpoint, ProxyProtocol};
use tono_service::wfp_model::{
    diff, expected_filters, intent_floor, tono_wfp_provider_key, tono_wfp_sublayer_key, Guid, is_public_api_ip, parse_endpoint, sanitize_api_host_ips, session_rules,
    Condition, FilterAction, FilterSpec, IpProtocol, LayerKind, PlanStep, RuleConfig,
    FILTER_NAMESPACE, MAX_API_HOST_IPS, WEIGHT_BLOCK_ALL, WEIGHT_DNS_BLOCK, WEIGHT_HARD_PERMIT,
    WEIGHT_INFRA_PERMIT,
};

fn ip(text: &str) -> IpAddr {
    parse_ip(text).unwrap()
}

fn endpoint(ip: &str, port: u16) -> ProxyEndpoint {
    ProxyEndpoint { ip: ip.to_owned(), port, protocol: ProxyProtocol::Tcp }
}

fn config(mode: KillSwitchStatusMode) -> RuleConfig {
    RuleConfig {
        mode,
        endpoints: vec![endpoint("8.8.8.8", 443)],
        api_host_ips: vec![ip("1.1.1.1")],
        tun_luid: Some(0x1234_5678),
        app_path: r"C:\ProgramData\Tono\bin\mihomo.exe".to_owned(),
        direct_endpoints: Vec::new(),
    }
}

fn has_condition(filters: &[FilterSpec], probe: &Condition) -> bool {
    filters.iter().any(|filter| filter.conditions.contains(probe))
}

const MODES: [KillSwitchStatusMode; 3] = [
    KillSwitchStatusMode::Bootstrap,
    KillSwitchStatusMode::Locked,
    KillSwitchStatusMode::Blocked,
];

#[test]
fn block_all_is_always_present_for_both_families() {
    for mode in MODES {
        let filters = expected_filters(&config(mode));
        for layer in [LayerKind::AleAuthConnectV4, LayerKind::AleAuthConnectV6] {
            let block_alls = filters
                .iter()
                .filter(|filter| {
                    filter.layer == layer
                        && filter.action == FilterAction::Block
                        && filter.conditions.is_empty()
                        && filter.weight == WEIGHT_BLOCK_ALL
                })
                .count();
            assert_eq!(block_alls, 2, "{mode:?}: missing block-all pair in {layer:?}");
        }
    }
}

#[test]
fn only_floor_blocks_are_persistent() {
    let filters = expected_filters(&config(KillSwitchStatusMode::Locked));
    let persistent = filters.iter().filter(|filter| filter.persistent).collect::<Vec<_>>();
    assert_eq!(persistent.len(), 2);
    assert!(persistent
        .iter()
        .all(|filter| filter.action == FilterAction::Block && filter.conditions.is_empty()));
}

#[test]
fn bootstrap_has_api_permit_but_no_tunnel_permit() {
    let filters = expected_filters(&config(KillSwitchStatusMode::Bootstrap));
    assert!(has_condition(&filters, &Condition::RemoteAddressV4 { addr: [1, 1, 1, 1], prefix: 32 }));
    assert!(filters.iter().any(|filter| {
        filter.action == FilterAction::Permit
            && filter.weight == WEIGHT_INFRA_PERMIT
            && filter.conditions.contains(&Condition::RemotePort(443))
    }));
    assert!(!filters
        .iter()
        .flat_map(|filter| filter.conditions.iter())
        .any(|condition| matches!(condition, Condition::LocalInterface(_))));
}

#[test]
fn locked_has_tunnel_permit_but_no_api_permit() {
    let filters = expected_filters(&config(KillSwitchStatusMode::Locked));
    let tun_permits = filters
        .iter()
        .filter(|filter| filter.conditions.contains(&Condition::LocalInterface(0x1234_5678)))
        .count();
    assert_eq!(tun_permits, 2);
    assert!(!filters.iter().any(|filter| {
        filter.action == FilterAction::Permit
            && filter.conditions.contains(&Condition::RemotePort(443))
            && !filter.conditions.contains(&Condition::AleAppId)
    }));
}

#[test]
fn blocked_keeps_api_recovery_channel_without_tunnel() {
    let filters = expected_filters(&config(KillSwitchStatusMode::Blocked));
    assert!(filters.iter().any(|filter| {
        filter.action == FilterAction::Permit
            && filter.weight == WEIGHT_INFRA_PERMIT
            && filter.conditions.contains(&Condition::RemotePort(443))
    }));
    assert!(!filters
        .iter()
        .flat_map(|filter| filter.conditions.iter())
        .any(|condition| matches!(condition, Condition::LocalInterface(_))));
    assert!(has_condition(&filters, &Condition::AleAppId));
    assert_eq!(filters.iter().filter(|filter| filter.weight == WEIGHT_DNS_BLOCK).count(), 4);
}

#[test]
fn endpoint_permit_is_app_scoped_and_exact() {
    let filters = expected_filters(&config(KillSwitchStatusMode::Bootstrap));
    let permits = filters
        .iter()
        .filter(|filter| filter.conditions.contains(&Condition::AleAppId))
        .collect::<Vec<_>>();
    assert_eq!(permits.len(), 1);
    let conditions = &permits[0].conditions;
    assert!(conditions.contains(&Condition::RemoteAddressV4 { addr: [8, 8, 8, 8], prefix: 32 }));
    assert!(conditions.contains(&Condition::RemotePort(443)));
    assert!(conditions.contains(&Condition::Protocol(IpProtocol::Tcp)));
    assert_eq!(permits[0].weight, WEIGHT_HARD_PERMIT);
    assert!(!permits[0].persistent);
}

#[test]
fn rule_keys_are_deterministic() {
    let first = expected_filters(&config(KillSwitchStatusMode::Bootstrap));
    let second = expected_filters(&config(KillSwitchStatusMode::Bootstrap));
    assert_eq!(
        first.iter().map(|filter| filter.key).collect::<Vec<_>>(),
        second.iter().map(|filter| filter.key).collect::<Vec<_>>()
    );
}

#[test]
fn filter_namespace_marks_the_current_rule_table_version() {
    assert_eq!(FILTER_NAMESPACE >> 64, 0x2f7c_9e02_0000_4a6c);
}

#[test]
fn moving_the_core_binary_rekeys_the_endpoint_permit() {
    let mut moved = config(KillSwitchStatusMode::Locked);
    moved.app_path = r"C:\ProgramData\Tono\bin\gen-2\mihomo.exe".to_owned();
    let before = expected_filters(&config(KillSwitchStatusMode::Locked));
    let after = expected_filters(&moved);
    let key_of = |filters: &[FilterSpec]| {
        filters.iter().find(|filter| filter.conditions.contains(&Condition::AleAppId)).unwrap().key
    };
    assert_ne!(key_of(&before), key_of(&after));
    let plan = diff(&before.iter().map(|filter| filter.key).collect::<Vec<_>>(), &after);
    assert_eq!(plan.install.len(), 1);
    assert_eq!(plan.remove.len(), 1);
}

#[test]
fn a_new_tunnel_luid_rekeys_the_tunnel_permit() {
    let mut relanded = config(KillSwitchStatusMode::Locked);
    relanded.tun_luid = Some(0x9999);
    let before = expected_filters(&config(KillSwitchStatusMode::Locked));
    let after = expected_filters(&relanded);
    let tun_keys = |filters: &[FilterSpec]| {
        filters
            .iter()
            .filter(|filter| {
                filter.conditions.iter().any(|condition| matches!(condition, Condition::LocalInterface(_)))
            })
            .map(|filter| filter.key)
            .collect::<Vec<_>>()
    };
    assert_ne!(tun_keys(&before), tun_keys(&after));
}

#[test]
fn endpoint_switch_installs_new_permit_before_removing_old() {
    let old = expected_filters(&config(KillSwitchStatusMode::Locked));
    let mut switched = config(KillSwitchStatusMode::Locked);
    switched.endpoints = vec![endpoint("9.9.9.9", 8443)];
    let new = expected_filters(&switched);

    let old_permit = old
        .iter()
        .find(|filter| {
            filter.conditions.contains(&Condition::RemotePort(443))
                && filter.conditions.contains(&Condition::AleAppId)
        })
        .unwrap()
        .key;
    let plan = diff(&old.iter().map(|filter| filter.key).collect::<Vec<_>>(), &new);
    let new_permit = new
        .iter()
        .find(|filter| filter.conditions.contains(&Condition::RemotePort(8443)))
        .unwrap()
        .clone();
    assert!(plan.install.contains(&new_permit));
    assert!(plan.remove.contains(&old_permit));

    let steps = plan.ordered_steps();
    let install_at = steps.iter().position(|step| *step == PlanStep::Install(new_permit.clone())).unwrap();
    let remove_at = steps.iter().position(|step| *step == PlanStep::Remove(old_permit)).unwrap();
    assert!(install_at < remove_at);
    assert!(plan.remove.iter().all(|key| !new.iter().any(|filter| filter.key == *key)));
}

#[test]
fn api_host_ips_are_public_bounded_and_deduplicated() {
    let rejected = [
        "127.0.0.1", "10.0.0.1", "172.16.0.1", "192.168.1.1", "169.254.1.1", "100.64.0.1",
        "198.18.0.1", "198.19.255.255", "192.88.99.1", "224.0.0.1", "240.0.0.1", "250.1.2.3",
        "0.0.0.0", "255.255.255.255", "::1", "::", "fe80::1", "fc00::1", "ff02::1",
        "::ffff:8.8.8.8",
    ];
    for text in rejected {
        assert!(!is_public_api_ip(&ip(text)), "accepted {text}");
    }
    for text in ["8.8.8.8", "1.1.1.1", "2606:4700:4700::1111", "203.0.113.7"] {
        assert!(is_public_api_ip(&ip(text)), "rejected {text}");
    }
    let mut input = vec![ip("1.1.1.1"), ip("1.1.1.1")];
    for index in 0..32u32 {
        input.push(IpAddr::V4([8, 8, (index / 256) as u8, (index % 256) as u8 + 1]));
    }
    let sanitized = sanitize_api_host_ips(&input);
    assert!(sanitized.len() <= MAX_API_HOST_IPS);
    assert_eq!(sanitized.iter().filter(|candidate| **candidate == ip("1.1.1.1")).count(), 1);
}

#[test]
fn session_rules_are_never_persistent() {
    let config = config(KillSwitchStatusMode::Bootstrap);
    for filter in session_rules(&config) {
        assert!(!filter.persistent, "{}", filter.name);
    }
}

#[test]
fn locked_without_a_luid_renders_no_tunnel_permit() {
    let mut config = config(KillSwitchStatusMode::Locked);
    config.tun_luid = None;
    let filters = expected_filters(&config);
    assert!(!filters
        .iter()
        .flat_map(|filter| filter.conditions.iter())
        .any(|condition| matches!(condition, Condition::LocalInterface(_))));
    assert!(has_condition(&filters, &Condition::AleAppId));
}

#[test]
fn multiple_endpoints_each_get_an_exact_permit() {
    let mut config = config(KillSwitchStatusMode::Bootstrap);
    config.endpoints = vec![
        endpoint("8.8.8.8", 443),
        endpoint("9.9.9.9", 8443),
        ProxyEndpoint { ip: "2606:4700:4700::1111".to_owned(), port: 443, protocol: ProxyProtocol::Tcp },
    ];
    let filters = session_rules(&config);
    let permits = filters
        .iter()
        .filter(|filter| filter.conditions.contains(&Condition::AleAppId))
        .collect::<Vec<_>>();
    assert_eq!(permits.len(), 3);
    assert!(has_condition(&filters, &Condition::RemoteAddressV4 { addr: [9, 9, 9, 9], prefix: 32 }));
    assert!(has_condition(&filters, &Condition::RemotePort(8443)));
    assert!(permits.iter().any(|filter| filter.layer == LayerKind::AleAuthConnectV6));
    assert_ne!(permits[0].key, permits[1].key);
}

#[test]
fn invalid_endpoints_render_no_permit_and_stay_fail_closed() {
    for bad in [
        endpoint("not-an-ip", 443),
        endpoint("0.0.0.0", 443),
        endpoint("::", 443),
        endpoint("8.8.8.8", 0),
        endpoint("127.0.0.1", 443),
        endpoint("10.0.0.8", 443),
        endpoint("192.168.1.8", 443),
        endpoint("169.254.1.8", 443),
        endpoint("100.64.0.8", 443),
        endpoint("fe80::8", 443),
        endpoint("fc00::8", 443),
    ] {
        assert!(parse_endpoint(&bad).is_none(), "accepted {}:{}", bad.ip, bad.port);
    }
    let mut config = config(KillSwitchStatusMode::Bootstrap);
    config.endpoints = vec![endpoint("10.0.0.8", 443)];
    let filters = expected_filters(&config);
    assert!(!has_condition(&filters, &Condition::AleAppId));
    let probe = packet(LayerKind::AleAuthConnectV4, IpProtocol::Tcp, "10.0.0.8", 443);
    assert_eq!(arbitrate(&filters, &probe), FilterAction::Block);
}

// Filter arbitration as WFP performs it within one sublayer: highest weight first, the first
// matching terminating filter decides.

#[derive(Debug, Clone)]
struct Packet {
    layer: LayerKind,
    protocol: IpProtocol,
    remote_ip: IpAddr,
    local_port: Option<u16>,
    remote_port: u16,
    icmp_type: Option<u16>,
    app_id_matches: bool,
    local_interface: Option<u64>,
}

fn packet(layer: LayerKind, protocol: IpProtocol, address: &str, port: u16) -> Packet {
    Packet {
        layer,
        protocol,
        remote_ip: ip(address),
        local_port: None,
        remote_port: port,
        icmp_type: None,
        app_id_matches: false,
        local_interface: None,
    }
}

fn v4_prefix_matches(addr: [u8; 4], network: [u8; 4], prefix: u8) -> bool {
    let mask = if prefix == 0 { 0 } else { u32::MAX << (32 - prefix) };
    u32::from_be_bytes(addr) & mask == u32::from_be_bytes(network) & mask
}

fn v6_prefix_matches(addr: [u8; 16], network: [u8; 16], prefix: u8) -> bool {
    let mask = if prefix == 0 { 0 } else { u128::MAX << (128 - prefix) };
    u128::from_be_bytes(addr) & mask == u128::from_be_bytes(network) & mask
}

fn condition_matches(condition: &Condition, packet: &Packet) -> bool {
    match condition {
        Condition::RemoteAddressV4 { addr, prefix } => match packet.remote_ip {
            IpAddr::V4(octets) => v4_prefix_matches(octets, *addr, *prefix),
            IpAddr::V6(_) => false,
        },
        Condition::RemoteAddressV6 { addr, prefix } => match packet.remote_ip {
            IpAddr::V6(octets) => v6_prefix_matches(octets, *addr, *prefix),
            IpAddr::V4(_) => false,
        },
        Condition::Protocol(protocol) => *protocol == packet.protocol,
        Condition::LocalPort(port) => packet.local_port == Some(*port),
        Condition::RemotePort(port) => *port == packet.remote_port,
        Condition::IcmpV6TypeRange { min, max } => {
            packet.icmp_type.is_some_and(|ty| (*min..=*max).contains(&ty))
        }
        Condition::AleAppId => packet.app_id_matches,
        Condition::LocalInterface(luid) => packet.local_interface == Some(*luid),
    }
}

fn filter_matches(filter: &FilterSpec, packet: &Packet) -> bool {
    filter.layer == packet.layer
        && filter.conditions.iter().all(|condition| condition_matches(condition, packet))
}

fn arbitrate(filters: &[FilterSpec], packet: &Packet) -> FilterAction {
    let mut matched = filters.iter().filter(|filter| filter_matches(filter, packet)).collect::<Vec<_>>();
    matched.sort_by_key(|filter| filter.weight);
    matched.last().map(|filter| filter.action).expect("every layer must end in a block-all")
}

#[test]
fn arbitration_keeps_infrastructure_open_in_every_mode() {
    for mode in MODES {
        let filters = expected_filters(&config(mode));
        let with_local = |mut p: Packet, port: u16| {
            p.local_port = Some(port);
            p
        };
        let cases: Vec<(Packet, FilterAction, &str)> = vec![
            (packet(LayerKind::AleAuthConnectV4, IpProtocol::Tcp, "127.0.0.1", 53), FilterAction::Permit, "loopback tcp/53"),
            (packet(LayerKind::AleAuthConnectV4, IpProtocol::Udp, "127.0.0.1", 53), FilterAction::Permit, "loopback udp/53"),
            (packet(LayerKind::AleAuthConnectV4, IpProtocol::Udp, "127.0.0.53", 5353), FilterAction::Permit, "loopback /8 udp/5353"),
            (packet(LayerKind::AleAuthConnectV6, IpProtocol::Udp, "::1", 53), FilterAction::Permit, "loopback v6 udp/53"),
            (with_local(packet(LayerKind::AleAuthConnectV4, IpProtocol::Udp, "192.168.1.2", 67), 68), FilterAction::Permit, "DHCPv4 client"),
            (with_local(packet(LayerKind::AleAuthConnectV4, IpProtocol::Udp, "203.0.113.8", 67), 49_152), FilterAction::Block, "non-DHCP source to udp/67"),
            (with_local(packet(LayerKind::AleAuthConnectV6, IpProtocol::Udp, "fe80::1", 547), 546), FilterAction::Permit, "DHCPv6 client to server"),
            (with_local(packet(LayerKind::AleAuthConnectV6, IpProtocol::Udp, "2001:db8::1", 547), 49_152), FilterAction::Block, "non-DHCPv6 source to udp/547"),
            (packet(LayerKind::AleAuthConnectV4, IpProtocol::Udp, "162.159.200.123", 123), FilterAction::Block, "NTP v4"),
            (packet(LayerKind::AleAuthConnectV6, IpProtocol::Udp, "2606:4700:4700::1234", 123), FilterAction::Block, "NTP v6"),
            (packet(LayerKind::AleAuthConnectV4, IpProtocol::Udp, "9.9.9.9", 53), FilterAction::Block, "direct udp/53"),
            (packet(LayerKind::AleAuthConnectV4, IpProtocol::Tcp, "9.9.9.9", 53), FilterAction::Block, "direct tcp/53"),
            (packet(LayerKind::AleAuthConnectV6, IpProtocol::Udp, "2606:4700:4700::1111", 53), FilterAction::Block, "direct v6 udp/53"),
            (packet(LayerKind::AleAuthConnectV4, IpProtocol::Tcp, "9.9.9.9", 443), FilterAction::Block, "arbitrary tcp"),
            (packet(LayerKind::AleAuthConnectV6, IpProtocol::Tcp, "2606:4700:4700::1111", 443), FilterAction::Block, "arbitrary v6 tcp"),
        ];
        for (probe, expected, label) in &cases {
            assert_eq!(arbitrate(&filters, probe), *expected, "{mode:?}: {label}");
        }
        for ty in 133..=137_u16 {
            let mut outbound = packet(LayerKind::AleAuthConnectV6, IpProtocol::IcmpV6, "fe80::1", 0);
            outbound.icmp_type = Some(ty);
            assert_eq!(arbitrate(&filters, &outbound), FilterAction::Permit, "{mode:?}: NDP out {ty}");
            let mut inbound = packet(LayerKind::AleAuthRecvAcceptV6, IpProtocol::IcmpV6, "fe80::1", 0);
            inbound.icmp_type = Some(ty);
            assert_eq!(arbitrate(&filters, &inbound), FilterAction::Permit, "{mode:?}: NDP in {ty}");
        }
    }
}

#[test]
fn arbitration_endpoint_permit_requires_the_staged_app_id() {
    let filters = expected_filters(&config(KillSwitchStatusMode::Bootstrap));
    let mut probe = packet(LayerKind::AleAuthConnectV4, IpProtocol::Tcp, "8.8.8.8", 443);
    probe.app_id_matches = true;
    assert_eq!(arbitrate(&filters, &probe), FilterAction::Permit);
    probe.app_id_matches = false;
    assert_eq!(arbitrate(&filters, &probe), FilterAction::Block);
}

#[test]
fn arbitration_api_channel_open_in_bootstrap_and_blocked_retracted_in_locked() {
    let probe = packet(LayerKind::AleAuthConnectV4, IpProtocol::Tcp, "1.1.1.1", 443);
    assert_eq!(arbitrate(&expected_filters(&config(KillSwitchStatusMode::Bootstrap)), &probe), FilterAction::Permit);
    assert_eq!(arbitrate(&expected_filters(&config(KillSwitchStatusMode::Blocked)), &probe), FilterAction::Permit);
    assert_eq!(arbitrate(&expected_filters(&config(KillSwitchStatusMode::Locked)), &probe), FilterAction::Block);
}

#[test]
fn arbitration_tunnel_permitted_only_when_locked() {
    let mut probe = packet(LayerKind::AleAuthConnectV4, IpProtocol::Tcp, "9.9.9.9", 443);
    probe.local_interface = Some(0x1234_5678);
    assert_eq!(arbitrate(&expected_filters(&config(KillSwitchStatusMode::Locked)), &probe), FilterAction::Permit);
    for mode in [KillSwitchStatusMode::Bootstrap, KillSwitchStatusMode::Blocked] {
        assert_eq!(arbitrate(&expected_filters(&config(mode)), &probe), FilterAction::Block, "{mode:?}");
    }
}

fn config_with_direct_endpoints(mode: KillSwitchStatusMode) -> RuleConfig {
    let mut config = config(mode);
    config.direct_endpoints = vec![
        endpoint("203.0.113.9", 443),
        ProxyEndpoint { ip: "203.0.113.10".to_owned(), port: 8000, protocol: ProxyProtocol::Udp },
    ];
    config
}

#[test]
fn direct_endpoints_are_permitted_exactly_for_any_process_while_locked() {
    let filters = expected_filters(&config_with_direct_endpoints(KillSwitchStatusMode::Locked));
    let tcp = packet(LayerKind::AleAuthConnectV4, IpProtocol::Tcp, "203.0.113.9", 443);
    assert_eq!(arbitrate(&filters, &tcp), FilterAction::Permit);
    let udp = packet(LayerKind::AleAuthConnectV4, IpProtocol::Udp, "203.0.113.10", 8000);
    assert_eq!(arbitrate(&filters, &udp), FilterAction::Permit);
    let wrong_port = packet(LayerKind::AleAuthConnectV4, IpProtocol::Tcp, "203.0.113.9", 8443);
    assert_eq!(arbitrate(&filters, &wrong_port), FilterAction::Block);
    let wrong_ip = packet(LayerKind::AleAuthConnectV4, IpProtocol::Tcp, "203.0.113.11", 443);
    assert_eq!(arbitrate(&filters, &wrong_ip), FilterAction::Block);
    let permit = filters
        .iter()
        .find(|filter| filter.conditions.contains(&Condition::RemoteAddressV4 { addr: [203, 0, 113, 9], prefix: 32 }))
        .expect("direct permit must exist");
    assert_eq!(permit.weight, WEIGHT_HARD_PERMIT);
    assert!(!permit.conditions.contains(&Condition::AleAppId));
    let without = expected_filters(&config(KillSwitchStatusMode::Locked));
    assert!(!without.iter().any(|filter| filter.name.contains("DIRECT")));
}

#[test]
fn direct_permits_are_absent_and_blocked_outside_locked() {
    for mode in [KillSwitchStatusMode::Bootstrap, KillSwitchStatusMode::Blocked] {
        let filters = expected_filters(&config_with_direct_endpoints(mode));
        assert!(!filters.iter().any(|filter| filter.name.contains("DIRECT")), "{mode:?}");
        for (protocol, address, port) in [(IpProtocol::Tcp, "203.0.113.9", 443_u16), (IpProtocol::Udp, "203.0.113.10", 8000)] {
            let approved = packet(LayerKind::AleAuthConnectV4, protocol, address, port);
            assert_eq!(arbitrate(&filters, &approved), FilterAction::Block, "{mode:?}: {address}:{port}");
        }
    }
    let locked = expected_filters(&config_with_direct_endpoints(KillSwitchStatusMode::Locked));
    let blocked = expected_filters(&config_with_direct_endpoints(KillSwitchStatusMode::Blocked));
    let direct_keys = locked
        .iter()
        .filter(|filter| filter.name.contains("DIRECT"))
        .map(|filter| filter.key)
        .collect::<Vec<_>>();
    assert_eq!(direct_keys.len(), 2);
    let plan = diff(&locked.iter().map(|filter| filter.key).collect::<Vec<_>>(), &blocked);
    assert!(direct_keys.iter().all(|key| plan.remove.contains(key)));
}

#[test]
fn guids_round_trip_and_tono_keys_are_distinct() {
    let g = Guid::from_u128(0x1234_5678_9abc_def0_1122_3344_5566_7788);
    assert_eq!(g.into_u128(), 0x1234_5678_9abc_def0_1122_3344_5566_7788);
    assert_ne!(tono_wfp_provider_key(), tono_wfp_sublayer_key());
    assert_eq!(tono_wfp_provider_key().into_u128(), 0x2f7c9d41_8b3e_4a6c_9d52_1e7f0a4b6c8d);
    assert_eq!(tono_wfp_sublayer_key().into_u128(), 0x2f7c9d42_8b3e_4a6c_9d52_1e7f0a4b6c8d);
}

#[test]
fn the_floor_keys_are_distinct_stable_and_namespaced() {
    let keys: Vec<u128> = intent_floor().iter().map(|filter| filter.key.into_u128()).collect();
    assert_eq!(keys.len(), 8);
    for (i, a) in keys.iter().enumerate() {
        assert_eq!(a >> 64, 0x2f7c_9e02_0000_4a6c);
        for b in &keys[i + 1..] {
            assert_ne!(a, b);
        }
    }
    assert_eq!(intent_floor(), intent_floor());
    for key in &keys {
        assert_eq!(Guid::from_u128(*key).into_u128(), *key);
    }
}
