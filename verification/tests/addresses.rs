use relay_control::addr::IpAddress;
use relay_control::config::{resolve_config, AddressMode, CliOptions, ConfigError};
use relay_control::discovery::discover;
use relay_control::endpoints::{
    plan_discovered, plan_single, select_bound, BindPolicy, RelayEndpointPlan,
};

fn v4(a: u8, b: u8, c: u8, d: u8) -> IpAddress {
    IpAddress::V4(u32::from_be_bytes([a, b, c, d]))
}

#[test]
fn global_v4_classification() {
    assert!(v4(1, 1, 1, 1).is_global());
    assert!(v4(8, 8, 8, 8).is_global());
    assert!(v4(192, 0, 0, 9).is_global());
    assert!(!v4(0, 1, 2, 3).is_global());
    assert!(!v4(10, 0, 0, 1).is_global());
    assert!(!v4(100, 64, 0, 1).is_global());
    assert!(!v4(127, 0, 0, 1).is_global());
    assert!(!v4(169, 254, 1, 1).is_global());
    assert!(!v4(172, 16, 0, 1).is_global());
    assert!(!v4(192, 0, 0, 1).is_global());
    assert!(!v4(192, 0, 2, 1).is_global());
    assert!(!v4(192, 168, 1, 1).is_global());
    assert!(!v4(198, 18, 0, 1).is_global());
    assert!(!v4(198, 51, 100, 1).is_global());
    assert!(!v4(203, 0, 113, 1).is_global());
    assert!(!v4(240, 0, 0, 1).is_global());
    assert!(!v4(255, 255, 255, 255).is_global());
}

#[test]
fn global_v6_classification() {
    assert!(IpAddress::V6(0x2606_4700_0000_0000_0000_0000_0000_1111).is_global());
    assert!(!IpAddress::V6(0).is_global());
    assert!(!IpAddress::V6(1).is_global());
    assert!(!IpAddress::V6(0x0000_0000_0000_0000_0000_ffff_0102_0304).is_global());
    assert!(!IpAddress::V6(0xfd00_0000_0000_0000_0000_0000_0000_0001).is_global());
    assert!(!IpAddress::V6(0xfe80_0000_0000_0000_0000_0000_0000_0001).is_global());
    assert!(!IpAddress::V6(0x2001_0db8_0000_0000_0000_0000_0000_0001).is_global());
    assert!(!IpAddress::V6(0x2002_0000_0000_0000_0000_0000_0000_0001).is_global());
    // anycast exceptions inside the IETF protocol block stay global
    assert!(IpAddress::V6(0x2001_0001_0000_0000_0000_0000_0000_0001).is_global());
    assert!(IpAddress::V6(0x2001_0001_0000_0000_0000_0000_0000_0002).is_global());
    assert!(!IpAddress::V6(0x2001_0001_0000_0000_0000_0000_0000_0003).is_global());
}

#[test]
fn discover_dedupes_and_drops_non_global() {
    let candidates = vec![
        v4(127, 0, 0, 1),
        v4(8, 8, 8, 8),
        v4(8, 8, 8, 8),
        v4(169, 254, 1, 1),
        v4(10, 0, 0, 1),
        v4(1, 1, 1, 1),
        IpAddress::V6(1),
        IpAddress::V6(0x2606_4700_0000_0000_0000_0000_0000_1111),
    ];
    let found = discover(&candidates);
    assert_eq!(
        found,
        vec![
            v4(1, 1, 1, 1),
            v4(8, 8, 8, 8),
            IpAddress::V6(0x2606_4700_0000_0000_0000_0000_0000_1111),
        ]
    );
}

#[test]
fn discover_of_nothing_is_empty() {
    let found = discover(&Vec::new());
    assert!(found.is_empty());
}

#[test]
fn parse_ipv4_accepts_dotted_quads() {
    assert_eq!(IpAddress::parse_ipv4("203.0.113.5"), Some(v4(203, 0, 113, 5)));
    assert_eq!(IpAddress::parse_ipv4("0.0.0.0"), Some(IpAddress::V4(0)));
    assert_eq!(IpAddress::parse_ipv4("255.255.255.255"), Some(v4(255, 255, 255, 255)));
    assert_eq!(IpAddress::parse_ipv4("1.2.3.4"), Some(v4(1, 2, 3, 4)));
}

#[test]
fn parse_ipv4_rejects_malformed_text() {
    assert_eq!(IpAddress::parse_ipv4(""), None);
    assert_eq!(IpAddress::parse_ipv4("1.2.3"), None);
    assert_eq!(IpAddress::parse_ipv4("1.2.3.4.5"), None);
    assert_eq!(IpAddress::parse_ipv4("256.0.0.1"), None);
    assert_eq!(IpAddress::parse_ipv4("1.2.3.a"), None);
    assert_eq!(IpAddress::parse_ipv4("1..2.3"), None);
    assert_eq!(IpAddress::parse_ipv4(" 1.2.3.4"), None);
    assert_eq!(IpAddress::parse_ipv4("1.2.3.4 "), None);
    assert_eq!(IpAddress::parse_ipv4("2001:db8::1"), None);
}

#[test]
fn single_address_mode_yields_exactly_one_endpoint() {
    let opts = CliOptions {
        realm: None,
        socket_path: None,
        public_ip: Some("203.0.113.5".to_owned()),
        port: Some(3478),
        shared_secret: Some("north".to_owned()),
    };
    let config = resolve_config(opts).expect("options are acceptable");
    assert_eq!(config.realm, "webrtc.rs");
    assert_eq!(config.port, 3478);
    let public_ip = match config.mode {
        AddressMode::Single { public_ip } => public_ip,
        AddressMode::MultiHomed => panic!("expected single-address mode"),
    };
    let plans = plan_single(public_ip, config.port);
    assert_eq!(
        plans,
        vec![RelayEndpointPlan {
            bind_addr: IpAddress::V4(0),
            port: 3478,
            advertised: v4(203, 0, 113, 5),
        }]
    );
}

#[test]
fn multi_homed_mode_requires_a_socket_path() {
    let opts = CliOptions {
        realm: None,
        socket_path: None,
        public_ip: None,
        port: None,
        shared_secret: Some("north".to_owned()),
    };
    let err = match resolve_config(opts) {
        Err(e) => e,
        Ok(_) => panic!("expected an error"),
    };
    assert_eq!(err, ConfigError::MissingSocketPath);
}

#[test]
fn malformed_public_ip_is_fatal() {
    let opts = CliOptions {
        realm: None,
        socket_path: None,
        public_ip: Some("203.0.113".to_owned()),
        port: None,
        shared_secret: Some("north".to_owned()),
    };
    let err = match resolve_config(opts) {
        Err(e) => e,
        Ok(_) => panic!("expected an error"),
    };
    assert_eq!(err, ConfigError::MalformedPublicIp);
}

#[test]
fn missing_shared_secret_is_fatal() {
    let opts = CliOptions {
        realm: None,
        socket_path: Some("/run/relay.sock".to_owned()),
        public_ip: None,
        port: None,
        shared_secret: None,
    };
    let err = match resolve_config(opts) {
        Err(e) => e,
        Ok(_) => panic!("expected an error"),
    };
    assert_eq!(err, ConfigError::MissingSharedSecret);
}

#[test]
fn defaults_apply_in_multi_homed_mode() {
    let opts = CliOptions {
        realm: Some("example.org".to_owned()),
        socket_path: Some("/run/relay.sock".to_owned()),
        public_ip: None,
        port: None,
        shared_secret: Some("north".to_owned()),
    };
    let config = resolve_config(opts).expect("options are acceptable");
    assert_eq!(config.realm, "example.org");
    assert_eq!(config.mode, AddressMode::MultiHomed);
    assert_eq!(config.port, 3478);
    assert_eq!(config.socket_path.as_deref(), Some("/run/relay.sock"));
    assert_eq!(config.shared_secret, "north");
    assert_eq!(config.ttl_secs, 432000);
    assert_eq!(config.channel_bind_timeout_secs, 0);
}

#[test]
fn plan_discovered_makes_one_listener_per_address() {
    let addresses = vec![v4(1, 1, 1, 1), v4(8, 8, 8, 8)];
    let plans = plan_discovered(&addresses, 3478);
    assert_eq!(
        plans,
        vec![
            RelayEndpointPlan { bind_addr: v4(1, 1, 1, 1), port: 3478, advertised: v4(1, 1, 1, 1) },
            RelayEndpointPlan { bind_addr: v4(8, 8, 8, 8), port: 3478, advertised: v4(8, 8, 8, 8) },
        ]
    );
}

#[test]
fn abort_all_surfaces_the_first_failed_bind() {
    let plans = plan_discovered(&vec![v4(1, 1, 1, 1), v4(8, 8, 8, 8), v4(9, 9, 9, 9)], 3478);
    let ok = select_bound(&plans, &vec![true, true, true], BindPolicy::AbortAll)
        .expect("all listeners bound");
    assert_eq!(ok, plans);
    let failure = select_bound(&plans, &vec![true, false, false], BindPolicy::AbortAll)
        .expect_err("a bind failed");
    assert_eq!(failure.index, 1);
    assert_eq!(failure.plan, plans[1]);
}

#[test]
fn skip_failed_keeps_the_surviving_listeners() {
    let plans = plan_discovered(&vec![v4(1, 1, 1, 1), v4(8, 8, 8, 8), v4(9, 9, 9, 9)], 3478);
    let kept = select_bound(&plans, &vec![true, false, true], BindPolicy::SkipFailed)
        .expect("skip policy never aborts");
    assert_eq!(kept, vec![plans[0], plans[2]]);
    let none = select_bound(&plans, &vec![false, false, false], BindPolicy::SkipFailed)
        .expect("skip policy never aborts");
    assert!(none.is_empty());
}
