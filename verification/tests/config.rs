use quote_sidecar::config::Config;
use quote_sidecar::config::ConfigError;

#[test]
fn defaults_resolve_to_wildcard_host_and_port_9999() {
    let config = Config::load(None, None).unwrap();
    assert_eq!(config.server.host, "0.0.0.0");
    assert_eq!(config.server.port, 9999);
    assert_eq!(config.bind_addr(), "0.0.0.0:9999");
}

#[test]
fn given_values_are_kept() {
    let config = Config::load(Some("127.0.0.1".to_string()), Some("8080".to_string())).unwrap();
    assert_eq!(config.server.host, "127.0.0.1");
    assert_eq!(config.server.port, 8080);
    assert_eq!(config.bind_addr(), "127.0.0.1:8080");
}

#[test]
fn host_alone_keeps_default_port() {
    let config = Config::load(Some("localhost".to_string()), None).unwrap();
    assert_eq!(config.bind_addr(), "localhost:9999");
}

#[test]
fn port_bounds_are_enforced() {
    assert_eq!(
        Config::load(None, Some("0".to_string())).unwrap().server.port,
        0
    );
    assert_eq!(
        Config::load(None, Some("65535".to_string())).unwrap().server.port,
        65535
    );
    assert!(Config::load(None, Some("65536".to_string())).is_err());
    assert!(Config::load(None, Some("99999999999999999999".to_string())).is_err());
}

#[test]
fn malformed_ports_are_rejected_with_their_value() {
    for bad in ["", "abc", "80a", " 80", "-1", "+1", "8.0"] {
        match Config::load(None, Some(bad.to_string())) {
            Err(ConfigError::InvalidPort { value }) => assert_eq!(value, bad),
            Ok(_) => panic!("port {:?} must be rejected", bad),
        }
    }
}

#[test]
fn bind_addr_renders_edge_ports() {
    let low = Config::load(Some("h".to_string()), Some("0".to_string())).unwrap();
    assert_eq!(low.bind_addr(), "h:0");
    let high = Config::load(Some("h".to_string()), Some("65535".to_string())).unwrap();
    assert_eq!(high.bind_addr(), "h:65535");
}

#[test]
fn leading_zeros_are_read_as_decimal() {
    let config = Config::load(None, Some("09999".to_string())).unwrap();
    assert_eq!(config.server.port, 9999);
}
