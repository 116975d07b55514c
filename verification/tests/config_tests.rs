use frp_client::config::{
    ClientCommonConfig, ClientTcpConfig, ClientWebConfig, Config, ConfigError,
};

#[test]
fn common_defaults() {
    let c = ClientCommonConfig::new();
    assert_eq!(c.server_addr, "0.0.0.0");
    assert_eq!(c.server_port, 7000);
    assert_eq!(c.pool_count, 1);
    assert!(c.tcp_mux);
    assert_eq!(c.token, "");
    assert_eq!(c.heartbeat_interval, 30);
    assert_eq!(c.heartbeat_timeout, 90);
}

#[test]
fn tcp_defaults() {
    let c = ClientTcpConfig::new();
    assert_eq!(c.service_type, "tcp");
    assert_eq!(c.local_ip, "127.0.0.1");
    assert_eq!(c.local_port, 0);
    assert_eq!(c.remote_port, 0);
}

#[test]
fn web_defaults_and_check() {
    let c = ClientWebConfig::new("https".to_string());
    assert_eq!(c.service_type, "https");
    assert_eq!(c.local_ip, "127.0.0.1");
    assert!(c.custom_domains.is_none());
    assert!(c.subdomain.is_none());
    // a web proxy without a domain or subdomain is invalid
    assert!(!c.check());

    let mut with_domain = ClientWebConfig::new("http".to_string());
    with_domain.custom_domains = Some("example.com".to_string());
    assert!(with_domain.check());

    let mut with_sub = ClientWebConfig::new("http".to_string());
    with_sub.subdomain = Some("blog".to_string());
    assert!(with_sub.check());
}

#[test]
fn config_accessors() {
    let mut cfg = Config::new();
    assert_eq!(cfg.server_addr(), "0.0.0.0");
    assert_eq!(cfg.server_port(), 7000);
    assert_eq!(cfg.auth_token(), "");

    let mut common = ClientCommonConfig::new();
    common.server_addr = "10.0.0.1".to_string();
    common.server_port = 7100;
    common.token = "s3cret".to_string();
    cfg.set_common(common);
    assert_eq!(cfg.server_addr(), "10.0.0.1");
    assert_eq!(cfg.server_port(), 7100);
    assert_eq!(cfg.auth_token(), "s3cret");
}

#[test]
fn get_proxy_resolves_tcp_then_web() {
    let mut cfg = Config::new();
    let mut ssh = ClientTcpConfig::new();
    ssh.local_ip = "192.168.1.5".to_string();
    ssh.local_port = 22;
    cfg.insert_tcp("ssh".to_string(), ssh);

    let mut site = ClientWebConfig::new("http".to_string());
    site.local_port = 8080;
    site.subdomain = Some("blog".to_string());
    cfg.insert_web("site".to_string(), site);

    let p = cfg.get_proxy("ssh").unwrap();
    assert_eq!(p.server_addr, "192.168.1.5");
    assert_eq!(p.server_port, 22);
    assert_eq!(p.proxy_type, "tcp");

    let w = cfg.get_proxy("site").unwrap();
    assert_eq!(w.server_addr, "127.0.0.1");
    assert_eq!(w.server_port, 8080);
    assert_eq!(w.proxy_type, "web");

    assert!(matches!(cfg.get_proxy("nope"), Err(ConfigError::NoSuchProxy)));
    assert!(cfg.has_proxy("ssh"));
    assert!(cfg.has_proxy("site"));
    assert!(!cfg.has_proxy("nope"));
}
