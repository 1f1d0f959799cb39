use voidweb::tor_proxy::{BridgeType, TorConfig, TorMode, TorProxy, SNOWFLAKE_BRIDGE};

fn config(mode: TorMode) -> TorConfig {
    let mut c = TorConfig::default_in(Some("/home/u/.config"));
    c.mode = mode;
    c
}

#[test]
fn default_config() {
    let c = TorConfig::default_in(Some("/home/u/.config"));
    assert_eq!(c.mode, TorMode::AlwaysOn);
    assert_eq!(c.socks_port, 9150);
    assert_eq!(c.control_port, 9151);
    assert_eq!(c.data_dir, "/home/u/.config/voidweb/tor");
    assert!(matches!(c.bridge, BridgeType::NoBridge));
    assert!(c.enforce_https && c.isolate_by_tab && c.new_circuit_on_domain);
    assert!(c.exit_country.is_none());
    assert_eq!(TorConfig::default_in(None).data_dir, "/tmp/voidweb/tor");
    assert_eq!(TorConfig::default_in(Some("/cfg/")).data_dir, "/cfg/voidweb/tor");
}

#[test]
fn a_new_proxy_is_stopped_with_zero_stats() {
    let p = TorProxy::new(config(TorMode::AlwaysOn));
    assert!(!p.is_running());
    let s = p.stats();
    assert_eq!(s.bytes_sent, 0);
    assert_eq!(s.bytes_received, 0);
    assert_eq!(s.circuits_created, 0);
    assert_eq!(s.circuits_failed, 0);
    assert_eq!(s.onion_sites_visited, 0);
}

#[test]
fn socks_url_unless_disabled_and_stopped() {
    assert_eq!(TorProxy::new(config(TorMode::AlwaysOn)).socks_url(), Some("socks5://127.0.0.1:9150".to_string()));
    assert_eq!(TorProxy::new(config(TorMode::OnionOnly)).socks_url(), Some("socks5://127.0.0.1:9150".to_string()));
    let mut p = TorProxy::new(config(TorMode::Disabled));
    assert_eq!(p.socks_url(), None);
    p.start_attempted(true);
    assert_eq!(p.socks_url(), None);
    let mut c = config(TorMode::AlwaysOn);
    c.socks_port = 1;
    assert_eq!(TorProxy::new(c).socks_url(), Some("socks5://127.0.0.1:1".to_string()));
}

#[test]
fn onion_detection() {
    assert!(TorProxy::is_onion("http://abcdef.onion/index"));
    assert!(TorProxy::is_onion(".onion"));
    assert!(!TorProxy::is_onion("https://example.com"));
    assert!(!TorProxy::is_onion("onion"));
    assert!(!TorProxy::is_onion(""));
}

#[test]
fn onion_detection_reads_the_host() {
    assert!(TorProxy::is_onion("http://abc.onion/"));
    assert!(TorProxy::is_onion("http://ABC.ONION/"));
    assert!(TorProxy::is_onion("http://user@abc.onion:8080/x?y#z"));
    assert!(TorProxy::is_onion("abc.onion"));
    assert!(!TorProxy::is_onion("https://example.com/"));
    assert!(!TorProxy::is_onion("https://example.com/a.onion"));
    assert!(!TorProxy::is_onion("https://example.com/?q=x.onion"));
    assert!(!TorProxy::is_onion("https://abc.onion.example.com/"));
    assert!(!TorProxy::is_onion("https://abc.onion@example.com/"));
}

#[test]
fn proxying_by_mode() {
    let onion = "http://x.onion";
    let clear = "https://example.com";
    let off = TorProxy::new(config(TorMode::Disabled));
    assert!(!off.should_proxy(onion) && !off.should_proxy(clear));
    let on = TorProxy::new(config(TorMode::AlwaysOn));
    assert!(on.should_proxy(onion) && on.should_proxy(clear));
    let only = TorProxy::new(config(TorMode::OnionOnly));
    assert!(only.should_proxy(onion) && !only.should_proxy(clear));
    let tab = TorProxy::new(config(TorMode::PerTab));
    assert!(tab.should_proxy(onion) && tab.should_proxy(clear));
}

#[test]
fn start_and_stop() {
    let mut p = TorProxy::new(config(TorMode::AlwaysOn));
    assert!(!p.stop());
    p.start_attempted(true);
    assert!(p.is_running());
    assert!(p.stop());
    assert!(!p.is_running());
}

#[test]
fn disabled_tor_has_nothing_to_start() {
    assert!(TorProxy::new(config(TorMode::Disabled)).start_plan().is_none());
}

#[test]
fn torrc_for_the_default_config() {
    let plan = TorProxy::new(config(TorMode::AlwaysOn)).start_plan().unwrap();
    assert_eq!(plan.data_dir, "/home/u/.config/voidweb/tor");
    assert_eq!(plan.torrc_path, "/home/u/.config/voidweb/tor/torrc");
    assert_eq!(
        plan.torrc,
        "SocksPort 9150\nControlPort 9151\nDataDirectory /home/u/.config/voidweb/tor\n# HTTPS enforcement handled at browser level\n"
    );
}

#[test]
fn torrc_with_exit_country_and_bridges() {
    let mut c = config(TorMode::PerTab);
    c.enforce_https = false;
    c.exit_country = Some("de".to_string());
    c.bridge = BridgeType::Obfs4 { bridge_line: "1.2.3.4:443 FP cert=x".to_string() };
    let t = TorProxy::new(c).start_plan().unwrap().torrc;
    assert_eq!(
        t,
        "SocksPort 9150\nControlPort 9151\nDataDirectory /home/u/.config/voidweb/tor\nExitNodes {de}\nUseBridges 1\nBridge obfs4 1.2.3.4:443 FP cert=x\nClientTransportPlugin obfs4 exec /usr/bin/obfs4proxy\n"
    );

    let mut c = config(TorMode::AlwaysOn);
    c.bridge = BridgeType::Meek { url: "https://m.example/".to_string() };
    let t = TorProxy::new(c).start_plan().unwrap().torrc;
    assert!(t.ends_with("UseBridges 1\nBridge meek_lite 0.0.2.0:2 url=https://m.example/\n"));

    let mut c = config(TorMode::AlwaysOn);
    c.bridge = BridgeType::WebTunnel { url: "https://w.example/".to_string() };
    let t = TorProxy::new(c).start_plan().unwrap().torrc;
    assert!(t.ends_with("UseBridges 1\nBridge webtunnel https://w.example/\n"));

    let mut c = config(TorMode::AlwaysOn);
    c.bridge = BridgeType::Snowflake;
    let t = TorProxy::new(c).start_plan().unwrap().torrc;
    let tail = format!("UseBridges 1\nClientTransportPlugin snowflake exec /usr/bin/snowflake-client\n{}", SNOWFLAKE_BRIDGE);
    assert!(t.ends_with(&tail));
}

#[test]
fn new_circuit_counts_and_names_the_control_port() {
    let mut p = TorProxy::new(config(TorMode::AlwaysOn));
    let req = p.new_circuit_request();
    assert_eq!(req.control_addr, "127.0.0.1:9151");
    assert_eq!(req.commands, "AUTHENTICATE\r\nSIGNAL NEWNYM\r\nQUIT\r\n");
    assert_eq!(p.stats().circuits_created, 1);
    let _ = p.new_circuit_request();
    assert_eq!(p.stats().circuits_created, 2);
}

#[test]
fn running_follows_the_last_start_or_stop() {
    let mut p = TorProxy::new(config(TorMode::AlwaysOn));
    assert!(!p.is_running());
    let _ = p.new_circuit_request();
    assert!(!p.is_running());
    p.start_attempted(true);
    assert!(p.is_running());
    let _ = p.new_circuit_request();
    assert!(p.is_running());
    assert!(p.stop());
    assert!(!p.is_running());
    assert!(!p.stop());
    p.start_attempted(true);
    p.start_attempted(true);
    assert!(p.is_running());
}

#[test]
fn failed_or_disabled_starts_do_not_run_the_proxy() {
    let mut p = TorProxy::new(config(TorMode::AlwaysOn));
    p.start_attempted(false);
    assert!(!p.is_running());
    p.start_attempted(true);
    p.start_attempted(false);
    assert!(p.is_running());
    let mut d = TorProxy::new(config(TorMode::Disabled));
    d.start_attempted(true);
    assert!(!d.is_running());
}
