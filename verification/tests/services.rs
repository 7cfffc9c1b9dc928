use zaino_e2e::container::{ContainerSpec, PortMapping};
use zaino_e2e::ip::IpAddress;
use zaino_e2e::log_watch::WatchOutcome;
use zaino_e2e::services::{
    e2e_network, validator_address_text, zaino_container, zaino_layout, zaino_readiness,
    zcashd_container, zebrad_container, zebrad_readiness, zindexer_config, ZEBRA_RPC_PORT,
    ZINDEXER_TEMPLATE,
};
use zaino_e2e::startup::{wait_report, StartupAction};

fn env(spec: &ContainerSpec) -> Vec<(String, String)> {
    spec.env_vars().clone()
}

fn pair(a: &str, b: &str) -> (String, String) {
    (a.to_string(), b.to_string())
}

#[test]
fn zebrad_request() {
    let z = zebrad_container();
    assert_eq!(z.image(), "zebrad");
    assert_eq!(z.tag(), "test");
    assert_eq!(
        env(&z),
        vec![pair("NETWORK", "Regtest"), pair("ENABLE_COOKIE_AUTH", "false"), pair("ZEBRA_RPC_PORT", "8237")]
    );
    assert!(z.cmd().is_empty());
    assert_eq!(z.network().as_deref(), Some("zingo-net"));
    assert_eq!(z.container_name().as_deref(), Some("zebrad"));
    assert_eq!(z.ports(), &vec![PortMapping { host_port: 8237, container_port: 8237 }]);
    assert!(z.mounts().is_empty());
    assert_eq!(ZEBRA_RPC_PORT, 8237);
}

#[test]
fn zcashd_request() {
    let z = zcashd_container();
    assert_eq!(z.image(), "zcashd");
    assert_eq!(z.tag(), "test");
    assert_eq!(
        env(&z),
        vec![
            pair("ZCASHD_NETWORK", "regtest"),
            pair("ZCASHD_ACK_FLAG", "-i-am-aware-zcashd-will-be-replaced-by-zebrad-and-zallet-in-2025=1"),
            pair("ENABLE_COOKIE_AUTH", "false"),
        ]
    );
    assert_eq!(z.network(), &None);
    assert_eq!(z.container_name(), &None);
    assert!(z.ports().is_empty());
}

#[test]
fn zaino_layout_under_project_dir() {
    let l = zaino_layout("/home/u/zaino-e2e");
    assert_eq!(l.config_dir, "/home/u/zaino-e2e/config");
    assert_eq!(l.cookie_file, "/home/u/zaino-e2e/config/.cookie");
    assert_eq!(l.data_dir, "/home/u/zaino-e2e/zaino-data");
    let root = zaino_layout("/");
    assert_eq!(root.config_dir, "/config");
    assert_eq!(root.cookie_file, "/config/.cookie");
    let empty = zaino_layout("");
    assert_eq!(empty.config_dir, "config");
    assert_eq!(empty.data_dir, "zaino-data");
}

#[test]
fn zaino_layout_agrees_with_path_join() {
    for dir in ["/repo", "/repo/", "/", "rel/dir", ""].iter() {
        let p = std::path::Path::new(dir);
        let l = zaino_layout(dir);
        assert_eq!(l.config_dir, p.join("config").to_str().unwrap());
        assert_eq!(l.cookie_file, p.join("config").join(".cookie").to_str().unwrap());
        assert_eq!(l.data_dir, p.join("zaino-data").to_str().unwrap());
    }
}

#[test]
fn zaino_request() {
    let l = zaino_layout("/repo");
    let z = zaino_container(&IpAddress::V4([172, 18, 0, 2]), &l);
    assert_eq!(z.image(), "zainod");
    assert_eq!(z.tag(), "test");
    assert_eq!(env(&z), vec![pair("ZCASH_RPC_URL", "172.18.0.2:8237")]);
    assert_eq!(z.cmd(), &vec!["zainod".to_string(), "--config".to_string(), "/config/zindexer.toml".to_string()]);
    assert_eq!(z.network().as_deref(), Some("zingo-net"));
    assert_eq!(z.container_name(), &None);
    assert!(z.ports().is_empty());
    let mounts: Vec<(String, String)> =
        z.mounts().iter().map(|m| (m.host_path.clone(), m.container_path.clone())).collect();
    assert_eq!(
        mounts,
        vec![
            pair("/repo/config", "/config"),
            pair("/repo/config/.cookie", "/home/zaino/.cookie"),
            pair("/repo/zaino-data", "/var/lib/zaino"),
        ]
    );
}

#[test]
fn validator_address_uses_rpc_port() {
    assert_eq!(validator_address_text(&IpAddress::V4([10, 0, 0, 7])), "10.0.0.7:8237");
    assert_eq!(validator_address_text(&IpAddress::V6([0, 0, 0, 0, 0, 0, 0, 1])), "::1:8237");
}

#[test]
fn zindexer_config_points_at_validator() {
    let cfg = zindexer_config(&IpAddress::V4([172, 18, 0, 2]));
    assert!(cfg.contains("validator_listen_address = \"172.18.0.2:8237\""));
    assert!(!cfg.contains("${VALIDATOR_LISTEN_ADDRESS}"));
    assert_eq!(cfg, ZINDEXER_TEMPLATE.replace("${VALIDATOR_LISTEN_ADDRESS}", "172.18.0.2:8237"));
    assert!(cfg.starts_with("\n# Configuration for Zaino\n"));
    assert!(cfg.contains("network = \"Regtest\""));
}

#[test]
fn network_is_bridge_named_zingo_net() {
    let n = e2e_network();
    assert_eq!(n.name, "zingo-net");
    assert_eq!(n.driver, "bridge");
    assert!(n.check_duplicate);
}

#[test]
fn zebrad_and_zaino_share_network_and_port() {
    let zebra = zebrad_container();
    let zaino = zaino_container(&IpAddress::V4([172, 18, 0, 3]), &zaino_layout("/r"));
    assert_eq!(zebra.network(), zaino.network());
    let port = env(&zebra).into_iter().find(|(k, _)| k == "ZEBRA_RPC_PORT").unwrap().1;
    let url = env(&zaino).into_iter().find(|(k, _)| k == "ZCASH_RPC_URL").unwrap().1;
    assert!(url.ends_with(&format!(":{}", port)));
}

#[test]
fn readiness_probes() {
    let z = zebrad_readiness();
    assert_eq!(z.marker, "Zebra is close to the tip tip_height=Height(0)");
    assert_eq!(z.timeout_secs, 10);
    assert!(z.echo_lines);
    assert_eq!(z.found_note, "\u{2705} Log message found.");
    let a = zaino_readiness();
    assert_eq!(a.marker, "Zaino Indexer started successfully.");
    assert_eq!(a.timeout_secs, 10);
    assert!(a.echo_lines);
    assert_eq!(a.found_note, "Log message found.");
}

#[test]
fn startup_actions_for_each_outcome() {
    let p = zebrad_readiness();
    match p.startup_action(WatchOutcome::Found) {
        StartupAction::Ready(note) => assert_eq!(note, "\u{2705} Log message found."),
        _ => panic!("expected Ready"),
    }
    match p.startup_action(WatchOutcome::StreamEnded) {
        StartupAction::Abort(msg) => assert_eq!(msg, "Error: Log stream ended before expected message"),
        _ => panic!("expected Abort"),
    }
    match p.startup_action(WatchOutcome::TimedOut) {
        StartupAction::Abort(msg) => assert_eq!(msg, "Timeout while waiting for log message."),
        _ => panic!("expected Abort"),
    }
    match p.startup_action(WatchOutcome::Interrupted) {
        StartupAction::Cancel(msg) => assert_eq!(msg, "Received Ctrl+C. Cleaning up..."),
        _ => panic!("expected Cancel"),
    }
}

#[test]
fn wait_reports_for_each_outcome() {
    assert_eq!(wait_report(WatchOutcome::Found), Ok("Log message found.".to_string()));
    assert_eq!(wait_report(WatchOutcome::StreamEnded), Err("Log stream ended before expected message".to_string()));
    assert_eq!(wait_report(WatchOutcome::TimedOut), Err("Timeout while waiting for log message.".to_string()));
    assert_eq!(wait_report(WatchOutcome::Interrupted), Err("Ctrl-C detected.".to_string()));
}

#[test]
fn env_var_set_twice_keeps_last_value() {
    let c = ContainerSpec::new("img", "t")
        .with_env_var("A".to_string(), "1".to_string())
        .with_env_var("B".to_string(), "2".to_string())
        .with_env_var("A".to_string(), "3".to_string());
    assert_eq!(env(&c), vec![pair("A", "3"), pair("B", "2")]);
}
