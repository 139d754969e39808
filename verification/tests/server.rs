use proxyapi::ca::{Certificate, Issue};
use proxyapi::connection::{tunnel_mode, TunnelMode};
use proxyapi::proxy::{Error, Event, ProxyState, Step};
use proxyapi::server::ProxyServer;
use proxyapi::system_proxy::{
    clear_system_proxy, get_system_proxy, proxy_from_networksetup, proxy_from_registry,
    restore_step, set_system_proxy, ProxyConfig, Restore, SettingsError,
};

fn config(host: &str, port: &str) -> ProxyConfig {
    ProxyConfig {
        enabled: true,
        host: host.to_string(),
        port: port.to_string(),
        username: "user".to_string(),
        password: "SECRET-REDACTED".to_string(),
        bypass: "localhost".to_string(),
    }
}

fn root() -> Certificate {
    Certificate { cert: b"root-cert".to_vec(), key: b"root-key".to_vec() }
}

#[test]
fn a_server_listens_where_its_settings_say() {
    let mut server = ProxyServer::new(config("127.0.0.1", "8100"), root());
    assert_eq!(server.config().host, "127.0.0.1");
    assert_eq!(server.config().port, "8100");
    assert_eq!(server.state(), ProxyState::Created);
    match server.start() {
        Step::Bind { addr } => assert_eq!(addr, "127.0.0.1:8100"),
        _ => panic!("start must ask for a bind"),
    }
}

#[test]
fn a_server_starts_and_stops() {
    let mut server = ProxyServer::new(config("127.0.0.1", "8100"), root());
    assert!(matches!(server.stop(), Step::Nothing));
    let _ = server.start();
    assert!(matches!(server.on_event(Event::Bound), Ok(Step::Accept)));
    assert!(matches!(server.on_event(Event::Serving), Ok(Step::Nothing)));
    assert_eq!(server.state(), ProxyState::Accepting);
    assert!(matches!(server.stop(), Step::StopAccepting));
    assert!(matches!(server.on_event(Event::Drained), Ok(Step::Nothing)));
    assert_eq!(server.state(), ProxyState::Stopped);
    assert!(matches!(server.start(), Step::Bind { .. }));
}

#[test]
fn a_server_reports_a_bind_that_keeps_failing() {
    let mut server = ProxyServer::new(config("127.0.0.1", "8100"), root());
    let _ = server.start();
    for _ in 0..3 {
        let out = server.on_event(Event::BindFailed { reason: "in use".to_string() });
        assert!(matches!(out, Ok(Step::Retry { millis: 500, .. })));
    }
    match server.on_event(Event::BindFailed { reason: "in use".to_string() }) {
        Err(Error::Bind { reason }) => assert_eq!(reason, "in use"),
        Ok(_) => panic!("the fourth failure must end the start"),
    }
}

#[test]
fn a_server_exports_its_root_certificate() {
    let server = ProxyServer::new(config("127.0.0.1", "8100"), root());
    assert_eq!(server.export_certificate(), b"root-cert".to_vec());
}

#[test]
fn a_server_issues_through_its_authority() {
    let mut server = ProxyServer::new(config("127.0.0.1", "8100"), root());
    assert!(matches!(server.issue_for_host("example.com:443"), Issue::Sign));
    let leaf = Certificate { cert: b"leaf".to_vec(), key: b"leaf-key".to_vec() };
    let kept = server.signed("example.com:443", Ok(leaf)).unwrap();
    assert_eq!(kept.cert, b"leaf".to_vec());
    match server.issue_for_host("EXAMPLE.com") {
        Issue::Cached(found) => {
            assert_eq!(found.cert, b"leaf".to_vec());
            assert_eq!(found.key, b"leaf-key".to_vec());
        }
        Issue::Sign => panic!("the host has a certificate"),
    }
    let failed = server.signed("other.example", Err("signing failed".to_string()));
    assert_eq!(failed.err(), Some("signing failed".to_string()));
    assert!(matches!(server.issue_for_host("other.example"), Issue::Sign));
    assert_eq!(server.export_certificate(), b"root-cert".to_vec());
}

#[test]
fn settings_name_their_proxy() {
    assert_eq!(get_system_proxy(&config("127.0.0.1", "8100")), "127.0.0.1:8100");
    let mut off = config("127.0.0.1", "8100");
    off.enabled = false;
    assert_eq!(get_system_proxy(&off), "");
}

#[test]
fn setting_a_proxy_splits_host_and_port() {
    let mut settings = config("old.example", "1");
    settings.enabled = false;
    assert_eq!(set_system_proxy(&mut settings, "proxy.example:3128"), Ok(()));
    assert!(settings.enabled);
    assert_eq!(settings.host, "proxy.example");
    assert_eq!(settings.port, "3128");
    assert_eq!(settings.username, "user");
    assert_eq!(settings.password, "SECRET-REDACTED");
    assert_eq!(settings.bypass, "localhost");
    assert_eq!(get_system_proxy(&settings), "proxy.example:3128");
}

#[test]
fn a_proxy_of_another_shape_is_refused() {
    for bad in ["", "proxy.example", "a:b:c", "::", "[::1]:8080"] {
        let mut settings = config("old.example", "1");
        assert_eq!(set_system_proxy(&mut settings, bad), Err(SettingsError::InvalidFormat));
        assert!(settings.enabled);
        assert_eq!(settings.host, "old.example");
        assert_eq!(settings.port, "1");
    }
    assert_eq!(SettingsError::InvalidFormat.message(), "Invalid proxy format");
}

#[test]
fn a_lone_colon_names_an_empty_host_and_port() {
    let mut settings = config("old.example", "1");
    assert_eq!(set_system_proxy(&mut settings, ":"), Ok(()));
    assert_eq!(settings.host, "");
    assert_eq!(settings.port, "");
    assert_eq!(get_system_proxy(&settings), ":");
}

#[test]
fn clearing_keeps_what_the_proxy_was() {
    let mut settings = config("proxy.example", "3128");
    clear_system_proxy(&mut settings);
    assert!(!settings.enabled);
    assert_eq!(settings.host, "proxy.example");
    assert_eq!(settings.port, "3128");
    assert_eq!(get_system_proxy(&settings), "");
    let copy = settings.clone();
    assert_eq!(copy.host, "proxy.example");
    assert_eq!(copy.bypass, "localhost");
}

#[test]
fn a_tunnel_is_intercepted_only_where_tls_begins() {
    let hello = [0x16u8, 0x03, 0x01, 0x02, 0x00];
    assert_eq!(tunnel_mode(true, &hello), TunnelMode::Intercept);
    assert_eq!(tunnel_mode(true, &[0x16, 0x03]), TunnelMode::Intercept);
    assert_eq!(tunnel_mode(false, &hello), TunnelMode::Raw);
    assert_eq!(tunnel_mode(true, b"GET / HTTP/1.1\r\n"), TunnelMode::Raw);
    assert_eq!(tunnel_mode(true, &[0x16]), TunnelMode::Raw);
    assert_eq!(tunnel_mode(true, &[0x16, 0x02, 0x00]), TunnelMode::Raw);
    assert_eq!(tunnel_mode(true, &[]), TunnelMode::Raw);
}

#[test]
fn the_registry_names_its_proxy_in_the_last_word_of_the_line() {
    let printed = "\r\nHKEY_CURRENT_USER\\Software\\Microsoft\\Windows\\CurrentVersion\\Internet Settings\r\n    ProxyServer    REG_SZ    127.0.0.1:8100\r\n\r\n";
    assert_eq!(proxy_from_registry(printed), "127.0.0.1:8100");
    assert_eq!(proxy_from_registry("ProxyServer REG_SZ a:1\nProxyServer REG_SZ b:2\n"), "a:1");
    assert_eq!(proxy_from_registry("    ProxyServer    \r\n"), "ProxyServer");
}

#[test]
fn a_registry_without_the_value_names_no_proxy() {
    assert_eq!(proxy_from_registry(""), "");
    assert_eq!(
        proxy_from_registry("ERROR: The system was unable to find the specified registry key or value.\r\n"),
        ""
    );
    assert_eq!(proxy_from_registry("    ProxyEnable    REG_DWORD    0x1\r\n"), "");
}

#[test]
fn networksetup_names_server_and_port() {
    let printed = "Enabled: Yes\nServer: 127.0.0.1\nPort: 8100\nAuthenticated Proxy Enabled: 0\n";
    assert_eq!(proxy_from_networksetup(printed), "127.0.0.1:8100");
    assert_eq!(proxy_from_networksetup("Enabled: Yes\n"), ":");
    assert_eq!(proxy_from_networksetup("Enabled: Yes\nPort: 1\nServer: s\nServer: t\n"), "s:1");
}

#[test]
fn networksetup_with_the_proxy_off_names_none() {
    let printed = "Enabled: No\nServer: 127.0.0.1\nPort: 8100\nAuthenticated Proxy Enabled: 0\n";
    assert_eq!(proxy_from_networksetup(printed), "");
    assert_eq!(proxy_from_networksetup(""), "");
}

fn value_by_std(output: &str, marker: &str) -> String {
    output
        .lines()
        .find(|line| line.contains(marker))
        .and_then(|line| line.split_whitespace().last())
        .unwrap_or("")
        .to_string()
}

#[test]
fn the_readers_agree_with_the_standard_library() {
    let samples = [
        "",
        "ProxyServer",
        "x ProxyServer y\r\n",
        "a\n\n  ProxyServer\t v1 \u{a0}v2\u{3000}\nProxyServer z",
        "ProxyServe\nrProxyServer\n",
        "  \n \t ProxyServer: \r",
        "Proxy\nServer ProxyServer\u{2003}last\u{85}",
    ];
    for sample in samples {
        let expected =
            if sample.contains("ProxyServer") { value_by_std(sample, "ProxyServer") } else { String::new() };
        assert_eq!(proxy_from_registry(sample), expected);
    }
}

#[test]
fn settings_are_put_back_or_cleared() {
    let saved = Some("old.example:3128".to_string());
    match restore_step(&saved, false) {
        Restore::PutBack { proxy } => assert_eq!(proxy, "old.example:3128"),
        Restore::Clear => panic!("saved settings must be put back"),
    }
    assert!(matches!(restore_step(&saved, true), Restore::Clear));
    assert!(matches!(restore_step(&None, false), Restore::Clear));
    assert!(matches!(restore_step(&None, true), Restore::Clear));
    match restore_step(&Some(String::new()), false) {
        Restore::PutBack { proxy } => assert_eq!(proxy, ""),
        Restore::Clear => panic!("saved settings must be put back"),
    }
}
