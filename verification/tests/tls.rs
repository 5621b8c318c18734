use fzcomputerai::tls_settings::{apply_tls_setting, parse_tls_mode, tls_cfg_pairs, TlsSettings};
use fzcomputerai::tls::{
    acme_contacts, acme_domain, days_left, default_sans, domain_check, fingerprint, fmt_dt, http01_response,
    inspect_cert_der, inspect_cert_pem, inspect_cert_pem_now, lan_ok, parse_tls_bind, probe_plan, probe_request,
    read_probe_response, renew_action, san_string, self_signed_reusable, tls_bind_ip, tls_bind_str, tls_mode_str,
    tls_ports, tls_status_of, tls_url, DateTimeParts, DomainError, HttpsProbe, RenewAction, SanName, TlsBind, TlsMode,
    TlsPortError, TlsStatus, PROBE_BODY,
};
use fzcomputerai::tunnel::Language;

fn at(unix: i64) -> DateTimeParts {
    DateTimeParts { unix, nanos: 0, year: 2024, month: 1, day: 1, hour: 0, minute: 0 }
}

#[test]
fn mode_and_bind_names() {
    assert_eq!(tls_mode_str(TlsMode::LetsEncrypt), "letsencrypt");
    assert_eq!(tls_bind_str(TlsBind::All), "all");
    assert_eq!(parse_tls_bind("loopback"), TlsBind::Loopback);
    assert_eq!(parse_tls_bind("all"), TlsBind::All);
    assert_eq!(parse_tls_bind("anything"), TlsBind::Lan);
    assert_eq!(tls_bind_ip(TlsBind::Lan, " 192.168.0.9 "), "192.168.0.9");
    assert_eq!(tls_bind_ip(TlsBind::Lan, ""), "0.0.0.0");
    assert_eq!(tls_bind_ip(TlsBind::Loopback, "192.168.0.9"), "127.0.0.1");
    assert_eq!(renew_action(TlsMode::Custom), RenewAction::WarnCustom);
}

#[test]
fn url_and_status() {
    assert_eq!(tls_url(TlsStatus::Listening, "8443", " mcp.ex.com ", TlsMode::LetsEncrypt, true, "10.0.0.5"), "https://mcp.ex.com:8443/mcp");
    assert_eq!(tls_url(TlsStatus::Listening, "8443", "mcp.ex.com", TlsMode::SelfSigned, true, "10.0.0.5"), "https://10.0.0.5:8443/mcp");
    assert_eq!(tls_url(TlsStatus::Stopped, " 8443 ", "", TlsMode::SelfSigned, true, "10.0.0.5"), "https://127.0.0.1:8443/mcp");
    assert_eq!(tls_status_of(true, true), TlsStatus::Listening);
    assert_eq!(tls_status_of(true, false), TlsStatus::ListeningNoMcp);
    assert_eq!(tls_status_of(false, true), TlsStatus::Error);
}

#[test]
fn probe_plans() {
    let p = probe_plan("0.0.0.0", "", "192.168.0.101");
    assert_eq!(p.sni, "localhost");
    assert_eq!(p.local_target, "127.0.0.1");
    assert_eq!(p.lan_target, Some("192.168.0.101".to_string()));
    let p = probe_plan("192.168.0.101", " meu.dominio.com ", "192.168.0.101");
    assert_eq!(p.sni, "meu.dominio.com");
    assert_eq!(p.local_target, "192.168.0.101");
    assert_eq!(p.lan_target, None);
    assert!(lan_ok(Some((true, true)), false, false, "0.0.0.0"));
    assert!(!lan_ok(Some((true, false)), true, true, "0.0.0.0"));
    assert!(lan_ok(None, true, true, "192.168.0.101"));
    assert!(!lan_ok(None, true, true, "127.0.0.1"));
}

#[test]
fn port_fields() {
    assert_eq!(tls_ports(" 8443 ", "8000"), Ok((8443, 8000)));
    assert_eq!(tls_ports("8443", "junk"), Ok((8443, 8000)));
    assert_eq!(tls_ports("8000", ""), Err(TlsPortError::SameAsHttp));
    assert_eq!(tls_ports("99999", "8000"), Err(TlsPortError::InvalidPort));
    assert_eq!(TlsPortError::InvalidPort.message(Language::English), "Invalid HTTPS port.");
}

#[test]
fn dates_and_days() {
    let t = DateTimeParts { unix: 0, nanos: 0, year: 2026, month: 3, day: 7, hour: 9, minute: 5 };
    assert_eq!(fmt_dt(&t), "2026-03-07 09:05 UTC");
    let t = DateTimeParts { unix: 0, nanos: 0, year: 12, month: 12, day: 31, hour: 23, minute: 59 };
    assert_eq!(fmt_dt(&t), "0012-12-31 23:59 UTC");
    let t = DateTimeParts { unix: 0, nanos: 0, year: -5, month: 1, day: 1, hour: 0, minute: 0 };
    assert_eq!(fmt_dt(&t), format!("{:04}-01-01 00:00 UTC", -5));
    assert_eq!(days_left(&at(86_400 * 10 + 5), &at(0)), 10);
    assert_eq!(days_left(&at(0), &at(86_400 * 2 - 1)), -1);
    assert_eq!(days_left(&at(0), &at(86_399)), 0);
}

#[test]
fn addresses_display_as_std_does() {
    let cases: Vec<([u8; 16], &str)> = vec![
        ([0; 16], "::"),
        ([0, 0, 0, 0, 0, 0, 0, 0, 0, 0, 0, 0, 0, 0, 0, 1], "::1"),
        ([0x20, 0x01, 0x0d, 0xb8, 0, 0, 0, 0, 0, 1, 0, 0, 0, 0, 0, 1], "2001:db8::1:0:0:1"),
        ([0x20, 0x01, 0x0d, 0xb8, 0, 1, 0, 0, 0, 1, 0, 1, 0, 1, 0, 1], "2001:db8:1:0:1:1:1:1"),
        ([0, 0, 0, 0, 0, 0, 0, 0, 0, 0, 0xff, 0xff, 192, 168, 0, 1], "::ffff:192.168.0.1"),
        ([0xfe, 0x80, 0, 0, 0, 0, 0, 0, 0x12, 0x34, 0, 0, 0, 0, 0xab, 0xcd], "fe80::1234:0:0:abcd"),
        ([0x20, 0x01, 0, 0, 0, 0, 0, 1, 0, 0, 0, 0, 0, 0, 0, 2], "2001:0:0:1::2"),
    ];
    for (c, want) in cases {
        assert_eq!(san_string(&SanName::Ip(c.to_vec())), Some(want.to_string()));
    }
    assert_eq!(san_string(&SanName::Ip(vec![10, 0, 0, 5])), Some("10.0.0.5".to_string()));
    assert_eq!(san_string(&SanName::Ip(vec![1, 2, 3])), None);
    assert_eq!(san_string(&SanName::Dns("a.b".to_string())), Some("a.b".to_string()));
    assert_eq!(san_string(&SanName::Other), None);
}

#[test]
fn fingerprint_is_sha256_upper_hex() {
    let f = fingerprint(b"abc");
    assert_eq!(
        f,
        "BA:78:16:BF:8F:01:CF:EA:41:41:40:DE:5D:AE:22:23:B0:03:61:A3:96:17:7A:9C:B4:10:FF:61:F2:00:15:AD"
    );
}

#[test]
fn generated_certificate_is_inspected() {
    let ck = rcgen::generate_simple_self_signed(vec!["localhost".to_string(), "192.168.0.101".to_string()]).unwrap();
    let pem = ck.cert.pem();
    let der = ck.cert.der().to_vec();
    let now = at(1_700_000_000);
    let info = inspect_cert_pem(pem.as_bytes(), &now).unwrap();
    assert!(info.self_signed);
    assert_eq!(info.subject, info.issuer);
    assert_eq!(info.sans, vec!["localhost".to_string(), "192.168.0.101".to_string()]);
    assert!(info.days_left > 365);
    assert!(!info.expired());
    assert!(!info.needs_renewal());
    assert_eq!(info.sha256_fingerprint, fingerprint(&der));
    let again = inspect_cert_der(&der, &now).unwrap();
    assert_eq!(again.not_after, info.not_after);
    assert!(inspect_cert_pem_now(pem.as_bytes()).is_some());
    assert!(inspect_cert_pem(b"not a pem", &now).is_none());
    assert!(inspect_cert_der(b"\x30\x03\x02\x01\x00", &now).is_none());
}

#[test]
fn self_signed_reuse_rule() {
    let have = vec!["localhost".to_string(), "127.0.0.1".to_string(), "MyHost".to_string()];
    assert!(self_signed_reusable(&have, false, &vec!["myhost".to_string(), "LOCALHOST".to_string()]));
    assert!(!self_signed_reusable(&have, true, &vec!["localhost".to_string()]));
    assert!(!self_signed_reusable(&have, false, &vec!["10.0.0.5".to_string()]));
    assert!(self_signed_reusable(&have, false, &vec![]));
}

#[test]
fn default_names_are_sorted_and_unique() {
    let s = default_sans(" 10.0.0.5 ", true, Some("DESKTOP-X"), " Meu.Dominio.com ");
    assert_eq!(s, vec!["10.0.0.5", "127.0.0.1", "desktop-x", "localhost", "meu.dominio.com"]);
    let s = default_sans("127.0.0.1", true, Some("has space"), "localhost");
    assert_eq!(s, vec!["127.0.0.1", "localhost"]);
    let s = default_sans("not-an-ip", false, None, "");
    assert_eq!(s, vec!["127.0.0.1", "localhost"]);
}

#[test]
fn probe_request_and_reading() {
    let r = probe_request("localhost", "tok");
    assert!(r.starts_with("POST /mcp HTTP/1.1\r\nHost: localhost\r\n"));
    assert!(r.contains("Authorization: Bearer tok\r\n"));
    assert!(r.contains(&format!("Content-Length: {}\r\n", PROBE_BODY.len())));
    assert!(r.ends_with(PROBE_BODY));
    assert!(!probe_request("localhost", "").contains("Authorization"));
    let (status, jsonrpc, first) = read_probe_response("HTTP/1.1 200 OK\r\nContent-Type: application/json\r\n\r\n{\"jsonrpc\":\"2.0\"}");
    assert_eq!((status, jsonrpc, first.as_str()), (200, true, "HTTP/1.1 200 OK"));
    let (status, jsonrpc, _) = read_probe_response("HTTP/1.1 401 Unauthorized\r\n\r\n");
    assert_eq!((status, jsonrpc), (401, false));
    assert_eq!(read_probe_response(""), (0, false, String::new()));
    let p = HttpsProbe::failed("refused".to_string());
    assert!(!p.tls_ok && p.http_status == 0 && p.cert.is_none());
}

#[test]
fn http01_challenge_answers() {
    let ch = vec![("tok1".to_string(), "tok1.keyauth".to_string())];
    assert_eq!(
        http01_response("GET /.well-known/acme-challenge/tok1 HTTP/1.1\r\nHost: x\r\n\r\n", &ch),
        "HTTP/1.1 200 OK\r\nContent-Type: application/octet-stream\r\nContent-Length: 12\r\nConnection: close\r\n\r\ntok1.keyauth"
    );
    assert_eq!(
        http01_response("GET /.well-known/acme-challenge/other HTTP/1.1\r\n\r\n", &ch),
        "HTTP/1.1 404 Not Found\r\nContent-Length: 0\r\nConnection: close\r\n\r\n"
    );
    assert!(http01_response("", &ch).starts_with("HTTP/1.1 404"));
}

#[test]
fn acme_inputs() {
    assert_eq!(acme_domain("  MCP.Example.COM "), "mcp.example.com");
    assert_eq!(domain_check("mcp.example.com", false), None);
    assert_eq!(domain_check("", false), Some(DomainError::Invalid));
    assert_eq!(domain_check("a b", false), Some(DomainError::Invalid));
    assert_eq!(domain_check("a/b", false), Some(DomainError::Invalid));
    assert_eq!(domain_check("10.0.0.5", true), Some(DomainError::IpAddress));
    assert_eq!(acme_contacts(" me@x.com "), vec!["mailto:me@x.com".to_string()]);
    assert!(acme_contacts("  ").is_empty());
}

#[test]
fn https_settings_are_saved_and_read_back() {
    let d = TlsSettings::default();
    assert!(!d.enabled);
    assert_eq!(d.port, "8443");
    assert_eq!(d.bind, TlsBind::Lan);
    assert_eq!(d.mode, TlsMode::SelfSigned);
    let t = TlsSettings {
        enabled: true,
        port: " 9443 ".to_string(),
        bind: TlsBind::All,
        mode: TlsMode::LetsEncrypt,
        domain: " mcp.example.com ".to_string(),
        email: "me@example.com".to_string(),
        staging: true,
        custom_cert: String::new(),
        custom_key: String::new(),
    };
    let pairs = tls_cfg_pairs(&t);
    assert_eq!(pairs.len(), 9);
    assert_eq!(pairs[1], ("tlscfg:port".to_string(), "9443".to_string()));
    let mut back = TlsSettings::default();
    for (k, v) in &pairs {
        apply_tls_setting(&mut back, k.strip_prefix("tlscfg:").unwrap(), v);
    }
    assert!(back.enabled);
    assert_eq!(back.port, "9443");
    assert_eq!(back.bind, TlsBind::All);
    assert_eq!(back.mode, TlsMode::LetsEncrypt);
    assert_eq!(back.domain, "mcp.example.com");
    assert!(back.staging);
    apply_tls_setting(&mut back, "port", "notaport");
    assert_eq!(back.port, "9443");
    assert_eq!(parse_tls_mode("custom"), TlsMode::Custom);
    assert_eq!(parse_tls_mode("other"), TlsMode::SelfSigned);
}
