use fzcomputerai::tunnel::{
    classify_exposure, extract_public_url, gen_token, mask_gate_url, ngrok_policy_yaml, provider_image, provider_slug,
    read_tunnel_cfg, sanitize_gate_password, tr, tracked_tunnels, tunnel_cfg_pairs, tunnel_command, tunnel_full_url,
    tunnel_mcp_snippet, tunnel_registry_name, tunnel_registry_value, Language, TunnelExposure, TunnelProvider,
    TunnelSettings, TunnelSetupError,
};

fn settings(provider: TunnelProvider) -> TunnelSettings {
    TunnelSettings {
        provider,
        public_url: String::new(),
        cf_bin: String::new(),
        cf_token_file: String::new(),
        ngrok_bin: String::new(),
        ngrok_use_policy: true,
        ngrok_extra: String::new(),
        ssh_bin: String::new(),
        ssh_target: String::new(),
        ssh_remote_port: String::new(),
        ssh_key: String::new(),
        ssh_extra: String::new(),
    }
}

#[test]
fn full_url_with_and_without_gate() {
    assert_eq!(tunnel_full_url("https://abc.trycloudflare.com/", ""), "https://abc.trycloudflare.com/mcp");
    assert_eq!(tunnel_full_url("  https://abc.trycloudflare.com//  ", " pw1 "), "https://abc.trycloudflare.com/s/pw1/mcp");
    assert_eq!(tunnel_full_url("   ", "pw"), "");
}

#[test]
fn snippet_carries_token_only_when_set() {
    let s = tunnel_mcp_snippet("https://x.ngrok.app", "", "");
    assert_eq!(
        s,
        "{\n  \"mcpServers\": {\n    \"fzcomputerai\": {\n      \"type\": \"http\",\n      \"url\": \"https://x.ngrok.app/mcp\"\n    }\n  }\n}"
    );
    let s = tunnel_mcp_snippet("https://x.ngrok.app", "g", " tok ");
    assert!(s.contains("\"url\": \"https://x.ngrok.app/s/g/mcp\""));
    assert!(s.contains("\"Authorization\": \"Bearer tok\""));
    let v: serde_json::Value = serde_json::from_str(&s).unwrap();
    assert_eq!(v["mcpServers"]["fzcomputerai"]["headers"]["Authorization"], "Bearer tok");
}

#[test]
fn gate_password_is_sanitized() {
    assert_eq!(sanitize_gate_password("  a b/c?d-E.F_g~9é "), "abcd-E.F_g~9");
    assert_eq!(sanitize_gate_password("Abc-123"), "Abc-123");
}

#[test]
fn gate_password_is_masked() {
    assert_eq!(
        mask_gate_url("GET https://h/s/pw/mcp and /s/pw/x", " pw "),
        "GET https://h/s/***/mcp and /s/***/x"
    );
    assert_eq!(mask_gate_url("https://h/s/pw/mcp", ""), "https://h/s/pw/mcp");
}

#[test]
fn exposure_is_classified() {
    assert_eq!(classify_exposure("{\"jsonrpc\":\"2.0\"}\nHTTP_CODE=200"), TunnelExposure::Exposed);
    assert_eq!(classify_exposure("denied\nHTTP_CODE=401"), TunnelExposure::EdgeAuth(401));
    assert_eq!(classify_exposure("HTTP_CODE=200\nHTTP_CODE= 407 \n"), TunnelExposure::EdgeAuth(407));
    assert_eq!(classify_exposure("oops\nHTTP_CODE=502"), TunnelExposure::Unknown);
    assert_eq!(classify_exposure("no code at all"), TunnelExposure::Unknown);
}

#[test]
fn public_url_is_the_last_match() {
    let log = "INF | https://first-one.trycloudflare.com | x\nINF https://second.trycloudflare.com/ ok\nhttps://trycloudflare.com";
    assert_eq!(extract_public_url(log, TunnelProvider::Cloudflare), Some("https://second.trycloudflare.com".to_string()));
    assert_eq!(extract_public_url(log, TunnelProvider::Ngrok), None);
    let api = r#"{"tunnels":[{"public_url":"https://ab-12.ngrok-free.app","proto":"https"}]}"#;
    assert_eq!(extract_public_url(api, TunnelProvider::Ngrok), Some("https://ab-12.ngrok-free.app".to_string()));
    assert_eq!(
        extract_public_url("Forwarding HTTP traffic from https://xyz.serveousercontent.com", TunnelProvider::Ssh),
        Some("https://xyz.serveousercontent.com".to_string())
    );
}

#[test]
fn token_follows_xorshift() {
    assert_eq!(gen_token(8, 1), "3ntBTFpB");
    assert_eq!(gen_token(4, 0), "NuQ0");
    assert_eq!(gen_token(0, 7), "");
    assert_eq!(gen_token(32, 99).len(), 32);
}

#[test]
fn provider_names() {
    assert_eq!(provider_slug(TunnelProvider::Ngrok), "ngrok");
    assert_eq!(provider_image(TunnelProvider::Cloudflare), "cloudflared.exe");
    assert_eq!(tunnel_registry_name(TunnelProvider::Ssh, 4321), "tunnel:ssh:4321");
    assert_eq!(
        tunnel_registry_value(TunnelProvider::Ngrok, "20240101", 8443, "run1", true),
        "ngrok.exe|20240101|8443|run1|gated"
    );
    assert_eq!(tr(Language::English, "sim", "yes"), "yes");
    assert_eq!(tr(Language::PtBr, "sim", "yes"), "sim");
}

#[test]
fn ngrok_policy_has_basic_auth() {
    let y = ngrok_policy_yaml("s3cr3t");
    assert!(y.starts_with("on_http_request:\n"));
    assert!(y.ends_with("- \"fz:s3cr3t\"\n"));
}

#[test]
fn tunnel_commands() {
    let mut t = settings(TunnelProvider::Cloudflare);
    assert_eq!(tunnel_command(&t, 8000, "log.txt", None).unwrap_err(), TunnelSetupError::CloudflaredMissing);
    t.cf_bin = "C:\\cf.exe".to_string();
    let (bin, args) = tunnel_command(&t, 8000, "log.txt", None).unwrap();
    assert_eq!(bin, "C:\\cf.exe");
    assert_eq!(
        args,
        vec!["--no-autoupdate", "--loglevel", "info", "--logfile", "log.txt", "tunnel", "--url", "http://127.0.0.1:8000"]
    );
    t.cf_token_file = " tok.txt ".to_string();
    let (_, args) = tunnel_command(&t, 8000, "log.txt", None).unwrap();
    assert_eq!(args, vec!["--no-autoupdate", "--logfile", "log.txt", "tunnel", "run", "--token-file", " tok.txt "]);

    let mut t = settings(TunnelProvider::Ngrok);
    assert_eq!(tunnel_command(&t, 1, "l", None).unwrap_err(), TunnelSetupError::NgrokMissing);
    t.ngrok_bin = "ngrok.exe".to_string();
    t.ngrok_extra = " --region  sa ".to_string();
    let (_, args) = tunnel_command(&t, 8001, "l", Some("p.yml")).unwrap();
    assert_eq!(
        args,
        vec![
            "http", "127.0.0.1:8001", "--log", "l", "--log-format", "logfmt", "--log-level", "info",
            "--traffic-policy-file", "p.yml", "--region", "sa"
        ]
    );

    let mut t = settings(TunnelProvider::Ssh);
    assert_eq!(tunnel_command(&t, 1, "l", None).unwrap_err(), TunnelSetupError::SshMissing);
    t.ssh_bin = "ssh.exe".to_string();
    assert_eq!(tunnel_command(&t, 1, "l", None).unwrap_err(), TunnelSetupError::SshTargetMissing);
    t.ssh_target = " nokey@localhost.run ".to_string();
    let (_, args) = tunnel_command(&t, 8000, "l", None).unwrap();
    assert_eq!(args[args.len() - 3..], ["-R".to_string(), "80:127.0.0.1:8000".to_string(), "nokey@localhost.run".to_string()]);
    t.ssh_key = "k".to_string();
    t.ssh_remote_port = "8080".to_string();
    let (_, args) = tunnel_command(&t, 8000, "l", None).unwrap();
    assert!(args.contains(&"-i".to_string()));
    assert!(args.contains(&"8080:127.0.0.1:8000".to_string()));
    assert!(!TunnelSetupError::SshTargetMissing.message(Language::English).is_empty());
}

#[test]
fn saved_settings_read_back() {
    let mut t = settings(TunnelProvider::Cloudflare);
    t.provider = TunnelProvider::Ssh;
    t.ssh_target = "me@host".to_string();
    t.ssh_remote_port = "2222".to_string();
    t.ngrok_use_policy = false;
    t.public_url = "https://mcp.example.com".to_string();
    let pairs = tunnel_cfg_pairs(&t);
    assert_eq!(pairs.len(), 9);
    assert_eq!(pairs[0], ("tunnelcfg:provider".to_string(), "ssh".to_string()));
    let mut text = String::from("\r\nHKEY_CURRENT_USER\\Software\\FzComputerAI\r\n");
    for (k, v) in &pairs {
        text.push_str(&format!("    {}    REG_SZ    {}\r\n", k, v));
    }
    let mut back = settings(TunnelProvider::Cloudflare);
    read_tunnel_cfg(&mut back, &text);
    assert_eq!(back.provider, TunnelProvider::Ssh);
    assert_eq!(back.ssh_target, "me@host");
    assert_eq!(back.ssh_remote_port, "2222");
    assert!(!back.ngrok_use_policy);
    assert_eq!(back.public_url, "https://mcp.example.com");
}

#[test]
fn tunnels_left_in_registry() {
    let text = "\r\nHKEY_CURRENT_USER\\Software\\FzComputerAI\r\n    tunnel:ngrok:1234    REG_SZ    ngrok.exe|20240101|8000|abc|gated\r\n    other    REG_SZ    x\r\n";
    let v = tracked_tunnels(text);
    assert_eq!(v.len(), 1);
    assert_eq!(v[0].name, "tunnel:ngrok:1234");
    assert_eq!(v[0].pid, 1234);
    assert_eq!(v[0].image, "ngrok.exe");
    assert_eq!(v[0].creation, "20240101");
    assert_eq!(v[0].run_id, "abc");
}

#[test]
fn tunnel_defaults() {
    let d = TunnelSettings::default();
    assert_eq!(d.provider, TunnelProvider::Cloudflare);
    assert_eq!(d.ssh_target, "nokey@localhost.run");
    assert_eq!(d.ssh_remote_port, "80");
    assert!(!d.ngrok_use_policy);
}
