use fzcomputerai::gate::{find_subsequence, gate_decide, GateDecision, NOT_FOUND_RESPONSE};
use fzcomputerai::network::{
    command_words, elevated_netsh, forward_target, portproxy_add_command, portproxy_delete_command,
    portproxy_value_name, ForwardError, is_loopback_ip, mcp_answer, mcp_request, netstat_scan, padded, parse_port, port_candidates, port_status_of,
    portproxy_scan, tracked_portproxy_rules, PortStatus,
};

#[test]
fn gate_forwards_with_password() {
    let head = "POST /s/pw/mcp HTTP/1.1\r\nHost: x.trycloudflare.com\r\nConnection: keep-alive\r\nContent-Length: 2\r\n\r\n";
    match gate_decide(head, "pw") {
        GateDecision::Forward(h) => {
            assert_eq!(h, "POST /mcp HTTP/1.1\r\nHost: x.trycloudflare.com\r\nContent-Length: 2\r\nConnection: close\r\n\r\n")
        },
        _ => panic!("expected the head to be forwarded"),
    }
    match gate_decide("GET /s/pw HTTP/1.1\r\n\r\n", "pw") {
        GateDecision::Forward(h) => assert_eq!(h, "GET / HTTP/1.1\r\nConnection: close\r\n\r\n"),
        _ => panic!("expected the head to be forwarded"),
    }
}

#[test]
fn gate_refuses_without_password() {
    assert!(matches!(gate_decide("GET /mcp HTTP/1.1\r\n\r\n", "pw"), GateDecision::NotFound));
    assert!(matches!(gate_decide("GET /s/pwx/mcp HTTP/1.1\r\n\r\n", "pw"), GateDecision::NotFound));
    assert!(matches!(gate_decide("GET /s/p HTTP/1.1\r\n\r\n", "pw"), GateDecision::NotFound));
    assert!(matches!(gate_decide("no line end", "pw"), GateDecision::Drop));
    assert!(NOT_FOUND_RESPONSE.starts_with("HTTP/1.1 404"));
}

#[test]
fn subsequence_is_found() {
    assert_eq!(find_subsequence(b"GET / HTTP/1.1\r\nA: b\r\n\r\nbody", b"\r\n\r\n"), Some(20));
    assert_eq!(find_subsequence(b"abc", b"\r\n\r\n"), None);
    assert_eq!(find_subsequence(b"aab", b"ab"), Some(1));
}

#[test]
fn port_status_verdict() {
    assert_eq!(port_status_of(true, true, true), PortStatus::LanListening);
    assert_eq!(port_status_of(true, true, false), PortStatus::LocalOnly);
    assert_eq!(port_status_of(false, false, false), PortStatus::Stopped);
    assert_eq!(port_status_of(false, true, true), PortStatus::LanListening);
}

#[test]
fn loopback_and_port_fields() {
    assert!(is_loopback_ip("127.0.0.1"));
    assert!(is_loopback_ip("LocalHost"));
    assert!(!is_loopback_ip("192.168.0.10"));
    assert_eq!(parse_port(" 8000 "), Some(8000));
    assert_eq!(parse_port("+80"), Some(80));
    assert_eq!(parse_port("65536"), None);
    assert_eq!(parse_port("80a"), None);
    assert_eq!(parse_port(""), None);
    assert_eq!(padded("ab", 4), "ab  ");
    assert_eq!(padded("abcdef", 4), "abcdef");
}

#[test]
fn netstat_lines_are_scanned() {
    let text = "\r\nActive Connections\r\n\r\n  Proto  Local Address          Foreign Address        State           PID\r\n  TCP    0.0.0.0:135            0.0.0.0:0              LISTENING       1000\r\n  TCP    192.168.0.10:8000      0.0.0.0:0              LISTENING       4242\r\n  TCP    192.168.0.10:139       0.0.0.0:0              LISTENING       4\r\n";
    let (shown, lan) = netstat_scan(text, "192.168.0.10", 8000);
    assert!(lan);
    assert_eq!(shown.len(), 1);
    assert_eq!(
        shown[0],
        format!("TCP  {:<22} {:<22} {:<12} pid {}", "192.168.0.10:8000", "0.0.0.0:0", "LISTENING", "4242")
    );
    let (_, lan) = netstat_scan(text, "192.168.0.10", 9000);
    assert!(!lan);
}

#[test]
fn portproxy_rules_are_listed() {
    let text = "\r\nListen on ipv4:             Connect to ipv4:\r\n\r\nAddress         Port        Address         Port\r\n--------------- ----------  --------------- ----------\r\n192.168.0.10    8000        127.0.0.1       8000\r\n";
    let (rules, present) = portproxy_scan(text, "192.168.0.10", "8000");
    assert_eq!(rules, vec!["192.168.0.10:8000 -> 127.0.0.1:8000".to_string()]);
    assert!(present);
    let (_, present) = portproxy_scan(text, "192.168.0.11", "8000");
    assert!(!present);
}

#[test]
fn tracked_rules_and_port_candidates() {
    let reg = "\r\nHKEY_CURRENT_USER\\Software\\FzComputerAI\r\n    portproxy:192.168.0.10:8000    REG_SZ    x\r\n    CUA_DRIVER_RS_MCP_HTTP_PORT    REG_SZ    8123\r\n";
    assert_eq!(tracked_portproxy_rules(reg), vec![("192.168.0.10".to_string(), "8000".to_string())]);
    assert_eq!(port_candidates(reg, "8123"), vec![8123, 8000]);
    assert_eq!(port_candidates(reg, "9000"), vec![8123, 9000, 8000]);
    assert_eq!(port_candidates("", ""), vec![8000]);
}

#[test]
fn mcp_probe_request_and_answer() {
    let r = mcp_request("127.0.0.1", 8000, " tok ", "1.2.3");
    assert!(r.starts_with("POST /mcp HTTP/1.1\r\nHost: 127.0.0.1:8000\r\n"));
    assert!(r.contains("Authorization: Bearer tok\r\n"));
    let body = r.split("\r\n\r\n").nth(1).unwrap();
    assert!(r.contains(&format!("Content-Length: {}\r\n", body.len())));
    let v: serde_json::Value = serde_json::from_str(body).unwrap();
    assert_eq!(v["params"]["clientInfo"]["version"], "1.2.3");
    let r = mcp_request("10.0.0.1", 8001, "", "1");
    assert!(!r.contains("Authorization"));
    let (ok, _) = mcp_answer("HTTP/1.1 200 OK\r\n\r\n{\"jsonrpc\":\"2.0\",\"result\":{}}");
    assert!(ok);
}

#[test]
fn portproxy_commands() {
    assert_eq!(forward_target(" 192.168.0.10 ", " 8000 "), Ok(("192.168.0.10".to_string(), 8000)));
    assert_eq!(forward_target("LOCALHOST", "8000"), Err(ForwardError::LoopbackAddress));
    assert_eq!(forward_target("192.168.0.10", "80x"), Err(ForwardError::InvalidPort));
    let add = portproxy_add_command("8000", "192.168.0.10", 8123);
    assert_eq!(
        add,
        "interface portproxy add v4tov4 listenport=8000 listenaddress=192.168.0.10 connectport=8123 connectaddress=127.0.0.1"
    );
    assert_eq!(command_words(&add).len(), 8);
    assert_eq!(command_words("a  b"), vec!["a", "", "b"]);
    assert_eq!(
        portproxy_delete_command("8000", "192.168.0.10"),
        "interface portproxy delete v4tov4 listenport=8000 listenaddress=192.168.0.10"
    );
    assert_eq!(
        elevated_netsh("x y"),
        "$p = Start-Process -FilePath netsh -ArgumentList 'x y' -Verb RunAs -Wait -PassThru; exit $p.ExitCode"
    );
    let name = portproxy_value_name("192.168.0.10", "8000");
    assert_eq!(name, "portproxy:192.168.0.10:8000");
    let reg = format!("\r\n    {}    REG_SZ    8123\r\n", name);
    assert_eq!(tracked_portproxy_rules(&reg), vec![("192.168.0.10".to_string(), "8000".to_string())]);
}
