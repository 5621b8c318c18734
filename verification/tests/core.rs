use fzcomputerai::crypto::{b64url_nopad, b64url_sha256, random_hex_token, random_password, random_token, sha256_hex, to_hex_lower};
use fzcomputerai::form::{form_get, form_is_safe, parse_form, url_decode, url_encode};
use fzcomputerai::html::{html_escape, page};
use fzcomputerai::http::{header, html_resp, redirect_resp, HttpResp};
use fzcomputerai::endpoints::error_resp;
use fzcomputerai::update::driver_info;
use fzcomputerai::text::tail_str;
use fzcomputerai::tls::acme_domain;
use fzcomputerai::tray::{fill_tip, menu_command, tray_reaction, wide, TrayReaction, TRAY_QUIT, TRAY_SHOW, TRAY_TOGGLE_ENGINE};
use fzcomputerai::ui::{Tab, WindowItem};

#[test]
fn sha256_and_base64url() {
    assert_eq!(sha256_hex(b"abc"), "ba7816bf8f01cfea414140de5dae2223b00361a396177a9cb410ff61f20015ad");
    assert_eq!(sha256_hex(b"").len(), 64);
    assert_eq!(to_hex_lower(&[0x00, 0xab, 0x10]), "00ab10");
    assert_eq!(b64url_nopad(b""), "");
    assert_eq!(b64url_nopad(b"f"), "Zg");
    assert_eq!(b64url_nopad(b"fo"), "Zm8");
    assert_eq!(b64url_nopad(b"foo"), "Zm9v");
    assert_eq!(b64url_nopad(&[0xfb, 0xff]), "-_8");
    // RFC 7636, appendix B
    assert_eq!(b64url_sha256("dBjftJeZ4CVP-mB92K27uhbUJU1p1r_wW1gFWFOEjXk"), "E9Melhoa2OwvFrEMTJguCHaoeK1t8URWbuGJSstw-cM");
}

#[test]
fn random_secrets_have_their_shape() {
    let h = random_hex_token();
    assert_eq!(h.len(), 64);
    assert!(h.chars().all(|c| c.is_ascii_hexdigit() && !c.is_ascii_uppercase()));
    assert_ne!(h, random_hex_token());
    let a = random_token();
    let b = random_token();
    assert_eq!(a.len(), 43);
    assert_ne!(a, b);
    assert!(a.chars().all(|c| c.is_ascii_alphanumeric() || c == '-' || c == '_'));
    let p = random_password();
    assert!(!p.is_empty());
}

#[test]
fn url_encoding_round_trip() {
    assert_eq!(url_encode("a b&c=d/é~"), "a%20b%26c%3Dd%2F%C3%A9~");
    assert_eq!(url_decode("a+b%20c%3d%C3%A9"), "a b c=é");
    assert_eq!(url_decode("100%"), "100%");
    assert_eq!(url_decode("%zz"), "%zz");
    for s in ["", "plain", "x y+z", "ação & reação", "https://mcp-client.example/api/mcp/auth_callback?a=1"] {
        assert_eq!(url_decode(&url_encode(s)), s);
    }
}

#[test]
fn forms_are_parsed() {
    let f = parse_form("a=1&b=x+y&&c&a=2&d=%26");
    assert_eq!(form_get(&f, "a"), "2");
    assert_eq!(form_get(&f, "b"), "x y");
    assert_eq!(form_get(&f, "c"), "");
    assert_eq!(form_get(&f, "d"), "&");
    assert_eq!(form_get(&f, "missing"), "");
    assert!(form_is_safe("a=%C3%A9"));
    assert!(form_is_safe("a=%C3"));
    assert!(!form_is_safe("a=%a\u{e9}"));
}

#[test]
fn html_is_escaped() {
    assert_eq!(html_escape("<a href=\"x\">'&'</a>"), "&lt;a href=&quot;x&quot;&gt;&#39;&amp;&#39;&lt;/a&gt;");
    let p = page("<T>", "<p>b</p>");
    assert!(p.contains("<title>&lt;T&gt; — FzComputerAI</title>"));
    assert!(p.contains("<h1>&lt;T&gt;</h1><p>b</p>"));
}

#[test]
fn responses_are_serialized() {
    let r = redirect_resp("https://x/cb?code=1".to_string());
    assert_eq!(r.status, 302);
    let bytes = r.serialize();
    let text = String::from_utf8(bytes).unwrap();
    assert!(text.starts_with("HTTP/1.1 302 Found\r\n"));
    assert!(text.contains("\r\nLocation: https://x/cb?code=1\r\n"));
    assert!(text.ends_with("\r\n\r\n"));
    let r = html_resp(200, "<p>é</p>".to_string());
    let text = String::from_utf8(r.serialize()).unwrap();
    assert!(text.contains("Content-Length: 9\r\n"));
    assert!(text.ends_with("\r\n\r\n<p>é</p>"));
    let r = HttpResp { status: 404, content_type: "text/plain", extra_headers: vec![], body: b"x".to_vec() };
    assert!(String::from_utf8(r.serialize()).unwrap().starts_with("HTTP/1.1 404 Not Found\r\n"));
    let h = vec![("Content-Type".to_string(), "a".to_string()), ("authorization".to_string(), "Bearer t".to_string())];
    assert_eq!(header(&h, "Authorization"), Some("Bearer t"));
    assert_eq!(header(&h, "X"), None);
}

#[test]
fn json_is_read_and_written() {
    // written: an error document
    let r = error_resp(400, "invalid_grant", "c\u{f3}digo \"usado\"");
    let v: serde_json::Value = serde_json::from_slice(&r.body).unwrap();
    let want: serde_json::Value =
        serde_json::from_str(r#"{"error":"invalid_grant","error_description":"c\u00f3digo \"usado\""}"#).unwrap();
    assert_eq!(v, want);
    // read: a report whose fields are found by name
    let d = driver_info(r#"{"latest_version":"1.2.3","current_version":"1.0.0","update_available":false}"#).unwrap();
    assert_eq!(d.latest_version, "1.2.3");
    assert!(driver_info("{").is_none());
    assert!(driver_info("\"just a string\"").is_some());
}

#[test]
fn text_helpers() {
    assert_eq!(acme_domain(" ÁBC.Example "), "ábc.example");
    assert_eq!(tail_str("abcdef", 10), "abcdef");
    assert_eq!(tail_str("abcdef", 3), "...def");
    assert_eq!(tail_str("ééé", 3), "...é");
}

#[test]
fn tray_helpers() {
    assert_eq!(wide("Fz"), vec![70, 122, 0]);
    assert_eq!(wide("𝄞"), vec![0xD834, 0xDD1E, 0]);
    let mut tip = [7u16; 128];
    fill_tip(&mut tip, "ab");
    assert_eq!(&tip[..4], &[97, 98, 0, 7]);
    let long = "x".repeat(200);
    let mut tip = [7u16; 128];
    fill_tip(&mut tip, &long);
    assert_eq!(tip[126], 120);
    assert_eq!(tip[127], 0);
    assert_eq!(tray_reaction(0x0202), TrayReaction::Show);
    assert_eq!(tray_reaction(0x10203), TrayReaction::Show);
    assert_eq!(tray_reaction(0x0205), TrayReaction::Menu);
    assert_eq!(tray_reaction(0x0200), TrayReaction::Ignore);
    assert_eq!(menu_command(1001), Some(TRAY_SHOW));
    assert_eq!(menu_command(1002), Some(TRAY_TOGGLE_ENGINE));
    assert_eq!(menu_command(0x1_0000 + 1003), Some(TRAY_QUIT));
    assert_eq!(menu_command(5), None);
}

#[test]
fn interface_types() {
    assert_ne!(Tab::Network, Tab::Tunnel);
    let w = WindowItem { pid: 1, window_id: 2, title: "t".to_string(), app_name: None, minimized: Some(false) };
    assert_eq!(w.title, "t");
}
