use fzcomputerai::crypto::b64url_sha256;
use fzcomputerai::form::url_encode;
use fzcomputerai::http::HttpReq;
use fzcomputerai::oauth::{OAuthServer, Refusal, ACCESS_TTL_SECS};

const ISSUER: &str = "https://mcp.example.com:8443";
const CB: &str = "https://mcp-client.example/api/mcp/auth_callback";
const VERIFIER: &str = "dBjftJeZ4CVP-mB92K27uhbUJU1p1r_wW1gFWFOEjXk";

fn post(srv: &mut OAuthServer, path: &str, body: &str, now: u64, a: &str, b: &str) -> (u16, String, Vec<(String, String)>) {
    let hdrs: Vec<(String, String)> = vec![];
    let h = srv
        .handle_at(&HttpReq { method: "POST", path, headers: &hdrs, body: body.as_bytes() }, ISSUER, now, a.to_string(), b.to_string())
        .unwrap();
    (h.response.status, String::from_utf8(h.response.body).unwrap(), h.response.extra_headers)
}

fn registered(now: u64) -> OAuthServer {
    let mut srv = OAuthServer::new();
    srv.set_password("pw");
    let (status, _, _) = post(&mut srv, "/register", &format!("{{\"redirect_uris\":[\"{CB}\"]}}"), now, "client-1", "unused");
    assert_eq!(status, 201);
    srv
}

fn consent_form(password: &str) -> String {
    format!(
        "client_id=client-1&redirect_uri={}&state=s&code_challenge={}&password={}",
        url_encode(CB),
        b64url_sha256(VERIFIER),
        password
    )
}

#[test]
fn deterministic_issue_with_fixed_clock() {
    let now = 1_700_000_000;
    let mut srv = registered(now);
    let (status, _, hdrs) = post(&mut srv, "/authorize", &consent_form("pw"), now, "code-1", "unused");
    assert_eq!(status, 302);
    assert_eq!(hdrs.iter().find(|(k, _)| k == "Location").unwrap().1, format!("{CB}?code=code-1&state=s"));
    let form = format!("grant_type=authorization_code&code=code-1&client_id=client-1&code_verifier={VERIFIER}");
    let (status, body, _) = post(&mut srv, "/token", &form, now, "access-1", "refresh-1");
    assert_eq!(status, 200);
    let tok: serde_json::Value = serde_json::from_str(&body).unwrap();
    assert_eq!(tok["access_token"], "access-1");
    assert_eq!(tok["refresh_token"], "refresh-1");
    assert_eq!(tok["expires_in"], ACCESS_TTL_SECS);
    assert!(srv.validate_access_at("access-1", now));
    assert!(srv.validate_access_at("access-1", now + ACCESS_TTL_SECS - 1));
    assert!(!srv.validate_access_at("access-1", now + ACCESS_TTL_SECS));
    assert_eq!(srv.tokens_count_at(now), 1);
    // a code is used once
    let (status, body, _) = post(&mut srv, "/token", &form, now, "access-2", "refresh-2");
    assert_eq!(status, 400);
    assert!(body.contains("invalid_grant"));
    assert!(!srv.validate_access_at("access-2", now));
}

#[test]
fn wrong_password_issues_nothing() {
    let now = 1_700_000_000;
    let mut srv = registered(now);
    let hdrs: Vec<(String, String)> = vec![];
    let form = consent_form("nope");
    let h = srv
        .handle_at(&HttpReq { method: "POST", path: "/authorize", headers: &hdrs, body: form.as_bytes() }, ISSUER, now, "code-1".to_string(), "x".to_string())
        .unwrap();
    assert!(h.wrong_password);
    assert!(!h.save);
    let form = format!("grant_type=authorization_code&code=code-1&client_id=client-1&code_verifier={VERIFIER}");
    let (status, _, _) = post(&mut srv, "/token", &form, now, "access-1", "refresh-1");
    assert_eq!(status, 400);
}

#[test]
fn refresh_rotates_and_collection_keeps_live_tokens() {
    let now = 1_700_000_000;
    let mut srv = registered(now);
    post(&mut srv, "/authorize", &consent_form("pw"), now, "code-1", "unused");
    let form = format!("grant_type=authorization_code&code=code-1&client_id=client-1&code_verifier={VERIFIER}");
    post(&mut srv, "/token", &form, now, "access-1", "refresh-1");
    let later = now + 10;
    let (status, _, _) = post(&mut srv, "/token", "grant_type=refresh_token&refresh_token=refresh-1&client_id=client-1", later, "access-2", "refresh-2");
    assert_eq!(status, 200);
    let (status, _, _) = post(&mut srv, "/token", "grant_type=refresh_token&refresh_token=refresh-1&client_id=client-1", later, "access-3", "refresh-3");
    assert_eq!(status, 400);
    srv.gc(now + ACCESS_TTL_SECS + 5);
    assert!(!srv.validate_access_at("access-1", now));
    assert!(srv.validate_access_at("access-2", now + ACCESS_TTL_SECS + 5));
    srv.revoke_all();
    assert!(!srv.validate_access_at("access-2", later));
    assert_eq!(srv.clients_count(), 0);
    assert!(srv.has_password());
}

#[test]
fn refused_requests() {
    let mut srv = OAuthServer::new();
    let hdrs: Vec<(String, String)> = vec![];
    // a percent escape that ends inside a character
    let r = srv.handle(&HttpReq { method: "POST", path: "/token", headers: &hdrs, body: "code=%a\u{e9}".as_bytes() }, ISSUER);
    assert!(matches!(r, Err(Refusal::Undecodable)));
    let r = srv.handle(&HttpReq { method: "POST", path: "/token", headers: &hdrs, body: b"code=%C3" }, ISSUER).unwrap().unwrap();
    assert_eq!(r.response.status, 400);
    // an unknown client gets no consent page
    let (status, body, _) = {
        let h = srv
            .handle_at(&HttpReq { method: "GET", path: "/authorize?client_id=x", headers: &hdrs, body: b"" }, ISSUER, 1, "a".to_string(), "b".to_string())
            .unwrap();
        (h.response.status, String::from_utf8(h.response.body).unwrap(), ())
    };
    assert_eq!(status, 400);
    assert!(!body.is_empty());
    // a known client, but no password is set yet
    let mut srv2 = OAuthServer::new();
    let (status, _, _) = post(&mut srv2, "/register", &format!("{{\"redirect_uris\":[\"{CB}\"]}}"), 1, "client-1", "unused");
    assert_eq!(status, 201);
    let path = format!("/authorize?response_type=code&client_id=client-1&redirect_uri={}&code_challenge=abc&code_challenge_method=S256", url_encode(CB));
    let h = srv2
        .handle_at(&HttpReq { method: "GET", path: &path, headers: &hdrs, body: b"" }, ISSUER, 1, "a".to_string(), "b".to_string())
        .unwrap();
    assert_eq!(h.response.status, 503);
    assert!(OAuthServer::www_authenticate(ISSUER).contains("https://mcp.example.com:8443/.well-known/oauth-protected-resource"));
    // a body that is not UTF-8 is read with replacement characters
    let h = srv
        .handle_at(&HttpReq { method: "POST", path: "/authorize", headers: &hdrs, body: b"client_id=x\xff&state=s" }, ISSUER, 1, "a".to_string(), "b".to_string())
        .unwrap();
    assert_eq!(h.response.status, 400);
    assert!(String::from_utf8(h.response.body).unwrap().contains("Cliente ou redirect_uri inválidos"));
    // an unknown path is left to the caller
    assert!(srv
        .handle_at(&HttpReq { method: "GET", path: "/mcp", headers: &hdrs, body: b"" }, ISSUER, 1, "a".to_string(), "b".to_string())
        .is_none());
}

#[test]
fn metadata_document_clients() {
    let mut srv = OAuthServer::new();
    let hdrs: Vec<(String, String)> = vec![];
    let id = "https://client.example.com/meta.json";
    let path = format!("/authorize?response_type=code&client_id={}&redirect_uri={}&code_challenge=abc&code_challenge_method=S256", url_encode(id), url_encode(CB));
    let req = HttpReq { method: "GET", path: &path, headers: &hdrs, body: b"" };
    assert_eq!(srv.metadata_target(&req), Some(id.to_string()));
    let doc = format!("{{\"client_id\":\"{id}\",\"client_name\":\"Ex\",\"redirect_uris\":[\"{CB}\"]}}");
    assert!(!srv.register_metadata_at(id, 404, &doc, 5));
    assert!(srv.register_metadata_at(id, 200, &doc, 5));
    assert_eq!(srv.clients_count(), 1);
    assert_eq!(srv.metadata_target(&req), None);
}
