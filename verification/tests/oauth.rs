use fzcomputerai::crypto::b64url_nopad;
use fzcomputerai::form::url_encode;
use fzcomputerai::http::HttpReq;
use fzcomputerai::oauth::{AuthCode, Client, OAuthServer, State, Token};
use fzcomputerai::redirect::redirect_matches;

fn copy_state(st: &State) -> State {
    State {
        password_sha256: st.password_sha256.clone(),
        clients: st
            .clients
            .iter()
            .map(|(k, c)| {
                (
                    k.clone(),
                    Client { client_name: c.client_name.clone(), redirect_uris: c.redirect_uris.clone(), created: c.created },
                )
            })
            .collect(),
        codes: st
            .codes
            .iter()
            .map(|(k, c)| {
                (
                    k.clone(),
                    AuthCode {
                        client_id: c.client_id.clone(),
                        redirect_uri: c.redirect_uri.clone(),
                        code_challenge: c.code_challenge.clone(),
                        expires: c.expires,
                    },
                )
            })
            .collect(),
        access: st.access.iter().map(|(k, t)| (k.clone(), Token { client_id: t.client_id.clone(), expires: t.expires })).collect(),
        refresh: st.refresh.iter().map(|(k, t)| (k.clone(), Token { client_id: t.client_id.clone(), expires: t.expires })).collect(),
    }
}

fn location(h: &fzcomputerai::endpoints::Handled) -> String {
    h.response.extra_headers.iter().find(|(k, _)| k == "Location").unwrap().1.clone()
}

#[test]
fn loopback_redirect_ignores_port() {
    let reg = vec!["http://localhost/callback".to_string(), "http://127.0.0.1/callback".to_string()];
    assert!(redirect_matches(&reg, "http://localhost:3118/callback"));
    assert!(redirect_matches(&reg, "http://127.0.0.1:49152/callback"));
    assert!(!redirect_matches(&reg, "http://localhost:3118/other"));
    assert!(!redirect_matches(&reg, "https://evil.example/callback"));
    let reg2 = vec!["https://mcp-client.example/api/mcp/auth_callback".to_string()];
    assert!(redirect_matches(&reg2, "https://mcp-client.example/api/mcp/auth_callback"));
    assert!(!redirect_matches(&reg2, "https://mcp-client.example:444/api/mcp/auth_callback"));
}

#[test]
fn full_flow_register_authorize_token_refresh() {
    let mut srv = OAuthServer::new();
    srv.set_password("segredo-forte");
    let issuer = "https://mcp.exemplo.com.br:8444";
    let hdrs: Vec<(String, String)> = vec![];

    // metadata
    let r = srv
        .handle(&HttpReq { method: "GET", path: "/.well-known/oauth-authorization-server", headers: &hdrs, body: b"" }, issuer)
        .unwrap()
        .unwrap();
    assert_eq!(r.response.status, 200);
    let meta: serde_json::Value = serde_json::from_slice(&r.response.body).unwrap();
    assert_eq!(meta["token_endpoint"], format!("{issuer}/token"));
    let r = srv
        .handle(&HttpReq { method: "GET", path: "/.well-known/oauth-protected-resource", headers: &hdrs, body: b"" }, issuer)
        .unwrap()
        .unwrap();
    assert_eq!(r.response.status, 200);

    // register
    let r = srv
        .handle(
            &HttpReq {
                method: "POST",
                path: "/register",
                headers: &hdrs,
                body: br#"{"client_name":"Cliente MCP","redirect_uris":["https://mcp-client.example/api/mcp/auth_callback"]}"#,
            },
            issuer,
        )
        .unwrap()
        .unwrap();
    assert_eq!(r.response.status, 201, "{}", String::from_utf8_lossy(&r.response.body));
    let reg: serde_json::Value = serde_json::from_slice(&r.response.body).unwrap();
    let cid = reg["client_id"].as_str().unwrap().to_string();

    // PKCE
    let verifier = "dBjftJeZ4CVP-mB92K27uhbUJU1p1r_wW1gFWFOEjXk";
    let challenge = b64url_nopad(ring::digest::digest(&ring::digest::SHA256, verifier.as_bytes()).as_ref());
    let q = format!(
        "response_type=code&client_id={}&redirect_uri={}&state=xyz&code_challenge={}&code_challenge_method=S256",
        url_encode(&cid),
        url_encode("https://mcp-client.example/api/mcp/auth_callback"),
        challenge
    );
    let path = format!("/authorize?{q}");
    let r = srv.handle(&HttpReq { method: "GET", path: &path, headers: &hdrs, body: b"" }, issuer).unwrap().unwrap();
    assert_eq!(r.response.status, 200);
    assert!(String::from_utf8_lossy(&r.response.body).contains("Autorizar"));

    // wrong password
    let form = format!(
        "client_id={}&redirect_uri={}&state=xyz&code_challenge={}&password=errada",
        url_encode(&cid),
        url_encode("https://mcp-client.example/api/mcp/auth_callback"),
        challenge
    );
    let r = srv.handle(&HttpReq { method: "POST", path: "/authorize", headers: &hdrs, body: form.as_bytes() }, issuer).unwrap().unwrap();
    assert_eq!(r.response.status, 200);
    assert!(String::from_utf8_lossy(&r.response.body).contains("Senha incorreta"));

    // right password -> 302 with a code
    let form = format!(
        "client_id={}&redirect_uri={}&state=xyz&code_challenge={}&password=segredo-forte",
        url_encode(&cid),
        url_encode("https://mcp-client.example/api/mcp/auth_callback"),
        challenge
    );
    let r = srv.handle(&HttpReq { method: "POST", path: "/authorize", headers: &hdrs, body: form.as_bytes() }, issuer).unwrap().unwrap();
    assert_eq!(r.response.status, 302);
    let loc = location(&r);
    assert!(loc.starts_with("https://mcp-client.example/api/mcp/auth_callback?code="));
    assert!(loc.ends_with("&state=xyz"));
    let code = loc.split("code=").nth(1).unwrap().split('&').next().unwrap().to_string();

    // token with a wrong verifier
    let form = format!("grant_type=authorization_code&code={code}&client_id={}&code_verifier=nope", url_encode(&cid));
    let r = srv.handle(&HttpReq { method: "POST", path: "/token", headers: &hdrs, body: form.as_bytes() }, issuer).unwrap().unwrap();
    assert_eq!(r.response.status, 400);
    // the code was consumed: a new one is needed
    let form = format!(
        "client_id={}&redirect_uri={}&state=xyz&code_challenge={}&password=segredo-forte",
        url_encode(&cid),
        url_encode("https://mcp-client.example/api/mcp/auth_callback"),
        challenge
    );
    let r = srv.handle(&HttpReq { method: "POST", path: "/authorize", headers: &hdrs, body: form.as_bytes() }, issuer).unwrap().unwrap();
    let loc = location(&r);
    let code = loc.split("code=").nth(1).unwrap().split('&').next().unwrap().to_string();
    let form = format!(
        "grant_type=authorization_code&code={code}&client_id={}&code_verifier={verifier}&redirect_uri={}",
        url_encode(&cid),
        url_encode("https://mcp-client.example/api/mcp/auth_callback")
    );
    let r = srv.handle(&HttpReq { method: "POST", path: "/token", headers: &hdrs, body: form.as_bytes() }, issuer).unwrap().unwrap();
    assert_eq!(r.response.status, 200, "{}", String::from_utf8_lossy(&r.response.body));
    let tok: serde_json::Value = serde_json::from_slice(&r.response.body).unwrap();
    let access = tok["access_token"].as_str().unwrap().to_string();
    let refresh = tok["refresh_token"].as_str().unwrap().to_string();
    assert!(srv.validate_access(&access));
    assert!(!srv.validate_access("outro"));

    // refresh
    let form = format!("grant_type=refresh_token&refresh_token={refresh}&client_id={}", url_encode(&cid));
    let r = srv.handle(&HttpReq { method: "POST", path: "/token", headers: &hdrs, body: form.as_bytes() }, issuer).unwrap().unwrap();
    assert_eq!(r.response.status, 200);
    // a reused refresh token is refused (rotation)
    let r = srv.handle(&HttpReq { method: "POST", path: "/token", headers: &hdrs, body: form.as_bytes() }, issuer).unwrap().unwrap();
    assert_eq!(r.response.status, 400);

    // persistence: a server rebuilt from the saved state
    let mut srv2 = OAuthServer::from_state(copy_state(srv.state())).unwrap();
    assert!(srv2.validate_access(&access));
    assert_eq!(srv2.clients_count(), 1);
    srv2.revoke_all();
    assert!(!srv2.validate_access(&access));

    // a path that is not OAuth -> None
    assert!(srv.handle(&HttpReq { method: "POST", path: "/mcp", headers: &hdrs, body: b"{}" }, issuer).unwrap().is_none());
}
