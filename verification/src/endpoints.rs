use vstd::prelude::*;
use crate::json::{
    Json, JsonV, json_parse, json_parse_of, json_get_str, json_get_array, json_strings_of, get_str,
    get_array, strings_of, string_views, jstr,
};
use crate::http::{HttpResp, is_json_resp, is_html_resp, is_redirect_resp, json_resp};
use crate::oauth::{State, StateV, Client, ClientV, gc_state};
use crate::table::{keys_unique, table_map, table_insert};
use crate::text::{
    starts_with, contains_seq, take_chars, str_starts_with, str_contains, concat, first_chars, chars_of, string_of,
    push_str, trim_str, bytes_of,
};
use crate::html::{html_escaped, push_escaped, page, page_text};
use crate::form::{form_map, form_safe, parse_form, form_get, url_encode, url_encode_bytes, form_is_safe};
use crate::redirect::{redirect_accepted, redirect_matches, uri_views};
use crate::oauth::{password_hash, AuthCode, AuthCodeV, CODE_TTL_SECS, CLOCK_LIMIT};
use crate::crypto::sha256_hex;
use crate::http::{html_resp, redirect_resp};
use crate::oauth::{Token, TokenV, ACCESS_TTL_SECS, REFRESH_TTL_SECS, collect_expired};
use crate::crypto::{b64url, b64url_sha256, sha256_of};
use crate::table::table_remove;
use crate::text::{first_index, find_chars, slice_chars, chars_equal, utf8_lossy_of, from_utf8_lossy, lemma_first_index_occurs};
use crate::http::HttpReq;
use crate::table::table_get;
use vstd::utf8::encode_utf8;

verus! {

// ───────────────────────── replies ─────────────────────────

/// What an endpoint answers, as plain values.
pub enum Reply {
    /// A JSON document with `Cache-Control: no-store`.
    Json(u16, JsonV),
    /// An HTML page with `Cache-Control: no-store`.
    Html(u16, Seq<char>),
    /// `302 Found` to the location.
    Redirect(Seq<char>),
    /// `200` with an empty `text/plain` body and no extra header (CORS preflight).
    Empty,
}

pub open spec fn replies(r: HttpResp, rep: Reply) -> bool {
    match rep {
        Reply::Json(status, doc) => is_json_resp(r, status, doc),
        Reply::Html(status, page) => is_html_resp(r, status, page),
        Reply::Redirect(loc) => is_redirect_resp(r, loc),
        Reply::Empty => {
            &&& r.status == 200
            &&& r.content_type@ == "text/plain"@
            &&& r.extra_headers@.len() == 0
            &&& r.body@.len() == 0
        },
    }
}

pub fn empty_resp() -> (r: HttpResp)
    ensures
        replies(r, Reply::Empty),
{
    HttpResp { status: 200, content_type: "text/plain", extra_headers: Vec::new(), body: Vec::new() }
}

// ───────────────────────── building JSON ─────────────────────────

pub open spec fn obj_views(m: Seq<(String, Json)>) -> Seq<(Seq<char>, JsonV)> {
    m.map_values(|p: (String, Json)| (p.0@, p.1@))
}

pub open spec fn arr_views(a: Seq<Json>) -> Seq<JsonV> {
    a.map_values(|x: Json| x@)
}

pub open spec fn str_jsons(s: Seq<Seq<char>>) -> Seq<JsonV> {
    s.map_values(|x: Seq<char>| JsonV::Str(x))
}

fn new_object() -> (m: Vec<(String, Json)>)
    ensures
        obj_views(m@) == Seq::<(Seq<char>, JsonV)>::empty(),
{
    let m: Vec<(String, Json)> = Vec::new();
    assert(obj_views(m@) =~= Seq::<(Seq<char>, JsonV)>::empty());
    m
}

fn new_array() -> (a: Vec<Json>)
    ensures
        arr_views(a@) == Seq::<JsonV>::empty(),
{
    let a: Vec<Json> = Vec::new();
    assert(arr_views(a@) =~= Seq::<JsonV>::empty());
    a
}

fn put(m: &mut Vec<(String, Json)>, k: &str, v: Json)
    ensures
        obj_views(final(m)@) == obj_views(old(m)@).push((k@, v@)),
{
    m.push((k.to_owned(), v));
    assert(obj_views(m@) =~= obj_views(old(m)@).push((k@, v@)));
}

fn push_item(a: &mut Vec<Json>, v: Json)
    ensures
        arr_views(final(a)@) == arr_views(old(a)@).push(v@),
{
    a.push(v);
    assert(arr_views(a@) =~= arr_views(old(a)@).push(v@));
}

fn object(m: Vec<(String, Json)>) -> (r: Json)
    ensures
        r@ == JsonV::Object(obj_views(m@)),
{
    let r = Json::Object(m);
    assert(r@->Object_0 =~= obj_views(m@));
    r
}

fn array(a: Vec<Json>) -> (r: Json)
    ensures
        r@ == JsonV::Array(arr_views(a@)),
{
    let r = Json::Array(a);
    assert(r@->Array_0 =~= arr_views(a@));
    r
}

fn number(n: u64) -> (r: Json)
    ensures
        r@ == JsonV::Number(Some(n)),
{
    Json::Number(Some(n))
}

fn boolean(b: bool) -> (r: Json)
    ensures
        r@ == JsonV::Bool(b),
{
    Json::Bool(b)
}

/// An array of JSON strings.
fn strings(v: &Vec<String>) -> (r: Json)
    ensures
        r@ == JsonV::Array(str_jsons(string_views(v@))),
{
    let mut a: Vec<Json> = Vec::new();
    let mut i: usize = 0;
    while i < v.len()
        invariant
            i <= v@.len(),
            arr_views(a@) == str_jsons(string_views(v@.take(i as int))),
        decreases v@.len() - i,
    {
        push_item(&mut a, jstr(v[i].as_str()));
        i = i + 1;
        assert(arr_views(a@) =~= str_jsons(string_views(v@.take(i as int))));
    }
    assert(v@.take(v@.len() as int) =~= v@);
    array(a)
}

/// An array of literal strings.
fn literal_strings(a: &str, b: Option<&str>) -> (r: Json)
    ensures
        r@ == JsonV::Array(
            match b {
                Some(b) => seq![JsonV::Str(a@), JsonV::Str(b@)],
                None => seq![JsonV::Str(a@)],
            },
        ),
{
    let mut v = new_array();
    push_item(&mut v, jstr(a));
    match b {
        Some(b) => {
            push_item(&mut v, jstr(b));
        },
        None => {},
    }
    proof {
        match b {
            Some(b) => {
                assert(arr_views(v@) =~= seq![JsonV::Str(a@), JsonV::Str(b@)]);
            },
            None => {},
        }
    }
    array(v)
}

// ───────────────────────── documents ─────────────────────────

pub open spec fn jstring(s: Seq<char>) -> JsonV {
    JsonV::Str(s)
}

/// `{"error": .., "error_description": ..}`.
pub open spec fn error_doc(error: Seq<char>, desc: Seq<char>) -> JsonV {
    JsonV::Object(seq![("error"@, jstring(error)), ("error_description"@, jstring(desc))])
}

pub open spec fn scopes() -> JsonV {
    JsonV::Array(seq![jstring("mcp"@), jstring("offline_access"@)])
}

/// Protected-resource metadata (RFC 9728).
pub open spec fn resource_doc(issuer: Seq<char>) -> JsonV {
    JsonV::Object(
        seq![
            ("resource"@, jstring(issuer + "/mcp"@)),
            ("authorization_servers"@, JsonV::Array(seq![jstring(issuer)])),
            ("bearer_methods_supported"@, JsonV::Array(seq![jstring("header"@)])),
            ("scopes_supported"@, scopes()),
            ("resource_name"@, jstring("FzComputerAI MCP"@)),
        ],
    )
}

/// Authorization-server metadata (RFC 8414).
pub open spec fn server_doc(issuer: Seq<char>) -> JsonV {
    JsonV::Object(
        seq![
            ("issuer"@, jstring(issuer)),
            ("authorization_endpoint"@, jstring(issuer + "/authorize"@)),
            ("token_endpoint"@, jstring(issuer + "/token"@)),
            ("registration_endpoint"@, jstring(issuer + "/register"@)),
            ("response_types_supported"@, JsonV::Array(seq![jstring("code"@)])),
            ("response_modes_supported"@, JsonV::Array(seq![jstring("query"@)])),
            ("grant_types_supported"@, JsonV::Array(seq![jstring("authorization_code"@), jstring("refresh_token"@)])),
            ("code_challenge_methods_supported"@, JsonV::Array(seq![jstring("S256"@)])),
            ("token_endpoint_auth_methods_supported"@, JsonV::Array(seq![jstring("none"@)])),
            ("client_id_metadata_document_supported"@, JsonV::Bool(true)),
            ("scopes_supported"@, scopes()),
            ("resource_indicators_supported"@, JsonV::Bool(true)),
            ("service_documentation"@, jstring("https://github.com/RLuf/fzcomputerai/blob/master/docs/https.md"@)),
        ],
    )
}

/// The answer to a registration (RFC 7591).
pub open spec fn registration_doc(client_id: Seq<char>, issued: u64, name: Seq<char>, uris: Seq<Seq<char>>) -> JsonV {
    JsonV::Object(
        seq![
            ("client_id"@, jstring(client_id)),
            ("client_id_issued_at"@, JsonV::Number(Some(issued))),
            ("client_name"@, jstring(name)),
            ("redirect_uris"@, JsonV::Array(str_jsons(uris))),
            ("grant_types"@, JsonV::Array(seq![jstring("authorization_code"@), jstring("refresh_token"@)])),
            ("response_types"@, JsonV::Array(seq![jstring("code"@)])),
            ("token_endpoint_auth_method"@, jstring("none"@)),
            ("scope"@, jstring("mcp"@)),
        ],
    )
}

/// The answer of the token endpoint.
pub open spec fn token_doc(access: Seq<char>, refresh: Seq<char>) -> JsonV {
    JsonV::Object(
        seq![
            ("access_token"@, jstring(access)),
            ("token_type"@, jstring("Bearer"@)),
            ("expires_in"@, JsonV::Number(Some(86400))),
            ("refresh_token"@, jstring(refresh)),
            ("scope"@, jstring("mcp"@)),
        ],
    )
}

pub fn error_resp(status: u16, error: &str, desc: &str) -> (r: HttpResp)
    ensures
        replies(r, Reply::Json(status, error_doc(error@, desc@))),
{
    let mut m = new_object();
    put(&mut m, "error", jstr(error));
    put(&mut m, "error_description", jstr(desc));
    assert(obj_views(m@) =~= (error_doc(error@, desc@))->Object_0);
    json_resp(status, &object(m))
}

pub fn resource_metadata(issuer: &str) -> (r: Json)
    ensures
        r@ == resource_doc(issuer@),
{
    let mut servers = new_array();
    push_item(&mut servers, jstr(issuer));
    let mut m = new_object();
    put(&mut m, "resource", jstr(concat(issuer, "/mcp").as_str()));
    put(&mut m, "authorization_servers", array(servers));
    put(&mut m, "bearer_methods_supported", literal_strings("header", None));
    put(&mut m, "scopes_supported", literal_strings("mcp", Some("offline_access")));
    put(&mut m, "resource_name", jstr("FzComputerAI MCP"));
    assert(obj_views(m@) =~~= (resource_doc(issuer@))->Object_0);
    object(m)
}

pub fn server_metadata(issuer: &str) -> (r: Json)
    ensures
        r@ == server_doc(issuer@),
{
    let mut m = new_object();
    put(&mut m, "issuer", jstr(issuer));
    put(&mut m, "authorization_endpoint", jstr(concat(issuer, "/authorize").as_str()));
    put(&mut m, "token_endpoint", jstr(concat(issuer, "/token").as_str()));
    put(&mut m, "registration_endpoint", jstr(concat(issuer, "/register").as_str()));
    put(&mut m, "response_types_supported", literal_strings("code", None));
    put(&mut m, "response_modes_supported", literal_strings("query", None));
    put(&mut m, "grant_types_supported", literal_strings("authorization_code", Some("refresh_token")));
    put(&mut m, "code_challenge_methods_supported", literal_strings("S256", None));
    put(&mut m, "token_endpoint_auth_methods_supported", literal_strings("none", None));
    put(&mut m, "client_id_metadata_document_supported", boolean(true));
    put(&mut m, "scopes_supported", literal_strings("mcp", Some("offline_access")));
    put(&mut m, "resource_indicators_supported", boolean(true));
    put(&mut m, "service_documentation", jstr("https://github.com/RLuf/fzcomputerai/blob/master/docs/https.md"));
    assert(obj_views(m@) =~~= (server_doc(issuer@))->Object_0);
    object(m)
}

fn registration(client_id: &str, issued: u64, name: &str, uris: &Vec<String>) -> (r: Json)
    ensures
        r@ == registration_doc(client_id@, issued, name@, string_views(uris@)),
{
    let mut m = new_object();
    put(&mut m, "client_id", jstr(client_id));
    put(&mut m, "client_id_issued_at", number(issued));
    put(&mut m, "client_name", jstr(name));
    put(&mut m, "redirect_uris", strings(uris));
    put(&mut m, "grant_types", literal_strings("authorization_code", Some("refresh_token")));
    put(&mut m, "response_types", literal_strings("code", None));
    put(&mut m, "token_endpoint_auth_method", jstr("none"));
    put(&mut m, "scope", jstr("mcp"));
    assert(obj_views(m@) =~~= (registration_doc(client_id@, issued, name@, string_views(uris@)))->Object_0);
    object(m)
}

pub fn token_response(access: &str, refresh: &str) -> (r: HttpResp)
    ensures
        replies(r, Reply::Json(200, token_doc(access@, refresh@))),
{
    let mut m = new_object();
    put(&mut m, "access_token", jstr(access));
    put(&mut m, "token_type", jstr("Bearer"));
    put(&mut m, "expires_in", number(86400));
    put(&mut m, "refresh_token", jstr(refresh));
    put(&mut m, "scope", jstr("mcp"));
    assert(obj_views(m@) =~= (token_doc(access@, refresh@))->Object_0);
    json_resp(200, &object(m))
}


// ───────────────────────── registration (RFC 7591) ─────────────────────────

/// A redirect URI that registration accepts: https, http on the loopback names,
/// or any other scheme that is not plain http.
pub open spec fn uri_allowed(u: Seq<char>) -> bool {
    ||| starts_with(u, "https://"@)
    ||| starts_with(u, "http://localhost"@)
    ||| starts_with(u, "http://127.0.0.1"@)
    ||| (!starts_with(u, "http://"@) && contains_seq(u, "://"@))
}

/// The string elements of the document's `redirect_uris` array (none when absent).
pub open spec fn doc_uris(v: JsonV) -> Seq<Seq<char>> {
    match json_get_array(v, "redirect_uris"@) {
        Some(a) => json_strings_of(a),
        None => seq![],
    }
}

/// The document's `client_name`, or `fallback`, cut to 80 characters.
pub open spec fn doc_name(v: JsonV, fallback: Seq<char>) -> Seq<char> {
    match json_get_str(v, "client_name"@) {
        Some(n) => take_chars(n, 80),
        None => take_chars(fallback, 80),
    }
}

/// `POST /register`: the state after, the reply, and whether the state is to be saved.
/// `id` is the fresh client identifier.
pub open spec fn register_spec(s: StateV, body: Seq<u8>, now: u64, id: Seq<char>) -> (StateV, Reply, bool) {
    match json_parse_of(body) {
        None => (s, Reply::Json(400, error_doc("invalid_client_metadata"@, "corpo não é JSON"@)), false),
        Some(v) => {
            let uris = doc_uris(v);
            if uris.len() == 0 {
                (s, Reply::Json(400, error_doc("invalid_redirect_uri"@, "redirect_uris obrigatório"@)), false)
            } else if exists|i: int| 0 <= i < uris.len() && !uri_allowed(#[trigger] uris[i]) {
                (
                    s,
                    Reply::Json(
                        400,
                        error_doc("invalid_redirect_uri"@, "redirect_uri precisa ser https:// (ou http://localhost)"@),
                    ),
                    false,
                )
            } else {
                let name = doc_name(v, "cliente MCP"@);
                let g = gc_state(s, now);
                (
                    StateV {
                        clients: g.clients.insert(id, ClientV { client_name: name, redirect_uris: uris, created: now }),
                        ..g
                    },
                    Reply::Json(201, registration_doc(id, now, name, uris)),
                    true,
                )
            }
        },
    }
}

pub fn uri_is_allowed(u: &str) -> (r: bool)
    ensures
        r == uri_allowed(u@),
{
    str_starts_with(u, "https://") || str_starts_with(u, "http://localhost") || str_starts_with(u, "http://127.0.0.1")
        || (!str_starts_with(u, "http://") && str_contains(u, "://"))
}

/// Registers a client under `id`, the fresh identifier.
pub fn register(st: &mut State, body: &[u8], now: u64, id: String) -> (r: (HttpResp, bool))
    requires
        old(st).wf(),
    ensures
        final(st).wf(),
        final(st)@ == register_spec(old(st)@, body@, now, id@).0,
        replies(r.0, register_spec(old(st)@, body@, now, id@).1),
        r.1 == register_spec(old(st)@, body@, now, id@).2,
{
    let v = match json_parse(body) {
        Some(v) => v,
        None => {
            return (error_resp(400, "invalid_client_metadata", "corpo não é JSON"), false);
        },
    };
    let uris: Vec<String> = match get_array(&v, "redirect_uris") {
        Some(a) => strings_of(a),
        None => Vec::new(),
    };
    let ghost uv = string_views(uris@);
    assert(uv == doc_uris(v@));
    if uris.len() == 0 {
        return (error_resp(400, "invalid_redirect_uri", "redirect_uris obrigatório"), false);
    }
    let mut i: usize = 0;
    while i < uris.len()
        invariant
            i <= uris@.len(),
            uv == string_views(uris@),
            uv == doc_uris(v@),
            *st == *old(st),
            st.wf(),
            json_parse_of(body@) == Some(v@),
            forall|j: int| 0 <= j < i ==> uri_allowed(#[trigger] uv[j]),
        decreases uris@.len() - i,
    {
        if !uri_is_allowed(uris[i].as_str()) {
            assert(!uri_allowed(uv[i as int]));
            return (
                error_resp(400, "invalid_redirect_uri", "redirect_uri precisa ser https:// (ou http://localhost)"),
                false,
            );
        }
        i = i + 1;
    }
    let name = match get_str(&v, "client_name") {
        Some(n) => first_chars(n.as_str(), 80),
        None => first_chars("cliente MCP", 80),
    };
    crate::oauth::collect_expired(st, now);
    let doc = registration(id.as_str(), now, name.as_str(), &uris);
    let client = Client { client_name: name, redirect_uris: uris, created: now };
    assert(client@.redirect_uris =~= uv);
    table_insert(&mut st.clients, id, client);
    (json_resp(201, &doc), true)
}

// ───────────────────────── the consent page ─────────────────────────

pub const UNKNOWN_CLIENT_BODY: &'static str = "<p>Este <code>client_id</code> não está registrado (nem é um Client ID Metadata Document válido). O conector precisa registrar-se em <code>/register</code> primeiro.</p>";

pub const BAD_REDIRECT_BODY: &'static str = "<p>O <code>redirect_uri</code> não confere com o registrado pelo cliente.</p>";

pub const BAD_REQUEST_BODY: &'static str = "<p>Exigido: <code>response_type=code</code> e PKCE <code>code_challenge_method=S256</code>.</p>";

pub const NO_PASSWORD_BODY: &'static str = "<p>Defina a senha de autorização no FzComputerAI (aba MCP &amp; Rede → HTTPS → OAuth) antes de conectar.</p>";

pub const INVALID_CLIENT_BODY: &'static str = "<p>Cliente ou redirect_uri inválidos.</p>";

pub const LOOPBACK_WARNING: &'static str = "<p class=\"err\">Atenção: o retorno é para um endereço local desta máquina (loopback). Só autorize se você mesmo acabou de iniciar o login no cliente (ex.: um cliente MCP de linha de comando).</p>";

/// The value of a form field, empty when absent.
pub open spec fn field(f: Map<Seq<char>, Seq<char>>, k: Seq<char>) -> Seq<char> {
    if f.dom().contains(k) {
        f[k]
    } else {
        seq![]
    }
}

/// Shown when the redirect goes back to this machine.
pub open spec fn loop_warning(redirect_uri: Seq<char>) -> Seq<char> {
    if starts_with(redirect_uri, "http://localhost"@) || starts_with(redirect_uri, "http://127.0.0.1"@) {
        LOOPBACK_WARNING@
    } else {
        seq![]
    }
}

pub open spec fn error_html(error: Option<Seq<char>>) -> Seq<char> {
    match error {
        Some(e) => "<p class=\"err\">"@ + html_escaped(e) + "</p>"@,
        None => seq![],
    }
}

/// The consent form: who asks, where the answer goes, and the password field.
pub open spec fn consent_body(
    name: Seq<char>,
    client_id: Seq<char>,
    redirect_uri: Seq<char>,
    state: Seq<char>,
    challenge: Seq<char>,
    error: Option<Seq<char>>,
) -> Seq<char> {
    "<p><b>"@ + html_escaped(name) + "</b> quer acessar o MCP desta máquina.</p><p>Redirecionamento: <code>"@
        + html_escaped(redirect_uri) + "</code></p>"@ + loop_warning(redirect_uri) + error_html(error)
        + "<form method=\"post\" action=\"/authorize\"><input type=\"hidden\" name=\"client_id\" value=\""@
        + html_escaped(client_id) + "\"><input type=\"hidden\" name=\"redirect_uri\" value=\""@
        + html_escaped(redirect_uri) + "\"><input type=\"hidden\" name=\"state\" value=\""@ + html_escaped(state)
        + "\"><input type=\"hidden\" name=\"code_challenge\" value=\""@ + html_escaped(challenge)
        + "\"><label>Senha de autorização do FzComputerAI<br><input type=\"password\" name=\"password\" autofocus autocomplete=\"current-password\"></label><br><br><button type=\"submit\">Autorizar</button> <a href=\""@
        + html_escaped(redirect_uri) + "?error=access_denied&state="@ + url_encode_bytes(encode_utf8(state))
        + "\">Negar</a></form>"@
}

/// What `GET /authorize` answers for these parameters.
pub open spec fn authorize_page_spec(
    s: StateV,
    client_id: Seq<char>,
    redirect_uri: Seq<char>,
    state: Seq<char>,
    challenge: Seq<char>,
    method: Seq<char>,
    response_type: Seq<char>,
    error: Option<Seq<char>>,
) -> Reply {
    if !s.clients.dom().contains(client_id) {
        Reply::Html(400, page_text("Cliente desconhecido"@, UNKNOWN_CLIENT_BODY@))
    } else if !redirect_accepted(s.clients[client_id].redirect_uris, redirect_uri) {
        Reply::Html(400, page_text("redirect_uri inválido"@, BAD_REDIRECT_BODY@))
    } else if response_type != "code"@ || method != "S256"@ || challenge.len() == 0 {
        Reply::Html(400, page_text("Requisição inválida"@, BAD_REQUEST_BODY@))
    } else if s.password_sha256.len() == 0 {
        Reply::Html(503, page_text("Sem senha de autorização"@, NO_PASSWORD_BODY@))
    } else {
        Reply::Html(
            200,
            page_text(
                "Autorizar acesso ao MCP"@,
                consent_body(s.clients[client_id].client_name, client_id, redirect_uri, state, challenge, error),
            ),
        )
    }
}

/// `GET /authorize?query`.
pub open spec fn authorize_get_spec(s: StateV, query: Seq<char>) -> Reply {
    let f = form_map(query);
    authorize_page_spec(
        s,
        field(f, "client_id"@),
        field(f, "redirect_uri"@),
        field(f, "state"@),
        field(f, "code_challenge"@),
        field(f, "code_challenge_method"@),
        field(f, "response_type"@),
        None,
    )
}

fn push_escaped_str(out: &mut Vec<char>, s: &str)
    ensures
        final(out)@ == old(out)@ + html_escaped(s@),
{
    let c = chars_of(s);
    push_escaped(out, c.as_slice());
}

fn consent(name: &str, client_id: &str, redirect_uri: &str, state: &str, challenge: &str, error: Option<&str>) -> (r: String)
    ensures
        r@ == consent_body(
            name@,
            client_id@,
            redirect_uri@,
            state@,
            challenge@,
            match error {
                Some(e) => Some(e@),
                None => None,
            },
        ),
{
    let mut out: Vec<char> = Vec::new();
    push_str(&mut out, "<p><b>");
    push_escaped_str(&mut out, name);
    push_str(&mut out, "</b> quer acessar o MCP desta máquina.</p><p>Redirecionamento: <code>");
    push_escaped_str(&mut out, redirect_uri);
    push_str(&mut out, "</code></p>");
    if str_starts_with(redirect_uri, "http://localhost") || str_starts_with(redirect_uri, "http://127.0.0.1") {
        push_str(&mut out, LOOPBACK_WARNING);
    }
    match error {
        Some(e) => {
            push_str(&mut out, "<p class=\"err\">");
            push_escaped_str(&mut out, e);
            push_str(&mut out, "</p>");
        },
        None => {},
    }
    push_str(&mut out, "<form method=\"post\" action=\"/authorize\"><input type=\"hidden\" name=\"client_id\" value=\"");
    push_escaped_str(&mut out, client_id);
    push_str(&mut out, "\"><input type=\"hidden\" name=\"redirect_uri\" value=\"");
    push_escaped_str(&mut out, redirect_uri);
    push_str(&mut out, "\"><input type=\"hidden\" name=\"state\" value=\"");
    push_escaped_str(&mut out, state);
    push_str(&mut out, "\"><input type=\"hidden\" name=\"code_challenge\" value=\"");
    push_escaped_str(&mut out, challenge);
    push_str(
        &mut out,
        "\"><label>Senha de autorização do FzComputerAI<br><input type=\"password\" name=\"password\" autofocus autocomplete=\"current-password\"></label><br><br><button type=\"submit\">Autorizar</button> <a href=\"",
    );
    push_escaped_str(&mut out, redirect_uri);
    push_str(&mut out, "?error=access_denied&state=");
    let enc = url_encode(state);
    push_str(&mut out, enc.as_str());
    push_str(&mut out, "\">Negar</a></form>");
    let ghost e = match error {
        Some(e) => Some(e@),
        None => None,
    };
    assert(out@ =~= consent_body(name@, client_id@, redirect_uri@, state@, challenge@, e));
    string_of(out.as_slice())
}

fn page_resp(status: u16, title: &str, body: &str) -> (r: HttpResp)
    ensures
        replies(r, Reply::Html(status, page_text(title@, body@))),
{
    html_resp(status, page(title, body))
}

/// The consent page for these parameters, or the page that says why there is none.
pub fn authorize_page(
    st: &State,
    client_id: &str,
    redirect_uri: &str,
    state: &str,
    challenge: &str,
    method: &str,
    response_type: &str,
    error: Option<&str>,
) -> (r: HttpResp)
    requires
        st.wf(),
    ensures
        replies(
            r,
            authorize_page_spec(
                st@,
                client_id@,
                redirect_uri@,
                state@,
                challenge@,
                method@,
                response_type@,
                match error {
                    Some(e) => Some(e@),
                    None => None,
                },
            ),
        ),
{
    let client = match table_get(&st.clients, client_id) {
        Some(c) => c,
        None => {
            return page_resp(400, "Cliente desconhecido", UNKNOWN_CLIENT_BODY);
        },
    };
    assert(client@.redirect_uris =~= uri_views(client.redirect_uris@));
    if !redirect_matches(client.redirect_uris.as_slice(), redirect_uri) {
        return page_resp(400, "redirect_uri inválido", BAD_REDIRECT_BODY);
    }
    let code_literal = "code";
    let s256_literal = "S256";
    if response_type.to_owned() != code_literal.to_owned() || method.to_owned() != s256_literal.to_owned()
        || challenge.is_empty() {
        return page_resp(400, "Requisição inválida", BAD_REQUEST_BODY);
    }
    if st.password_sha256.as_str().is_empty() {
        return page_resp(503, "Sem senha de autorização", NO_PASSWORD_BODY);
    }
    let body = consent(client.client_name.as_str(), client_id, redirect_uri, state, challenge, error);
    page_resp(200, "Autorizar acesso ao MCP", body.as_str())
}

/// `GET /authorize?query`.
pub fn authorize_get(st: &State, query: &str) -> (r: HttpResp)
    requires
        st.wf(),
        form_safe(query@),
    ensures
        replies(r, authorize_get_spec(st@, query@)),
{
    let f = parse_form(query);
    let client_id = form_get(&f, "client_id");
    let redirect_uri = form_get(&f, "redirect_uri");
    let state = form_get(&f, "state");
    let challenge = form_get(&f, "code_challenge");
    let method = form_get(&f, "code_challenge_method");
    let response_type = form_get(&f, "response_type");
    authorize_page(
        st,
        client_id.as_str(),
        redirect_uri.as_str(),
        state.as_str(),
        challenge.as_str(),
        method.as_str(),
        response_type.as_str(),
        None,
    )
}

// ───────────────────────── the consent answer ─────────────────────────

/// Where the browser goes back with the code: `code` (and `state`, when there
/// is one) appended to the redirect URI's query.
pub open spec fn redirect_location(redirect_uri: Seq<char>, code: Seq<char>, state: Seq<char>) -> Seq<char> {
    redirect_uri + (if contains_seq(redirect_uri, seq!['?']) {
        seq!['&']
    } else {
        seq!['?']
    }) + "code="@ + url_encode_bytes(encode_utf8(code)) + (if state.len() > 0 {
        "&state="@ + url_encode_bytes(encode_utf8(state))
    } else {
        seq![]
    })
}

/// `POST /authorize` with the form text `text`: the state after, the reply,
/// whether to save, and whether the password was wrong. `code` is the fresh code.
pub open spec fn submit_spec(s: StateV, text: Seq<char>, now: u64, code: Seq<char>) -> (StateV, Reply, bool, bool) {
    let f = form_map(text);
    let client_id = field(f, "client_id"@);
    let redirect_uri = field(f, "redirect_uri"@);
    let state = field(f, "state"@);
    let challenge = field(f, "code_challenge"@);
    let password = field(f, "password"@);
    let ok_client = s.clients.dom().contains(client_id) && redirect_accepted(
        s.clients[client_id].redirect_uris,
        redirect_uri,
    );
    if !ok_client || challenge.len() == 0 {
        (s, Reply::Html(400, page_text("Requisição inválida"@, INVALID_CLIENT_BODY@)), false, false)
    } else if s.password_sha256.len() == 0 || password_hash(password) != s.password_sha256 {
        (
            s,
            authorize_page_spec(s, client_id, redirect_uri, state, challenge, "S256"@, "code"@, Some("Senha incorreta."@)),
            false,
            true,
        )
    } else {
        let g = gc_state(s, now);
        let entry = AuthCodeV {
            client_id,
            redirect_uri,
            code_challenge: challenge,
            expires: (now + CODE_TTL_SECS) as u64,
        };
        (
            StateV { codes: g.codes.insert(code, entry), ..g },
            Reply::Redirect(redirect_location(redirect_uri, code, state)),
            true,
            false,
        )
    }
}

fn location(redirect_uri: &str, code: &str, state: &str) -> (r: String)
    ensures
        r@ == redirect_location(redirect_uri@, code@, state@),
{
    let mut out: Vec<char> = Vec::new();
    push_str(&mut out, redirect_uri);
    proof {
        reveal_strlit("?");
        assert("?"@ =~= seq!['?']);
    }
    if str_contains(redirect_uri, "?") {
        out.push('&');
    } else {
        out.push('?');
    }
    push_str(&mut out, "code=");
    let c = url_encode(code);
    push_str(&mut out, c.as_str());
    if !state.is_empty() {
        push_str(&mut out, "&state=");
        let e = url_encode(state);
        push_str(&mut out, e.as_str());
    }
    assert(out@ =~= redirect_location(redirect_uri@, code@, state@));
    string_of(out.as_slice())
}

/// Checks the password; on success stores a code and redirects back with it.
pub fn authorize_submit(st: &mut State, text: &str, now: u64, code: String) -> (r: (HttpResp, bool, bool))
    requires
        old(st).wf(),
        form_safe(text@),
        now <= CLOCK_LIMIT,
    ensures
        final(st).wf(),
        final(st)@ == submit_spec(old(st)@, text@, now, code@).0,
        replies(r.0, submit_spec(old(st)@, text@, now, code@).1),
        r.1 == submit_spec(old(st)@, text@, now, code@).2,
        r.2 == submit_spec(old(st)@, text@, now, code@).3,
{
    let f = parse_form(text);
    let client_id = form_get(&f, "client_id");
    let redirect_uri = form_get(&f, "redirect_uri");
    let state = form_get(&f, "state");
    let challenge = form_get(&f, "code_challenge");
    let password = form_get(&f, "password");
    let ok_client = match table_get(&st.clients, client_id.as_str()) {
        Some(c) => {
            assert(c@.redirect_uris =~= uri_views(c.redirect_uris@));
            redirect_matches(c.redirect_uris.as_slice(), redirect_uri.as_str())
        },
        None => false,
    };
    if !ok_client || challenge.as_str().is_empty() {
        return (page_resp(400, "Requisição inválida", INVALID_CLIENT_BODY), false, false);
    }
    let t = trim_str(password.as_str());
    let ts = string_of(t.as_slice());
    let b = bytes_of(ts.as_str());
    let h = sha256_hex(b.as_slice());
    if st.password_sha256.as_str().is_empty() || h != st.password_sha256 {
        let page = authorize_page(
            st,
            client_id.as_str(),
            redirect_uri.as_str(),
            state.as_str(),
            challenge.as_str(),
            "S256",
            "code",
            Some("Senha incorreta."),
        );
        return (page, false, true);
    }
    collect_expired(st, now);
    let loc = location(redirect_uri.as_str(), code.as_str(), state.as_str());
    let entry = AuthCode { client_id, redirect_uri, code_challenge: challenge, expires: now + CODE_TTL_SECS };
    table_insert(&mut st.codes, code, entry);
    (redirect_resp(loc), true, false)
}

// ───────────────────────── the token endpoint ─────────────────────────

pub open spec fn invalid_grant(desc: Seq<char>) -> Reply {
    Reply::Json(400, error_doc("invalid_grant"@, desc))
}

/// The state with a fresh access token `a` and refresh token `b` for the client.
pub open spec fn issued(s: StateV, client_id: Seq<char>, now: u64, a: Seq<char>, b: Seq<char>) -> StateV {
    StateV {
        access: s.access.insert(a, TokenV { client_id, expires: (now + ACCESS_TTL_SECS) as u64 }),
        refresh: s.refresh.insert(b, TokenV { client_id, expires: (now + REFRESH_TTL_SECS) as u64 }),
        ..s
    }
}

/// The PKCE S256 check: base64url(SHA-256(verifier)) is the stored challenge.
pub open spec fn pkce_ok(verifier: Seq<char>, challenge: Seq<char>) -> bool {
    verifier.len() > 0 && b64url(sha256_of(encode_utf8(verifier))) == challenge
}

/// `grant_type=authorization_code`.
pub open spec fn code_grant_spec(s: StateV, f: Map<Seq<char>, Seq<char>>, now: u64, a: Seq<char>, b: Seq<char>) -> (StateV, Reply, bool) {
    let g = gc_state(s, now);
    let code = field(f, "code"@);
    if !g.codes.dom().contains(code) {
        (g, invalid_grant("código inválido ou expirado"@), false)
    } else {
        let ac = g.codes[code];
        let g2 = StateV { codes: g.codes.remove(code), ..g };
        let client_id = field(f, "client_id"@);
        let redirect_uri = field(f, "redirect_uri"@);
        if client_id.len() > 0 && client_id != ac.client_id {
            (g2, invalid_grant("client_id não confere"@), false)
        } else if redirect_uri.len() > 0 && redirect_uri != ac.redirect_uri && !redirect_accepted(
            seq![ac.redirect_uri],
            redirect_uri,
        ) {
            (g2, invalid_grant("redirect_uri não confere"@), false)
        } else if !pkce_ok(field(f, "code_verifier"@), ac.code_challenge) {
            (g2, invalid_grant("PKCE: code_verifier não confere"@), false)
        } else {
            (issued(g2, ac.client_id, now, a, b), Reply::Json(200, token_doc(a, b)), true)
        }
    }
}

/// `grant_type=refresh_token`: the old refresh token is spent, a new pair issued.
pub open spec fn refresh_grant_spec(s: StateV, f: Map<Seq<char>, Seq<char>>, now: u64, a: Seq<char>, b: Seq<char>) -> (StateV, Reply, bool) {
    let g = gc_state(s, now);
    let rt = field(f, "refresh_token"@);
    if !g.refresh.dom().contains(rt) {
        (g, invalid_grant("refresh_token inválido ou expirado"@), false)
    } else {
        let t = g.refresh[rt];
        let g2 = StateV { refresh: g.refresh.remove(rt), ..g };
        let client_id = field(f, "client_id"@);
        if client_id.len() > 0 && client_id != t.client_id {
            (g2, invalid_grant("client_id não confere"@), false)
        } else {
            (issued(g2, t.client_id, now, a, b), Reply::Json(200, token_doc(a, b)), true)
        }
    }
}

/// `POST /token` with the form text `text`; `a` and `b` are the fresh tokens.
pub open spec fn token_spec(s: StateV, text: Seq<char>, now: u64, a: Seq<char>, b: Seq<char>) -> (StateV, Reply, bool) {
    let f = form_map(text);
    let grant = field(f, "grant_type"@);
    if grant == "authorization_code"@ {
        code_grant_spec(s, f, now, a, b)
    } else if grant == "refresh_token"@ {
        refresh_grant_spec(s, f, now, a, b)
    } else {
        (s, Reply::Json(400, error_doc("unsupported_grant_type"@, "use authorization_code ou refresh_token"@)), false)
    }
}

fn issue(st: &mut State, client_id: &str, now: u64, access: String, refresh: String) -> (r: HttpResp)
    requires
        old(st).wf(),
        now <= CLOCK_LIMIT,
    ensures
        final(st).wf(),
        final(st)@ == issued(old(st)@, client_id@, now, access@, refresh@),
        replies(r, Reply::Json(200, token_doc(access@, refresh@))),
{
    let resp = token_response(access.as_str(), refresh.as_str());
    table_insert(&mut st.access, access, Token { client_id: client_id.to_owned(), expires: now + ACCESS_TTL_SECS });
    table_insert(&mut st.refresh, refresh, Token { client_id: client_id.to_owned(), expires: now + REFRESH_TTL_SECS });
    resp
}

fn same(a: &str, b: &str) -> (r: bool)
    ensures
        r == (a@ == b@),
{
    a.to_owned() == b.to_owned()
}

fn code_grant(st: &mut State, f: &Vec<(String, String)>, now: u64, access: String, refresh: String) -> (r: (HttpResp, bool))
    requires
        old(st).wf(),
        keys_unique(f@),
        now <= CLOCK_LIMIT,
    ensures
        final(st).wf(),
        final(st)@ == code_grant_spec(old(st)@, table_map(f@), now, access@, refresh@).0,
        replies(r.0, code_grant_spec(old(st)@, table_map(f@), now, access@, refresh@).1),
        r.1 == code_grant_spec(old(st)@, table_map(f@), now, access@, refresh@).2,
{
    let code = form_get(f, "code");
    collect_expired(st, now);
    let ghost g = st@;
    let ac = match table_remove(&mut st.codes, code.as_str()) {
        Some(ac) => ac,
        None => {
            assert(table_map(st.codes@) =~= g.codes);
            return (error_resp(400, "invalid_grant", "código inválido ou expirado"), false);
        },
    };
    let client_id = form_get(f, "client_id");
    let redirect_uri = form_get(f, "redirect_uri");
    let verifier = form_get(f, "code_verifier");
    if !client_id.as_str().is_empty() && !same(client_id.as_str(), ac.client_id.as_str()) {
        return (error_resp(400, "invalid_grant", "client_id não confere"), false);
    }
    if !redirect_uri.as_str().is_empty() && !same(redirect_uri.as_str(), ac.redirect_uri.as_str()) {
        let one: Vec<String> = vec![ac.redirect_uri.clone()];
        assert(uri_views(one@) =~= seq![ac.redirect_uri@]);
        if !redirect_matches(one.as_slice(), redirect_uri.as_str()) {
            return (error_resp(400, "invalid_grant", "redirect_uri não confere"), false);
        }
    }
    let expected = b64url_sha256(verifier.as_str());
    if verifier.as_str().is_empty() || !same(expected.as_str(), ac.code_challenge.as_str()) {
        return (error_resp(400, "invalid_grant", "PKCE: code_verifier não confere"), false);
    }
    let resp = issue(st, ac.client_id.as_str(), now, access, refresh);
    (resp, true)
}

fn refresh_grant(st: &mut State, f: &Vec<(String, String)>, now: u64, access: String, refresh: String) -> (r: (HttpResp, bool))
    requires
        old(st).wf(),
        keys_unique(f@),
        now <= CLOCK_LIMIT,
    ensures
        final(st).wf(),
        final(st)@ == refresh_grant_spec(old(st)@, table_map(f@), now, access@, refresh@).0,
        replies(r.0, refresh_grant_spec(old(st)@, table_map(f@), now, access@, refresh@).1),
        r.1 == refresh_grant_spec(old(st)@, table_map(f@), now, access@, refresh@).2,
{
    let rt = form_get(f, "refresh_token");
    collect_expired(st, now);
    let ghost g = st@;
    let t = match table_remove(&mut st.refresh, rt.as_str()) {
        Some(t) => t,
        None => {
            assert(table_map(st.refresh@) =~= g.refresh);
            return (error_resp(400, "invalid_grant", "refresh_token inválido ou expirado"), false);
        },
    };
    let client_id = form_get(f, "client_id");
    if !client_id.as_str().is_empty() && !same(client_id.as_str(), t.client_id.as_str()) {
        return (error_resp(400, "invalid_grant", "client_id não confere"), false);
    }
    let resp = issue(st, t.client_id.as_str(), now, access, refresh);
    (resp, true)
}

/// Exchanges a code (with its PKCE verifier) or a refresh token for a new token pair.
pub fn token(st: &mut State, text: &str, now: u64, access: String, refresh: String) -> (r: (HttpResp, bool))
    requires
        old(st).wf(),
        form_safe(text@),
        now <= CLOCK_LIMIT,
    ensures
        final(st).wf(),
        final(st)@ == token_spec(old(st)@, text@, now, access@, refresh@).0,
        replies(r.0, token_spec(old(st)@, text@, now, access@, refresh@).1),
        r.1 == token_spec(old(st)@, text@, now, access@, refresh@).2,
{
    let f = parse_form(text);
    let grant = form_get(&f, "grant_type");
    if same(grant.as_str(), "authorization_code") {
        code_grant(st, &f, now, access, refresh)
    } else if same(grant.as_str(), "refresh_token") {
        refresh_grant(st, &f, now, access, refresh)
    } else {
        (error_resp(400, "unsupported_grant_type", "use authorization_code ou refresh_token"), false)
    }
}

// ───────────────────────── routing ─────────────────────────

/// The path without its query.
pub open spec fn path_part(p: Seq<char>) -> Seq<char> {
    match first_index(p, seq!['?']) {
        Some(i) => p.take(i),
        None => p,
    }
}

/// The query: what follows the first `?`, empty when there is none.
pub open spec fn query_part(p: Seq<char>) -> Seq<char> {
    match first_index(p, seq!['?']) {
        Some(i) => p.skip(i + 1),
        None => seq![],
    }
}

pub open spec fn is_cors_path(p: Seq<char>) -> bool {
    ||| p == "/register"@
    ||| p == "/token"@
    ||| p == "/authorize"@
    ||| p == "/.well-known/oauth-authorization-server"@
    ||| p == "/.well-known/oauth-protected-resource"@
}

/// A request that the form decoder can read without panicking: the query of
/// `GET /authorize`, the body of `POST /authorize` and `POST /token`.
pub open spec fn request_decodable(method: Seq<char>, path: Seq<char>, body: Seq<u8>) -> bool {
    let p = path_part(path);
    if method == "GET"@ && p == "/authorize"@ {
        form_safe(query_part(path))
    } else if method == "POST"@ && (p == "/authorize"@ || p == "/token"@) {
        form_safe(utf8_lossy_of(body))
    } else {
        true
    }
}

/// What the server does with a request: the state after and, for an OAuth
/// path, the reply with the flags (save the state, the password was wrong).
/// `None` means the path is not OAuth's: the proxy forwards the request.
/// `a` and `b` are fresh secrets: the client identifier, the code, or the token pair.
pub open spec fn handle_spec(
    s: StateV,
    method: Seq<char>,
    path: Seq<char>,
    body: Seq<u8>,
    issuer: Seq<char>,
    now: u64,
    a: Seq<char>,
    b: Seq<char>,
) -> (StateV, Option<(Reply, bool, bool)>) {
    let p = path_part(path);
    if method == "OPTIONS"@ && is_cors_path(p) {
        (s, Some((Reply::Empty, false, false)))
    } else if method == "GET"@ && (p == "/.well-known/oauth-protected-resource"@ || p
        == "/.well-known/oauth-protected-resource/mcp"@) {
        (s, Some((Reply::Json(200, resource_doc(issuer)), false, false)))
    } else if method == "GET"@ && (p == "/.well-known/oauth-authorization-server"@ || p
        == "/.well-known/openid-configuration"@) {
        (s, Some((Reply::Json(200, server_doc(issuer)), false, false)))
    } else if method == "POST"@ && p == "/register"@ {
        let r = register_spec(s, body, now, a);
        (r.0, Some((r.1, r.2, false)))
    } else if method == "GET"@ && p == "/authorize"@ {
        (s, Some((authorize_get_spec(s, query_part(path)), false, false)))
    } else if method == "POST"@ && p == "/authorize"@ {
        let r = submit_spec(s, utf8_lossy_of(body), now, a);
        (r.0, Some((r.1, r.2, r.3)))
    } else if method == "POST"@ && p == "/token"@ {
        let r = token_spec(s, utf8_lossy_of(body), now, a, b);
        (r.0, Some((r.1, r.2, false)))
    } else if p == "/register"@ || p == "/authorize"@ || p == "/token"@ {
        (s, Some((Reply::Json(405, error_doc("invalid_request"@, "método não suportado"@)), false, false)))
    } else {
        (s, None)
    }
}

/// The answer to an OAuth request, with what the caller does besides sending it.
pub struct Handled {
    pub response: HttpResp,
    /// The state changed in a way that is kept on disk.
    pub save: bool,
    /// A consent form came with a wrong password (the caller slows down).
    pub wrong_password: bool,
}

pub open spec fn handled_as(r: Option<Handled>, out: Option<(Reply, bool, bool)>) -> bool {
    match (r, out) {
        (None, None) => true,
        (Some(h), Some((rep, save, wrong))) => replies(h.response, rep) && h.save == save && h.wrong_password == wrong,
        _ => false,
    }
}

fn chars_is(c: &[char], lit: &str) -> (r: bool)
    ensures
        r == (c@ == lit@),
{
    let l = chars_of(lit);
    chars_equal(c, l.as_slice())
}

fn split_path(path: &str) -> (r: (Vec<char>, String))
    ensures
        r.0@ == path_part(path@),
        r.1@ == query_part(path@),
{
    let c = chars_of(path);
    let q = vec!['?'];
    assert(q@ =~= seq!['?']);
    proof {
        lemma_first_index_occurs(path@, seq!['?']);
    }
    match find_chars(c.as_slice(), q.as_slice()) {
        Some(i) => {
            let n = c.len();
            let before = slice_chars(c.as_slice(), 0, i);
            let after = slice_chars(c.as_slice(), i + 1, n);
            assert(before@ =~= path@.take(i as int));
            assert(after@ =~= path@.skip(i + 1));
            (before, string_of(after.as_slice()))
        },
        None => (c, String::new()),
    }
}

fn reply(response: HttpResp, save: bool, wrong_password: bool) -> (r: Option<Handled>)
    ensures
        r matches Some(h) && h.response == response && h.save == save && h.wrong_password == wrong_password,
{
    Some(Handled { response, save, wrong_password })
}

/// Answers a request on an OAuth path; `None` for any other path.
pub fn handle_request(
    st: &mut State,
    req: &HttpReq,
    issuer: &str,
    now: u64,
    a: String,
    b: String,
) -> (r: Option<Handled>)
    requires
        old(st).wf(),
        now <= CLOCK_LIMIT,
        request_decodable(req.method@, req.path@, req.body@),
    ensures
        final(st).wf(),
        final(st)@ == handle_spec(old(st)@, req.method@, req.path@, req.body@, issuer@, now, a@, b@).0,
        handled_as(r, handle_spec(old(st)@, req.method@, req.path@, req.body@, issuer@, now, a@, b@).1),
{
    let (p, query) = split_path(req.path);
    let p = p.as_slice();
    let m = chars_of(req.method);
    let m = m.as_slice();
    let get = chars_is(m, "GET");
    let post = chars_is(m, "POST");
    let is_register = chars_is(p, "/register");
    let is_token = chars_is(p, "/token");
    let is_authorize = chars_is(p, "/authorize");
    let is_as_meta = chars_is(p, "/.well-known/oauth-authorization-server");
    let is_pr_meta = chars_is(p, "/.well-known/oauth-protected-resource");
    if chars_is(m, "OPTIONS") && (is_register || is_token || is_authorize || is_as_meta || is_pr_meta) {
        return reply(empty_resp(), false, false);
    }
    if get && (is_pr_meta || chars_is(p, "/.well-known/oauth-protected-resource/mcp")) {
        return reply(json_resp(200, &resource_metadata(issuer)), false, false);
    }
    if get && (is_as_meta || chars_is(p, "/.well-known/openid-configuration")) {
        return reply(json_resp(200, &server_metadata(issuer)), false, false);
    }
    if post && is_register {
        let (resp, save) = register(st, req.body, now, a);
        return reply(resp, save, false);
    }
    if get && is_authorize {
        return reply(authorize_get(st, query.as_str()), false, false);
    }
    if post && is_authorize {
        let text = from_utf8_lossy(req.body);
        let (resp, save, wrong) = authorize_submit(st, text.as_str(), now, a);
        return reply(resp, save, wrong);
    }
    if post && is_token {
        let text = from_utf8_lossy(req.body);
        let (resp, save) = token(st, text.as_str(), now, a, b);
        return reply(resp, save, false);
    }
    if is_register || is_authorize || is_token {
        return reply(error_resp(405, "invalid_request", "método não suportado"), false, false);
    }
    None
}

/// Can the form decoder read this request without panicking?
pub fn request_is_decodable(req: &HttpReq) -> (r: bool)
    ensures
        r == request_decodable(req.method@, req.path@, req.body@),
{
    let (p, query) = split_path(req.path);
    let p = p.as_slice();
    let m = chars_of(req.method);
    let m = m.as_slice();
    let get = chars_is(m, "GET");
    let post = chars_is(m, "POST");
    let is_authorize = chars_is(p, "/authorize");
    if get && is_authorize {
        form_is_safe(query.as_str())
    } else if post && (is_authorize || chars_is(p, "/token")) {
        let text = from_utf8_lossy(req.body);
        form_is_safe(text.as_str())
    } else {
        true
    }
}

// ───────────────────────── client metadata documents ─────────────────────────

/// A client identifier that names a Client ID Metadata Document: an https URL
/// shorter than 512 bytes.
pub open spec fn cimd_id(client_id: Seq<char>) -> bool {
    starts_with(client_id, "https://"@) && encode_utf8(client_id).len() < 512
}

pub fn is_cimd_client_id(client_id: &str) -> (r: bool)
    ensures
        r == cimd_id(client_id@),
{
    let b = bytes_of(client_id);
    str_starts_with(client_id, "https://") && b.len() < 512
}

/// The `client_id` that a consent request (`GET` or `POST /authorize`) names.
pub open spec fn consent_client(method: Seq<char>, path: Seq<char>, body: Seq<u8>) -> Option<Seq<char>> {
    let p = path_part(path);
    if method == "GET"@ && p == "/authorize"@ {
        Some(field(form_map(query_part(path)), "client_id"@))
    } else if method == "POST"@ && p == "/authorize"@ {
        Some(field(form_map(utf8_lossy_of(body)), "client_id"@))
    } else {
        None
    }
}

/// The metadata document to fetch before the request is handled: that of an
/// unregistered client whose identifier is a metadata URL.
pub open spec fn cimd_target(s: StateV, method: Seq<char>, path: Seq<char>, body: Seq<u8>) -> Option<Seq<char>> {
    if !request_decodable(method, path, body) {
        None
    } else {
        match consent_client(method, path, body) {
            Some(id) => if !s.clients.dom().contains(id) && cimd_id(id) {
                Some(id)
            } else {
                None
            },
            None => None,
        }
    }
}

pub fn find_metadata_target(st: &State, req: &HttpReq) -> (r: Option<String>)
    requires
        st.wf(),
    ensures
        match r {
            Some(id) => cimd_target(st@, req.method@, req.path@, req.body@) == Some(id@),
            None => cimd_target(st@, req.method@, req.path@, req.body@) is None,
        },
{
    if !request_is_decodable(req) {
        return None;
    }
    let (p, query) = split_path(req.path);
    let p = p.as_slice();
    let m = chars_of(req.method);
    let m = m.as_slice();
    if !chars_is(p, "/authorize") {
        return None;
    }
    let id = if chars_is(m, "GET") {
        let f = parse_form(query.as_str());
        form_get(&f, "client_id")
    } else if chars_is(m, "POST") {
        let text = from_utf8_lossy(req.body);
        let f = parse_form(text.as_str());
        form_get(&f, "client_id")
    } else {
        return None;
    };
    match table_get(&st.clients, id.as_str()) {
        Some(_) => None,
        None => {
            if is_cimd_client_id(id.as_str()) {
                Some(id)
            } else {
                None
            }
        },
    }
}

/// The client that a fetched metadata document describes: the answer must be
/// `200`, the document's `client_id` must be the URL itself, and it must list
/// at least one redirect URI. The name defaults to the URL, cut to 80 characters.
pub open spec fn metadata_client(client_id: Seq<char>, status: u16, body: Seq<char>, now: u64) -> Option<ClientV> {
    if !cimd_id(client_id) || status != 200 {
        None
    } else {
        match json_parse_of(encode_utf8(body)) {
            None => None,
            Some(v) => if json_get_str(v, "client_id"@) != Some(client_id) {
                None
            } else {
                match json_get_array(v, "redirect_uris"@) {
                    None => None,
                    Some(a) => {
                        let uris = json_strings_of(a);
                        if uris.len() == 0 {
                            None
                        } else {
                            Some(ClientV { client_name: doc_name(v, client_id), redirect_uris: uris, created: now })
                        }
                    },
                }
            },
        }
    }
}

/// Registers the client of a fetched metadata document, if the document is valid.
pub fn register_metadata(st: &mut State, client_id: &str, status: u16, body: &str, now: u64) -> (r: bool)
    requires
        old(st).wf(),
    ensures
        final(st).wf(),
        r == metadata_client(client_id@, status, body@, now) is Some,
        match metadata_client(client_id@, status, body@, now) {
            Some(c) => final(st)@ == (StateV { clients: old(st)@.clients.insert(client_id@, c), ..old(st)@ }),
            None => final(st)@ == old(st)@,
        },
{
    if !is_cimd_client_id(client_id) || status != 200 {
        return false;
    }
    let bytes = bytes_of(body);
    let v = match json_parse(bytes.as_slice()) {
        Some(v) => v,
        None => {
            return false;
        },
    };
    match get_str(&v, "client_id") {
        Some(id) => {
            if !same(id.as_str(), client_id) {
                return false;
            }
        },
        None => {
            return false;
        },
    }
    let uris = match get_array(&v, "redirect_uris") {
        Some(a) => strings_of(a),
        None => {
            return false;
        },
    };
    if uris.len() == 0 {
        return false;
    }
    let name = match get_str(&v, "client_name") {
        Some(n) => first_chars(n.as_str(), 80),
        None => first_chars(client_id, 80),
    };
    let client = Client { client_name: name, redirect_uris: uris, created: now };
    assert(client@.redirect_uris =~= string_views(uris@));
    table_insert(&mut st.clients, client_id.to_owned(), client);
    true
}
} // verus!
