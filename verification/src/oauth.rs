use vstd::prelude::*;
use vstd::utf8::*;
use crate::crypto::{sha256_hex, sha256_of, hex_lower};
use crate::table::{
    keys_unique, table_map, table_get, table_insert, table_remove, table_clear, lemma_table_map_len,
    has_key, lemma_table_map_at,
};
use crate::text::{trim, trim_str, string_of, push_str, chars_of};
use crate::crypto::{b64url, random_token};
use crate::http::HttpReq;
use crate::endpoints::{
    Handled, handle_spec, handled_as, request_decodable, handle_request, request_is_decodable, cimd_target,
    find_metadata_target, metadata_client, register_metadata,
};

verus! {

pub const STATE_FILE: &'static str = "oauth-state.json";
pub const ACCESS_TTL_SECS: u64 = 86400;
pub const REFRESH_TTL_SECS: u64 = 2592000;
pub const CODE_TTL_SECS: u64 = 300;
pub const SCOPE: &'static str = "mcp";

/// The latest clock reading for which every expiry (`now + TTL`) still fits in a `u64`.
pub const CLOCK_LIMIT: u64 = 18446744073706959615;

/// A registered client (dynamic registration or a fetched metadata document).
pub struct Client {
    pub client_name: String,
    pub redirect_uris: Vec<String>,
    pub created: u64,
}

pub struct ClientV {
    pub client_name: Seq<char>,
    pub redirect_uris: Seq<Seq<char>>,
    pub created: u64,
}

impl View for Client {
    type V = ClientV;

    open spec fn view(&self) -> ClientV {
        ClientV {
            client_name: self.client_name@,
            redirect_uris: self.redirect_uris@.map_values(|u: String| u@),
            created: self.created,
        }
    }
}

/// An authorization code waiting to be exchanged.
pub struct AuthCode {
    pub client_id: String,
    pub redirect_uri: String,
    pub code_challenge: String,
    pub expires: u64,
}

pub struct AuthCodeV {
    pub client_id: Seq<char>,
    pub redirect_uri: Seq<char>,
    pub code_challenge: Seq<char>,
    pub expires: u64,
}

impl View for AuthCode {
    type V = AuthCodeV;

    open spec fn view(&self) -> AuthCodeV {
        AuthCodeV {
            client_id: self.client_id@,
            redirect_uri: self.redirect_uri@,
            code_challenge: self.code_challenge@,
            expires: self.expires,
        }
    }
}

/// An access or refresh token.
pub struct Token {
    pub client_id: String,
    pub expires: u64,
}

pub struct TokenV {
    pub client_id: Seq<char>,
    pub expires: u64,
}

impl View for Token {
    type V = TokenV;

    open spec fn view(&self) -> TokenV {
        TokenV { client_id: self.client_id@, expires: self.expires }
    }
}

/// Everything the authorization server keeps: the password hash and four
/// tables keyed by identifier.
pub struct State {
    /// SHA-256 hex of the authorization password; empty when none is set.
    pub password_sha256: String,
    pub clients: Vec<(String, Client)>,
    pub codes: Vec<(String, AuthCode)>,
    pub access: Vec<(String, Token)>,
    pub refresh: Vec<(String, Token)>,
}

pub struct StateV {
    pub password_sha256: Seq<char>,
    pub clients: Map<Seq<char>, ClientV>,
    pub codes: Map<Seq<char>, AuthCodeV>,
    pub access: Map<Seq<char>, TokenV>,
    pub refresh: Map<Seq<char>, TokenV>,
}

impl View for State {
    type V = StateV;

    open spec fn view(&self) -> StateV {
        StateV {
            password_sha256: self.password_sha256@,
            clients: table_map(self.clients@),
            codes: table_map(self.codes@),
            access: table_map(self.access@),
            refresh: table_map(self.refresh@),
        }
    }
}

impl State {
    /// No identifier occurs twice in a table.
    pub open spec fn wf(&self) -> bool {
        &&& keys_unique(self.clients@)
        &&& keys_unique(self.codes@)
        &&& keys_unique(self.access@)
        &&& keys_unique(self.refresh@)
    }

    /// The empty state: no password, no clients, no codes, no tokens.
    pub fn new() -> (r: State)
        ensures
            r.wf(),
            r@ == empty_state(),
    {
        let r = State {
            password_sha256: String::new(),
            clients: Vec::new(),
            codes: Vec::new(),
            access: Vec::new(),
            refresh: Vec::new(),
        };
        assert(r@.clients =~= Map::<Seq<char>, ClientV>::empty());
        assert(r@.codes =~= Map::<Seq<char>, AuthCodeV>::empty());
        assert(r@.access =~= Map::<Seq<char>, TokenV>::empty());
        assert(r@.refresh =~= Map::<Seq<char>, TokenV>::empty());
        r
    }
}

pub open spec fn empty_state() -> StateV {
    StateV {
        password_sha256: Seq::empty(),
        clients: Map::empty(),
        codes: Map::empty(),
        access: Map::empty(),
        refresh: Map::empty(),
    }
}

/// Codes and tokens whose expiry is still ahead of `now`.
pub open spec fn live_codes(m: Map<Seq<char>, AuthCodeV>, now: u64) -> Map<Seq<char>, AuthCodeV> {
    Map::new(|k: Seq<char>| m.dom().contains(k) && m[k].expires > now, |k: Seq<char>| m[k])
}

pub open spec fn live_tokens(m: Map<Seq<char>, TokenV>, now: u64) -> Map<Seq<char>, TokenV> {
    Map::new(|k: Seq<char>| m.dom().contains(k) && m[k].expires > now, |k: Seq<char>| m[k])
}

/// Expired codes and tokens dropped.
pub open spec fn gc_state(s: StateV, now: u64) -> StateV {
    StateV {
        codes: live_codes(s.codes, now),
        access: live_tokens(s.access, now),
        refresh: live_tokens(s.refresh, now),
        ..s
    }
}

/// The stored hash of a password: SHA-256 (lower-case hex) of the password
/// with surrounding whitespace removed.
pub open spec fn password_hash(password: Seq<char>) -> Seq<char> {
    hex_lower(sha256_of(encode_utf8(trim(password))))
}

/// Keeps the entries whose expiry is after `now`.
fn retain_live_codes(t: &mut Vec<(String, AuthCode)>, now: u64)
    requires
        keys_unique(old(t)@),
    ensures
        keys_unique(final(t)@),
        table_map(final(t)@) == live_codes(table_map(old(t)@), now),
{
    let ghost before = t@;
    let mut out: Vec<(String, AuthCode)> = Vec::new();
    let mut i: usize = 0;
    assert(table_map(out@) =~= live_codes(table_map(before.take(0)), now));
    while i < t.len()
        invariant
            t@ == before,
            keys_unique(before),
            i <= before.len(),
            keys_unique(out@),
            table_map(out@) == live_codes(table_map(before.take(i as int)), now),
        decreases before.len() - i,
    {
        let ghost prev = out@;
        if t[i].1.expires > now {
            let k = t[i].0.clone();
            let v = AuthCode {
                client_id: t[i].1.client_id.clone(),
                redirect_uri: t[i].1.redirect_uri.clone(),
                code_challenge: t[i].1.code_challenge.clone(),
                expires: t[i].1.expires,
            };
            table_insert(&mut out, k, v);
        }
        proof {
            lemma_take_step(before, i as int);
            lemma_live_codes_step(before, i as int, now, prev, out@);
        }
        i = i + 1;
    }
    assert(before.take(before.len() as int) =~= before);
    *t = out;
}

proof fn lemma_take_step<V: View>(s: Seq<(String, V)>, i: int)
    requires
        keys_unique(s),
        0 <= i < s.len(),
    ensures
        table_map(s.take(i + 1)) == table_map(s.take(i)).insert(s[i].0@, s[i].1@),
        !table_map(s.take(i)).dom().contains(s[i].0@),
{
    let a = s.take(i);
    let b = s.take(i + 1);
    assert(keys_unique(b));
    assert forall|x: Seq<char>| #![auto] table_map(b).dom().contains(x) == table_map(a).insert(s[i].0@, s[i].1@).dom().contains(x) by {
        if has_key(b, x) {
            let c = choose|c: int| 0 <= c < b.len() && (#[trigger] b[c]).0@ == x;
            if c < i {
                assert(a[c].0@ == x);
            }
        }
        if has_key(a, x) {
            let c = choose|c: int| 0 <= c < a.len() && (#[trigger] a[c]).0@ == x;
            assert(b[c].0@ == x);
        }
        if x == s[i].0@ {
            assert(b[i].0@ == x);
        }
    }
    assert forall|x: Seq<char>| table_map(b).dom().contains(x) implies #[trigger] table_map(b)[x] == table_map(a).insert(s[i].0@, s[i].1@)[x] by {
        let c = choose|c: int| 0 <= c < b.len() && (#[trigger] b[c]).0@ == x;
        lemma_table_map_at(b, c);
        if c < i {
            lemma_table_map_at(a, c);
        }
    }
    assert(table_map(b) =~= table_map(a).insert(s[i].0@, s[i].1@));
    if has_key(a, s[i].0@) {
        let c = choose|c: int| 0 <= c < a.len() && (#[trigger] a[c]).0@ == s[i].0@;
        assert(s[c].0@ == s[i].0@);
    }
}

proof fn lemma_live_codes_step(
    s: Seq<(String, AuthCode)>,
    i: int,
    now: u64,
    prev: Seq<(String, AuthCode)>,
    next: Seq<(String, AuthCode)>,
)
    requires
        keys_unique(s),
        0 <= i < s.len(),
        table_map(prev) == live_codes(table_map(s.take(i)), now),
        table_map(s.take(i + 1)) == table_map(s.take(i)).insert(s[i].0@, s[i].1@),
        !table_map(s.take(i)).dom().contains(s[i].0@),
        s[i].1.expires > now ==> table_map(next) == table_map(prev).insert(s[i].0@, s[i].1@),
        !(s[i].1.expires > now) ==> next == prev,
    ensures
        table_map(next) == live_codes(table_map(s.take(i + 1)), now),
{
    assert(table_map(next) =~= live_codes(table_map(s.take(i + 1)), now));
}

proof fn lemma_live_tokens_step(
    s: Seq<(String, Token)>,
    i: int,
    now: u64,
    prev: Seq<(String, Token)>,
    next: Seq<(String, Token)>,
)
    requires
        keys_unique(s),
        0 <= i < s.len(),
        table_map(prev) == live_tokens(table_map(s.take(i)), now),
        table_map(s.take(i + 1)) == table_map(s.take(i)).insert(s[i].0@, s[i].1@),
        !table_map(s.take(i)).dom().contains(s[i].0@),
        s[i].1.expires > now ==> table_map(next) == table_map(prev).insert(s[i].0@, s[i].1@),
        !(s[i].1.expires > now) ==> next == prev,
    ensures
        table_map(next) == live_tokens(table_map(s.take(i + 1)), now),
{
    assert(table_map(next) =~= live_tokens(table_map(s.take(i + 1)), now));
}

/// Keeps the tokens whose expiry is after `now`.
fn retain_live_tokens(t: &mut Vec<(String, Token)>, now: u64)
    requires
        keys_unique(old(t)@),
    ensures
        keys_unique(final(t)@),
        table_map(final(t)@) == live_tokens(table_map(old(t)@), now),
{
    let ghost before = t@;
    let mut out: Vec<(String, Token)> = Vec::new();
    let mut i: usize = 0;
    assert(table_map(out@) =~= live_tokens(table_map(before.take(0)), now));
    while i < t.len()
        invariant
            t@ == before,
            keys_unique(before),
            i <= before.len(),
            keys_unique(out@),
            table_map(out@) == live_tokens(table_map(before.take(i as int)), now),
        decreases before.len() - i,
    {
        let ghost prev = out@;
        if t[i].1.expires > now {
            let k = t[i].0.clone();
            let v = Token { client_id: t[i].1.client_id.clone(), expires: t[i].1.expires };
            table_insert(&mut out, k, v);
        }
        proof {
            lemma_take_step(before, i as int);
            lemma_live_tokens_step(before, i as int, now, prev, out@);
        }
        i = i + 1;
    }
    assert(before.take(before.len() as int) =~= before);
    *t = out;
}


/// Drops the codes and tokens whose expiry is not after `now`.
pub fn collect_expired(st: &mut State, now: u64)
    requires
        old(st).wf(),
    ensures
        final(st).wf(),
        final(st)@ == gc_state(old(st)@, now),
{
    retain_live_codes(&mut st.codes, now);
    retain_live_tokens(&mut st.access, now);
    retain_live_tokens(&mut st.refresh, now);
}

fn keys_unique_check<V>(t: &Vec<(String, V)>) -> (r: bool)
    ensures
        r == keys_unique(t@),
{
    let mut i: usize = 0;
    while i < t.len()
        invariant
            i <= t@.len(),
            forall|a: int, b: int| 0 <= a < i && 0 <= b < t@.len() && a != b ==> t@[a].0@ != t@[b].0@,
        decreases t@.len() - i,
    {
        let mut j: usize = 0;
        while j < t.len()
            invariant
                i < t@.len(),
                j <= t@.len(),
                forall|a: int, b: int| 0 <= a < i && 0 <= b < t@.len() && a != b ==> t@[a].0@ != t@[b].0@,
                forall|b: int| 0 <= b < j && b != i ==> t@[i as int].0@ != t@[b].0@,
            decreases t@.len() - j,
        {
            if j != i && t[i].0 == t[j].0 {
                return false;
            }
            j = j + 1;
        }
        i = i + 1;
    }
    true
}

/// Number of live tokens, counted over the table.
fn count_live(t: &Vec<(String, Token)>, now: u64) -> (r: usize)
    requires
        keys_unique(t@),
    ensures
        live_tokens(table_map(t@), now).dom().finite(),
        r == live_tokens(table_map(t@), now).dom().len(),
{
    let mut n: usize = 0;
    let mut i: usize = 0;
    proof {
        assert(live_tokens(table_map(t@.take(0)), now).dom() =~= Set::<Seq<char>>::empty());
    }
    while i < t.len()
        invariant
            keys_unique(t@),
            i <= t@.len(),
            n <= i,
            live_tokens(table_map(t@.take(i as int)), now).dom().finite(),
            n == live_tokens(table_map(t@.take(i as int)), now).dom().len(),
        decreases t@.len() - i,
    {
        proof {
            lemma_take_step(t@, i as int);
            let before = live_tokens(table_map(t@.take(i as int)), now);
            let after = live_tokens(table_map(t@.take(i + 1)), now);
            if t@[i as int].1.expires > now {
                assert(after.dom() =~= before.dom().insert(t@[i as int].0@));
            } else {
                assert(after.dom() =~= before.dom());
            }
        }
        if t[i].1.expires > now {
            n = n + 1;
        }
        i = i + 1;
    }
    assert(t@.take(t@.len() as int) =~= t@);
    n
}

/// `token` is an access token whose expiry is after `now`.
pub open spec fn access_valid(s: StateV, token: Seq<char>, now: u64) -> bool {
    s.access.dom().contains(token) && s.access[token].expires > now
}

/// Number of access tokens whose expiry is after `now`.
pub open spec fn live_access_count(s: StateV, now: u64) -> nat {
    live_tokens(s.access, now).dom().len()
}

/// What the authorization server answers at the header of a 401 (RFC 9728 §5.1).
pub open spec fn www_authenticate_text(issuer: Seq<char>) -> Seq<char> {
    "Bearer resource_metadata=\""@ + issuer + "/.well-known/oauth-protected-resource\""@
}

/// Reads the system clock (`SystemTime::now`): seconds since the Unix epoch, 0
/// when the clock is before the epoch. It depends on the time, so nothing is
/// stated of it.
#[verifier::external_body]
pub(crate) fn now() -> u64 {
    std::time::SystemTime::now().duration_since(std::time::UNIX_EPOCH).map(|d| d.as_secs()).unwrap_or(0)
}

/// Why a request was not handled.
#[derive(Debug, PartialEq, Eq, Structural, Clone, Copy)]
pub enum Refusal {
    /// A form in the request holds a `%` escape that would end inside a
    /// multi-byte character.
    Undecodable,
    /// The clock is so late that an expiry would not fit in a `u64`.
    ClockPastLimit,
}

/// A secret as `random_token` makes them: base64url of 32 bytes.
pub open spec fn fresh_token(t: Seq<char>) -> bool {
    exists|d: Seq<u8>| d.len() == 32 && t == b64url(d)
}

/// The OAuth 2.1 authorization server for MCP connectors: dynamic client
/// registration, authorization code with PKCE S256, refresh-token rotation.
pub struct OAuthServer {
    state: State,
}

impl View for OAuthServer {
    type V = StateV;

    closed spec fn view(&self) -> StateV {
        self.state@
    }
}

impl OAuthServer {
    #[verifier::type_invariant]
    spec fn inv(&self) -> bool {
        self.state.wf()
    }

    /// A server with no password, no clients and no tokens.
    pub fn new() -> (r: OAuthServer)
        ensures
            r@ == empty_state(),
    {
        OAuthServer { state: State::new() }
    }

    /// A server over loaded state; refused when a table repeats an identifier.
    pub fn from_state(st: State) -> (r: Option<OAuthServer>)
        ensures
            r is Some <==> st.wf(),
            r matches Some(x) ==> x@ == st@,
    {
        if keys_unique_check(&st.clients) && keys_unique_check(&st.codes) && keys_unique_check(&st.access)
            && keys_unique_check(&st.refresh) {
            Some(OAuthServer { state: st })
        } else {
            None
        }
    }

    /// The state, to be saved.
    pub fn state(&self) -> (r: &State)
        ensures
            r@ == self@,
            r.wf(),
    {
        proof {
            use_type_invariant(self);
        }
        &self.state
    }

    pub fn has_password(&self) -> (r: bool)
        ensures
            r == (self@.password_sha256.len() > 0),
    {
        !self.state.password_sha256.as_str().is_empty()
    }

    /// Sets the authorization password, of which only the SHA-256 is kept.
    pub fn set_password(&mut self, password: &str)
        ensures
            final(self)@ == (StateV { password_sha256: password_hash(password@), ..old(self)@ }),
            final(self)@.password_sha256.len() == 64,
    {
        let t = trim_str(password);
        let ts = string_of(t.as_slice());
        let b = crate::text::bytes_of(ts.as_str());
        let h = sha256_hex(b.as_slice());
        proof {
            use_type_invariant(&*self);
        }
        self.state.password_sha256 = h;
    }

    pub fn clients_count(&self) -> (r: usize)
        ensures
            r == self@.clients.dom().len(),
    {
        proof {
            use_type_invariant(self);
            lemma_table_map_len(self.state.clients@);
        }
        self.state.clients.len()
    }

    /// Number of access tokens not yet expired at `now`.
    pub fn tokens_count_at(&self, now: u64) -> (r: usize)
        ensures
            r == live_access_count(self@, now),
    {
        proof {
            use_type_invariant(self);
        }
        count_live(&self.state.access, now)
    }

    /// Number of access tokens not yet expired.
    pub fn tokens_count(&self) -> (r: usize)
        ensures
            exists|now: u64| r == #[trigger] live_access_count(self@, now),
    {
        let now = now();
        self.tokens_count_at(now)
    }

    /// Revokes every client, code and token; the password stays.
    pub fn revoke_all(&mut self)
        ensures
            final(self)@ == (StateV { password_sha256: old(self)@.password_sha256, ..empty_state() }),
    {
        proof {
            use_type_invariant(&*self);
        }
        let mut st = State::new();
        std::mem::swap(&mut st, &mut self.state);
        table_clear(&mut st.clients);
        table_clear(&mut st.codes);
        table_clear(&mut st.access);
        table_clear(&mut st.refresh);
        self.state = st;
    }

    /// Drops expired codes and tokens.
    pub fn gc(&mut self, now: u64)
        ensures
            final(self)@ == gc_state(old(self)@, now),
    {
        proof {
            use_type_invariant(&*self);
        }
        let mut st = State::new();
        std::mem::swap(&mut st, &mut self.state);
        collect_expired(&mut st, now);
        self.state = st;
    }

    /// Is `token` an access token that has not expired at `now`?
    pub fn validate_access_at(&self, token: &str, now: u64) -> (r: bool)
        ensures
            r == access_valid(self@, token@, now),
    {
        proof {
            use_type_invariant(self);
        }
        match table_get(&self.state.access, token) {
            Some(t) => t.expires > now,
            None => false,
        }
    }

    /// Is `token` a valid access token (checked by the proxy on every request)?
    pub fn validate_access(&self, token: &str) -> (r: bool)
        ensures
            r ==> self@.access.dom().contains(token@),
            exists|now: u64| r == #[trigger] access_valid(self@, token@, now),
    {
        let now = now();
        self.validate_access_at(token, now)
    }

    /// The `WWW-Authenticate` value of a 401 from the protected resource.
    pub fn www_authenticate(issuer: &str) -> (r: String)
        ensures
            r@ == www_authenticate_text(issuer@),
    {
        let mut out: Vec<char> = Vec::new();
        push_str(&mut out, "Bearer resource_metadata=\"");
        push_str(&mut out, issuer);
        push_str(&mut out, "/.well-known/oauth-protected-resource\"");
        string_of(out.as_slice())
    }

    /// Handles a request at clock reading `now`, with the fresh secrets `a`
    /// (client identifier, code or access token) and `b` (refresh token).
    /// `None`: not an OAuth path, the proxy forwards it.
    pub fn handle_at(&mut self, req: &HttpReq, issuer: &str, now: u64, a: String, b: String) -> (r: Option<Handled>)
        requires
            now <= CLOCK_LIMIT,
            request_decodable(req.method@, req.path@, req.body@),
        ensures
            final(self)@ == handle_spec(old(self)@, req.method@, req.path@, req.body@, issuer@, now, a@, b@).0,
            handled_as(r, handle_spec(old(self)@, req.method@, req.path@, req.body@, issuer@, now, a@, b@).1),
    {
        proof {
            use_type_invariant(&*self);
        }
        let mut st = State::new();
        std::mem::swap(&mut st, &mut self.state);
        let r = handle_request(&mut st, req, issuer, now, a, b);
        self.state = st;
        r
    }

    /// Handles a request now, with fresh random secrets. `Ok(None)`: not an
    /// OAuth path, the proxy forwards it. `issuer` is `https://host[:port]`.
    pub fn handle(&mut self, req: &HttpReq, issuer: &str) -> (r: Result<Option<Handled>, Refusal>)
        ensures
            match r {
                Err(Refusal::Undecodable) => !request_decodable(req.method@, req.path@, req.body@) && final(self)@
                    == old(self)@,
                Err(Refusal::ClockPastLimit) => request_decodable(req.method@, req.path@, req.body@) && final(self)@
                    == old(self)@,
                Ok(h) => request_decodable(req.method@, req.path@, req.body@) && exists|now: u64, a: Seq<char>, b: Seq<char>|
                    now <= CLOCK_LIMIT && fresh_token(a) && fresh_token(b) && final(self)@ == (#[trigger] handle_spec(
                        old(self)@,
                        req.method@,
                        req.path@,
                        req.body@,
                        issuer@,
                        now,
                        a,
                        b,
                    )).0 && handled_as(h, handle_spec(old(self)@, req.method@, req.path@, req.body@, issuer@, now, a, b).1),
            },
    {
        if !request_is_decodable(req) {
            return Err(Refusal::Undecodable);
        }
        let now = now();
        if now > CLOCK_LIMIT {
            return Err(Refusal::ClockPastLimit);
        }
        let a = random_token();
        let b = random_token();
        let ghost s0 = self@;
        let r = self.handle_at(req, issuer, now, a, b);
        proof {
            assert(final(self)@ == handle_spec(s0, req.method@, req.path@, req.body@, issuer@, now, a@, b@).0);
        }
        Ok(r)
    }

    /// The metadata document to fetch before handling `req`: that of an
    /// unregistered client whose `client_id` is an https URL.
    pub fn metadata_target(&self, req: &HttpReq) -> (r: Option<String>)
        ensures
            match r {
                Some(id) => cimd_target(self@, req.method@, req.path@, req.body@) == Some(id@),
                None => cimd_target(self@, req.method@, req.path@, req.body@) is None,
            },
    {
        proof {
            use_type_invariant(self);
        }
        find_metadata_target(&self.state, req)
    }

    /// Registers the client that a fetched metadata document describes; `status`
    /// and `body` are the answer of the fetch of `client_id`.
    pub fn register_metadata_client(&mut self, client_id: &str, status: u16, body: &str) -> (r: bool)
        ensures
            r == (exists|now: u64| #[trigger] metadata_client(client_id@, status, body@, now) is Some),
            r ==> exists|now: u64| #[trigger] metadata_client(client_id@, status, body@, now) matches Some(c) && final(self)@ == (StateV {
                clients: old(self)@.clients.insert(client_id@, c),
                ..old(self)@
            }),
            !r ==> final(self)@ == old(self)@,
    {
        let now = now();
        self.register_metadata_at(client_id, status, body, now)
    }

    /// Registers the client that a fetched metadata document describes, created at `now`.
    pub fn register_metadata_at(&mut self, client_id: &str, status: u16, body: &str, now: u64) -> (r: bool)
        ensures
            r == metadata_client(client_id@, status, body@, now) is Some,
            match metadata_client(client_id@, status, body@, now) {
                Some(c) => final(self)@ == (StateV { clients: old(self)@.clients.insert(client_id@, c), ..old(self)@ }),
                None => final(self)@ == old(self)@,
            },
    {
        proof {
            use_type_invariant(&*self);
        }
        let mut st = State::new();
        std::mem::swap(&mut st, &mut self.state);
        let r = register_metadata(&mut st, client_id, status, body, now);
        self.state = st;
        r
    }
}

} // verus!
