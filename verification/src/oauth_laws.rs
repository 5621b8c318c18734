use vstd::prelude::*;
use crate::oauth::{StateV, access_valid, gc_state, password_hash, empty_state, live_access_count, live_tokens, ACCESS_TTL_SECS, CLOCK_LIMIT};
use crate::endpoints::{
    Reply, field, handle_spec, token_spec, submit_spec, pkce_ok, redirect_location, code_grant_spec,
    refresh_grant_spec, register_spec, authorize_get_spec,
};
use crate::redirect::redirect_accepted;
use crate::form::form_map;

verus! {

/// An authorization code works once: after any `authorization_code` request
/// naming it, the code is gone, whatever the answer was.
pub proof fn code_is_single_use(s: StateV, text: Seq<char>, now: u64, a: Seq<char>, b: Seq<char>)
    requires
        field(form_map(text), "grant_type"@) == "authorization_code"@,
    ensures
        !token_spec(s, text, now, a, b).0.codes.dom().contains(field(form_map(text), "code"@)),
{
}

/// A refresh token works once: after a `refresh_token` request naming it, it is
/// gone, unless the fresh refresh token happens to be the same string.
pub proof fn refresh_token_rotates(s: StateV, text: Seq<char>, now: u64, a: Seq<char>, b: Seq<char>)
    requires
        field(form_map(text), "grant_type"@) == "refresh_token"@,
        b != field(form_map(text), "refresh_token"@),
    ensures
        !token_spec(s, text, now, a, b).0.refresh.dom().contains(field(form_map(text), "refresh_token"@)),
{
    reveal_strlit("authorization_code");
    reveal_strlit("refresh_token");
    assert("authorization_code"@[0] != "refresh_token"@[0]);
}

/// Tokens come out of a code only with the PKCE verifier of that code: a
/// successful `authorization_code` exchange names a live code whose challenge
/// is base64url(SHA-256(verifier)), for the client that asked (if it says).
pub proof fn code_exchange_needs_pkce(s: StateV, text: Seq<char>, now: u64, a: Seq<char>, b: Seq<char>)
    requires
        field(form_map(text), "grant_type"@) == "authorization_code"@,
        token_spec(s, text, now, a, b).2,
    ensures
        ({
            let f = form_map(text);
            let code = field(f, "code"@);
            &&& s.codes.dom().contains(code)
            &&& s.codes[code].expires > now
            &&& pkce_ok(field(f, "code_verifier"@), s.codes[code].code_challenge)
            &&& (field(f, "client_id"@).len() > 0 ==> field(f, "client_id"@) == s.codes[code].client_id)
        }),
{
}

/// What a successful token request returns works: the access token validates
/// until its lifetime is over, and the refresh token is stored.
pub proof fn issued_access_token_validates(
    s: StateV,
    text: Seq<char>,
    now: u64,
    a: Seq<char>,
    b: Seq<char>,
    later: u64,
)
    requires
        now <= CLOCK_LIMIT,
        token_spec(s, text, now, a, b).2,
        later < now + ACCESS_TTL_SECS,
    ensures
        access_valid(token_spec(s, text, now, a, b).0, a, later),
        token_spec(s, text, now, a, b).0.refresh.dom().contains(b),
        token_spec(s, text, now, a, b).1 is Json,
{
}

/// A consent form with a wrong password changes nothing and redirects nowhere.
pub proof fn wrong_password_changes_nothing(s: StateV, text: Seq<char>, now: u64, code: Seq<char>)
    requires
        submit_spec(s, text, now, code).3,
    ensures
        submit_spec(s, text, now, code).0 == s,
        !(submit_spec(s, text, now, code).1 is Redirect),
        !submit_spec(s, text, now, code).2,
{
}

/// A code is issued only to a form that carries the authorization password,
/// and the redirect carries that code.
pub proof fn code_needs_password(s: StateV, text: Seq<char>, now: u64, code: Seq<char>)
    requires
        submit_spec(s, text, now, code).1 is Redirect,
    ensures
        s.password_sha256.len() > 0,
        password_hash(field(form_map(text), "password"@)) == s.password_sha256,
        submit_spec(s, text, now, code).0.codes.dom().contains(code),
        submit_spec(s, text, now, code).1 == Reply::Redirect(
            redirect_location(field(form_map(text), "redirect_uri"@), code, field(form_map(text), "state"@)),
        ),
{
}

/// Only `POST` requests change the server's state; a request on a path that
/// is not OAuth's is left alone.
pub proof fn only_posts_change_state(
    s: StateV,
    method: Seq<char>,
    path: Seq<char>,
    body: Seq<u8>,
    issuer: Seq<char>,
    now: u64,
    a: Seq<char>,
    b: Seq<char>,
)
    ensures
        method != "POST"@ ==> handle_spec(s, method, path, body, issuer, now, a, b).0 == s,
        handle_spec(s, method, path, body, issuer, now, a, b).1 is None ==> handle_spec(
            s,
            method,
            path,
            body,
            issuer,
            now,
            a,
            b,
        ).0 == s,
{
}

/// After everything is revoked no token validates, and the password stays.
pub proof fn revoked_tokens_fail(s: StateV, token: Seq<char>, now: u64)
    ensures
        !access_valid(StateV { password_sha256: s.password_sha256, ..empty_state() }, token, now),
        (StateV { password_sha256: s.password_sha256, ..empty_state() }).password_sha256 == s.password_sha256,
{
}

/// Collecting expired entries keeps exactly the access tokens that are still valid.
pub proof fn collection_keeps_valid_tokens(s: StateV, token: Seq<char>, now: u64, later: u64)
    requires
        now <= later,
    ensures
        access_valid(gc_state(s, now), token, later) == access_valid(s, token, later),
{
}


/// The server after a run of registrations, each a body, a clock reading and
/// the fresh client identifier, in order.
pub open spec fn registered_all(s: StateV, regs: Seq<(Seq<u8>, u64, Seq<char>)>) -> StateV
    decreases regs.len(),
{
    if regs.len() == 0 {
        s
    } else {
        let r = regs.last();
        register_spec(registered_all(s, regs.drop_last()), r.0, r.1, r.2).0
    }
}

/// Every registration of the run succeeds.
pub open spec fn all_accepted(s: StateV, regs: Seq<(Seq<u8>, u64, Seq<char>)>) -> bool
    decreases regs.len(),
{
    if regs.len() == 0 {
        true
    } else {
        let r = regs.last();
        all_accepted(s, regs.drop_last()) && register_spec(registered_all(s, regs.drop_last()), r.0, r.1, r.2).2
    }
}

/// The identifiers of a run of registrations.
pub open spec fn reg_ids(regs: Seq<(Seq<u8>, u64, Seq<char>)>) -> Set<Seq<char>> {
    Set::new(|id: Seq<char>| exists|i: int| 0 <= i < regs.len() && #[trigger] regs[i].2 == id)
}

/// Each successful registration adds one client: after `k` accepted
/// registrations with identifiers that differ from each other and from the
/// clients already there, the server holds `k` more clients, those and the
/// old ones. (From a server with none, that is `k`.)
pub proof fn registrations_add_one_client_each(s: StateV, regs: Seq<(Seq<u8>, u64, Seq<char>)>)
    requires
        s.clients.dom().finite(),
        all_accepted(s, regs),
        forall|i: int, j: int| 0 <= i < j < regs.len() ==> #[trigger] regs[i].2 != #[trigger] regs[j].2,
        forall|i: int| 0 <= i < regs.len() ==> !s.clients.dom().contains(#[trigger] regs[i].2),
    ensures
        registered_all(s, regs).clients.dom() == s.clients.dom().union(reg_ids(regs)),
        registered_all(s, regs).clients.dom().finite(),
        registered_all(s, regs).clients.dom().len() == s.clients.dom().len() + regs.len(),
    decreases regs.len(),
{
    if regs.len() == 0 {
        assert(reg_ids(regs) =~= Set::<Seq<char>>::empty());
        assert(s.clients.dom().union(reg_ids(regs)) =~= s.clients.dom());
    } else {
        let pre = regs.drop_last();
        let r = regs.last();
        assert forall|i: int, j: int| 0 <= i < j < pre.len() implies #[trigger] pre[i].2 != #[trigger] pre[j].2 by {
            assert(pre[i] == regs[i] && pre[j] == regs[j]);
        }
        assert forall|i: int| 0 <= i < pre.len() implies !s.clients.dom().contains(#[trigger] pre[i].2) by {
            assert(pre[i] == regs[i]);
        }
        registrations_add_one_client_each(s, pre);
        let before = registered_all(s, pre);
        assert(!reg_ids(pre).contains(r.2)) by {
            if reg_ids(pre).contains(r.2) {
                let i = choose|i: int| 0 <= i < pre.len() && #[trigger] pre[i].2 == r.2;
                assert(regs[i].2 == regs[regs.len() - 1].2);
            }
        }
        assert(!s.clients.dom().contains(r.2)) by {
            assert(regs[regs.len() - 1] == r);
        }
        assert(!before.clients.dom().contains(r.2));
        assert(registered_all(s, regs).clients.dom() =~= before.clients.dom().insert(r.2));
        assert(reg_ids(regs) =~= reg_ids(pre).insert(r.2)) by {
            assert forall|id: Seq<char>| reg_ids(regs).contains(id) implies #[trigger] reg_ids(pre).insert(r.2).contains(id) by {
                let i = choose|i: int| 0 <= i < regs.len() && #[trigger] regs[i].2 == id;
                if i < regs.len() - 1 {
                    assert(pre[i] == regs[i]);
                }
            }
            assert forall|id: Seq<char>| #[trigger] reg_ids(pre).insert(r.2).contains(id) implies reg_ids(regs).contains(id) by {
                if id == r.2 {
                    assert(regs[regs.len() - 1].2 == id);
                } else {
                    let i = choose|i: int| 0 <= i < pre.len() && #[trigger] pre[i].2 == id;
                    assert(regs[i] == pre[i]);
                }
            }
        }
        assert(s.clients.dom().union(reg_ids(regs)) =~= s.clients.dom().union(reg_ids(pre)).insert(r.2));
    }
}

/// A successful token request, of either grant, adds exactly one access
/// token that is live at the request's clock reading (the new one; a refresh
/// leaves the older access token in place), given that the fresh token is new.
pub proof fn token_grant_adds_one_live_token(s: StateV, text: Seq<char>, now: u64, a: Seq<char>, b: Seq<char>)
    requires
        now <= CLOCK_LIMIT,
        s.access.dom().finite(),
        !s.access.dom().contains(a),
        token_spec(s, text, now, a, b).2,
    ensures
        live_access_count(token_spec(s, text, now, a, b).0, now) == live_access_count(s, now) + 1,
{
    let t = token_spec(s, text, now, a, b).0;
    let live = live_tokens(s.access, now);
    assert(live.dom().subset_of(s.access.dom()));
    vstd::set_lib::lemma_set_subset_finite(s.access.dom(), live.dom());
    assert(t.access == live.insert(a, t.access[a]));
    assert(live_tokens(t.access, now) =~= live.insert(a, t.access[a]));
    assert(!live.dom().contains(a));
    assert(live.insert(a, t.access[a]).dom() =~= live.dom().insert(a));
}

/// After everything is revoked there are no clients and no live tokens.
pub proof fn revoked_server_counts_nothing(s: StateV, now: u64)
    ensures
        (StateV { password_sha256: s.password_sha256, ..empty_state() }).clients.dom().len() == 0,
        live_access_count(StateV { password_sha256: s.password_sha256, ..empty_state() }, now) == 0,
{
    assert(live_tokens(Map::<Seq<char>, crate::oauth::TokenV>::empty(), now).dom() =~= Set::<Seq<char>>::empty());
}


/// A refresh token serves only the client it was issued to: a successful
/// `refresh_token` grant names a live refresh token, a `client_id` in the
/// form (when there is one) is that token's client, and the new pair is
/// issued to that client.
pub proof fn refresh_keeps_the_client(s: StateV, text: Seq<char>, now: u64, a: Seq<char>, b: Seq<char>)
    requires
        now <= CLOCK_LIMIT,
        field(form_map(text), "grant_type"@) == "refresh_token"@,
        token_spec(s, text, now, a, b).2,
    ensures
        ({
            let f = form_map(text);
            let rt = field(f, "refresh_token"@);
            let t = token_spec(s, text, now, a, b).0;
            &&& s.refresh.dom().contains(rt)
            &&& s.refresh[rt].expires > now
            &&& (field(f, "client_id"@).len() > 0 ==> field(f, "client_id"@) == s.refresh[rt].client_id)
            &&& t.access[a].client_id == s.refresh[rt].client_id
            &&& t.refresh[b].client_id == s.refresh[rt].client_id
        }),
{
    reveal_strlit("authorization_code");
    reveal_strlit("refresh_token");
    assert("authorization_code"@[0] != "refresh_token"@[0]);
}

/// Another client's name is refused: a `refresh_token` grant whose form
/// names a client other than the token's issues nothing, and the answer is
/// an error.
pub proof fn refresh_for_another_client_is_refused(s: StateV, text: Seq<char>, now: u64, a: Seq<char>, b: Seq<char>)
    requires
        field(form_map(text), "grant_type"@) == "refresh_token"@,
        gc_state(s, now).refresh.dom().contains(field(form_map(text), "refresh_token"@)),
        field(form_map(text), "client_id"@).len() > 0,
        field(form_map(text), "client_id"@) != s.refresh[field(form_map(text), "refresh_token"@)].client_id,
    ensures
        !token_spec(s, text, now, a, b).2,
        token_spec(s, text, now, a, b).0.access == gc_state(s, now).access,
        token_spec(s, text, now, a, b).1 matches Reply::Json(400, _),
{
    reveal_strlit("authorization_code");
    reveal_strlit("refresh_token");
    assert("authorization_code"@[0] != "refresh_token"@[0]);
}

/// The consent page is shown only for PKCE S256: a `200` to
/// `GET /authorize` means the query asked for `response_type=code` with a
/// non-empty challenge and `code_challenge_method=S256`, for a registered
/// client and with a password set; for a registered client and an accepted
/// redirect, any other method gets `400`.
pub proof fn consent_page_needs_s256(s: StateV, query: Seq<char>)
    ensures
        authorize_get_spec(s, query) matches Reply::Html(200, _) ==> {
            let f = form_map(query);
            &&& field(f, "code_challenge_method"@) == "S256"@
            &&& field(f, "response_type"@) == "code"@
            &&& field(f, "code_challenge"@).len() > 0
            &&& s.clients.dom().contains(field(f, "client_id"@))
            &&& s.password_sha256.len() > 0
        },
        ({
            let f = form_map(query);
            s.clients.dom().contains(field(f, "client_id"@)) && redirect_accepted(
                s.clients[field(f, "client_id"@)].redirect_uris,
                field(f, "redirect_uri"@),
            ) && field(f, "code_challenge_method"@) != "S256"@
        }) ==> authorize_get_spec(s, query) matches Reply::Html(400, _),
{
}

} // verus!
