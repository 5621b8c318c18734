use vstd::prelude::*;
use crate::text::{
    chars_of, string_of, find_chars, slice_chars, to_lowercase, lowercase_of, first_index,
    last_index, lemma_first_index_occurs, lemma_last_index, occurs_at, all_digits, is_digit, chars_equal,
    lemma_first_index,
};

verus! {

pub open spec fn is_bracket(c: char) -> bool {
    c == '[' || c == ']'
}

pub open spec fn bracket_prefix_len(s: Seq<char>) -> nat
    decreases s.len(),
{
    if s.len() > 0 && is_bracket(s[0]) {
        1 + bracket_prefix_len(s.drop_first())
    } else {
        0
    }
}

pub open spec fn bracket_suffix_len(s: Seq<char>) -> nat
    decreases s.len(),
{
    if s.len() > 0 && is_bracket(s.last()) {
        1 + bracket_suffix_len(s.drop_last())
    } else {
        0
    }
}

/// `trim_matches(|c| c == '[' || c == ']')`: brackets removed at both ends.
pub open spec fn trim_brackets(s: Seq<char>) -> Seq<char> {
    let a = s.subrange(bracket_prefix_len(s) as int, s.len() as int);
    a.subrange(0, a.len() - bracket_suffix_len(a))
}

proof fn lemma_bracket_prefix_bound(s: Seq<char>)
    ensures
        bracket_prefix_len(s) <= s.len(),
    decreases s.len(),
{
    if s.len() > 0 && is_bracket(s[0]) {
        lemma_bracket_prefix_bound(s.drop_first());
    }
}

proof fn lemma_bracket_suffix_bound(s: Seq<char>)
    ensures
        bracket_suffix_len(s) <= s.len(),
    decreases s.len(),
{
    if s.len() > 0 && is_bracket(s.last()) {
        lemma_bracket_suffix_bound(s.drop_last());
    }
}

fn trim_brackets_chars(s: &[char]) -> (r: Vec<char>)
    ensures
        r@ == trim_brackets(s@),
{
    let mut i: usize = 0;
    assert(s@.subrange(0, s@.len() as int) =~= s@);
    while i < s.len() && (s[i] == '[' || s[i] == ']')
        invariant
            i <= s@.len(),
            bracket_prefix_len(s@) == i + bracket_prefix_len(s@.subrange(i as int, s@.len() as int)),
        decreases s@.len() - i,
    {
        assert(s@.subrange(i as int, s@.len() as int).drop_first() =~= s@.subrange(i + 1, s@.len() as int));
        i = i + 1;
    }
    proof {
        lemma_bracket_prefix_bound(s@);
    }
    let a = slice_chars(s, i, s.len());
    let mut j: usize = a.len();
    assert(a@.subrange(0, a@.len() as int) =~= a@);
    while j > 0 && (a[j - 1] == '[' || a[j - 1] == ']')
        invariant
            j <= a@.len(),
            bracket_suffix_len(a@) == (a@.len() - j) + bracket_suffix_len(a@.subrange(0, j as int)),
        decreases j,
    {
        assert(a@.subrange(0, j as int).drop_last() =~= a@.subrange(0, j - 1));
        j = j - 1;
    }
    proof {
        lemma_bracket_suffix_bound(a@);
    }
    slice_chars(a.as_slice(), 0, j)
}

/// Host and path after `scheme://`: up to the first `/`, path `/` when there is none.
pub open spec fn hostport_path(rest: Seq<char>) -> (Seq<char>, Seq<char>) {
    match first_index(rest, seq!['/']) {
        Some(j) => (rest.subrange(0, j), rest.subrange(j, rest.len() as int)),
        None => (rest, seq!['/']),
    }
}

/// The host without a `:port` made of digits.
pub open spec fn host_of(hostport: Seq<char>) -> Seq<char> {
    match last_index(hostport, seq![':']) {
        Some(k) => if all_digits(hostport.subrange(k + 1, hostport.len() as int)) {
            hostport.subrange(0, k)
        } else {
            hostport
        },
        None => hostport,
    }
}

/// Scheme, host and path of a URL as the redirect comparison reads them:
/// scheme before `://`; host up to the first `/` (path `/` when there is none),
/// without a `:port` made of digits and without brackets; scheme and host
/// lower-cased.
#[verifier::opaque]
pub open spec fn url_parts(u: Seq<char>) -> Option<(Seq<char>, Seq<char>, Seq<char>)> {
    match first_index(u, "://"@) {
        None => None,
        Some(i) => {
            let scheme = u.subrange(0, i);
            let (hostport, path) = hostport_path(u.subrange(i + 3, u.len() as int));
            Some((lowercase_of(scheme), lowercase_of(trim_brackets(host_of(hostport))), path))
        },
    }
}

pub open spec fn is_loopback_host(h: Seq<char>) -> bool {
    h == "localhost"@ || h == "127.0.0.1"@ || h == "::1"@
}

/// A redirect URI is accepted when it is registered verbatim, or when it is a
/// loopback URI (`localhost`, `127.0.0.1`, `[::1]`) and a registered loopback
/// URI has the same scheme and path: the port is ignored (RFC 8252 §7.3).
pub open spec fn redirect_accepted(registered: Seq<Seq<char>>, candidate: Seq<char>) -> bool {
    ||| exists|i: int| 0 <= i < registered.len() && registered[i] == candidate
    ||| match url_parts(candidate) {
        Some((cs, ch, cp)) => is_loopback_host(ch) && exists|i: int|
            0 <= i < registered.len() && match #[trigger] url_parts(registered[i]) {
                Some((rs, rh, rp)) => rs == cs && rp == cp && is_loopback_host(rh),
                None => false,
            },
        None => false,
    }
}

pub fn last_char_index(s: &[char], c: char) -> (r: Option<usize>)
    ensures
        match r {
            Some(k) => last_index(s@, seq![c]) == Some(k as int),
            None => last_index(s@, seq![c]) is None,
        },
{
    let mut k: usize = s.len();
    while k > 0
        invariant
            k <= s@.len(),
            forall|j: int| k <= j ==> !occurs_at(s@, seq![c], j),
        decreases k,
    {
        if s[k - 1] == c {
            proof {
                assert(s@.subrange(k - 1, k as int) =~= seq![c]);
                lemma_last_index(s@, seq![c], k - 1);
            }
            return Some(k - 1);
        }
        proof {
            assert(s@.subrange(k - 1, k as int)[0] == s@[k - 1]);
        }
        k = k - 1;
    }
    proof {
        if exists|i: int| occurs_at(s@, seq![c], i) {
            let i = choose|i: int| occurs_at(s@, seq![c], i);
            assert(occurs_at(s@, seq![c], i));
        }
    }
    None
}

fn all_digit_chars(s: &[char]) -> (r: bool)
    ensures
        r == all_digits(s@),
{
    let mut i: usize = 0;
    while i < s.len()
        invariant
            i <= s@.len(),
            forall|j: int| 0 <= j < i ==> is_digit(s@[j]),
        decreases s@.len() - i,
    {
        if !('0' <= s[i] && s[i] <= '9') {
            return false;
        }
        i = i + 1;
    }
    true
}

pub struct UrlParts {
    pub scheme: String,
    pub host: String,
    pub path: Vec<char>,
}

fn split_hostport(rest: &Vec<char>) -> (r: (Vec<char>, Vec<char>))
    ensures
        (r.0@, r.1@) == hostport_path(rest@),
{
    let slash = vec!['/'];
    assert(slash@ =~= seq!['/']);
    proof {
        lemma_first_index_occurs(rest@, seq!['/']);
    }
    match find_chars(rest.as_slice(), slash.as_slice()) {
        Some(j) => {
            let rn = rest.len();
            (slice_chars(rest.as_slice(), 0, j), slice_chars(rest.as_slice(), j, rn))
        },
        None => (rest.clone(), slash),
    }
}

fn strip_port(hostport: &Vec<char>) -> (r: Vec<char>)
    ensures
        r@ == host_of(hostport@),
{
    match last_char_index(hostport.as_slice(), ':') {
        Some(k) => {
            proof {
                crate::text::lemma_last_index_occurs(hostport@, seq![':']);
            }
            let hn = hostport.len();
            let port = slice_chars(hostport.as_slice(), k + 1, hn);
            if all_digit_chars(port.as_slice()) {
                slice_chars(hostport.as_slice(), 0, k)
            } else {
                hostport.clone()
            }
        },
        None => hostport.clone(),
    }
}

fn split_url(u: &[char]) -> (r: Option<UrlParts>)
    ensures
        match r {
            Some(p) => url_parts(u@) == Some((p.scheme@, p.host@, p.path@)),
            None => url_parts(u@) is None,
        },
{
    reveal(url_parts);
    let sep = vec![':', '/', '/'];
    proof {
        reveal_strlit("://");
        assert(sep@ =~= "://"@);
        lemma_first_index_occurs(u@, "://"@);
    }
    let i = match find_chars(u, sep.as_slice()) {
        Some(i) => i,
        None => return None,
    };
    let n = u.len();
    assert(i + 3 <= n);
    let scheme = slice_chars(u, 0, i);
    let rest = slice_chars(u, i + 3, n);
    let (hostport, path) = split_hostport(&rest);
    let host = strip_port(&hostport);
    let host_t = trim_brackets_chars(host.as_slice());
    let scheme_s = string_of(scheme.as_slice());
    let host_s = string_of(host_t.as_slice());
    let scheme_l = to_lowercase(scheme_s.as_str());
    let host_l = to_lowercase(host_s.as_str());
    Some(UrlParts { scheme: scheme_l, host: host_l, path })
}

fn is_loopback(h: &String) -> (r: bool)
    ensures
        r == is_loopback_host(h@),
{
    let c = chars_of(h.as_str());
    let a = chars_of("localhost");
    let b = chars_of("127.0.0.1");
    let d = chars_of("::1");
    chars_equal(c.as_slice(), a.as_slice()) || chars_equal(c.as_slice(), b.as_slice()) || chars_equal(
        c.as_slice(),
        d.as_slice(),
    )
}

pub open spec fn uri_views(v: Seq<String>) -> Seq<Seq<char>> {
    v.map_values(|s: String| s@)
}

/// Is `candidate` an acceptable redirect for a client that registered `registered`?
pub fn redirect_matches(registered: &[String], candidate: &str) -> (r: bool)
    ensures
        r == redirect_accepted(uri_views(registered@), candidate@),
{
    let ghost rv = uri_views(registered@);
    let cand = candidate.to_owned();
    let mut i: usize = 0;
    while i < registered.len()
        invariant
            i <= registered@.len(),
            rv == uri_views(registered@),
            cand@ == candidate@,
            forall|j: int| 0 <= j < i ==> rv[j] != candidate@,
        decreases registered@.len() - i,
    {
        if registered[i] == cand {
            assert(rv[i as int] == candidate@);
            return true;
        }
        i = i + 1;
    }
    let cc = chars_of(candidate);
    let cp = match split_url(cc.as_slice()) {
        Some(p) => p,
        None => return false,
    };
    if !is_loopback(&cp.host) {
        return false;
    }
    let mut k: usize = 0;
    while k < registered.len()
        invariant
            k <= registered@.len(),
            rv == uri_views(registered@),
            url_parts(candidate@) == Some((cp.scheme@, cp.host@, cp.path@)),
            is_loopback_host(cp.host@),
            forall|j: int| 0 <= j < rv.len() ==> rv[j] != candidate@,
            forall|j: int| 0 <= j < k ==> match #[trigger] url_parts(rv[j]) {
                Some((rs, rh, rp)) => !(rs == cp.scheme@ && rp == cp.path@ && is_loopback_host(rh)),
                None => true,
            },
        decreases registered@.len() - k,
    {
        let rc = chars_of(registered[k].as_str());
        assert(rv[k as int] == registered@[k as int]@);
        match split_url(rc.as_slice()) {
            Some(rp) => {
                if rp.scheme == cp.scheme && chars_equal(rp.path.as_slice(), cp.path.as_slice()) && is_loopback(&rp.host) {
                    assert(match url_parts(rv[k as int]) {
                        Some((rs, rh, rpp)) => rs == cp.scheme@ && rpp == cp.path@ && is_loopback_host(rh),
                        None => false,
                    });
                    return true;
                }
            },
            None => {},
        }
        k = k + 1;
    }
    false
}


// ───────────────────────── the port of a loopback redirect ─────────────────────────

proof fn lemma_scheme_end(u: Seq<char>, scheme: Seq<char>, after: Seq<char>)
    requires
        u == scheme + "://"@ + after,
        forall|j: int| 0 <= j < scheme.len() ==> scheme[j] != ':',
    ensures
        first_index(u, "://"@) == Some(scheme.len() as int),
        u.subrange(scheme.len() as int + 3, u.len() as int) == after,
{
    reveal_strlit("://");
    let s = scheme.len() as int;
    assert(u.subrange(s, s + 3) =~= "://"@);
    assert forall|j: int| 0 <= j < s implies !occurs_at(u, "://"@, j) by {
        if occurs_at(u, "://"@, j) {
            assert(u.subrange(j, j + 3)[0] == u[j]);
            assert(u[j] == scheme[j]);
        }
    }
    lemma_first_index(u, "://"@, s);
    assert(u.subrange(s + 3, u.len() as int) =~= after);
}

proof fn lemma_first_slash(rest: Seq<char>, head: Seq<char>, path: Seq<char>)
    requires
        rest == head + path,
        forall|j: int| 0 <= j < head.len() ==> head[j] != '/',
        path.len() == 0 || path[0] == '/',
    ensures
        hostport_path(rest) == (head, if path.len() == 0 { seq!['/'] } else { path }),
{
    let h = head.len() as int;
    assert forall|j: int| 0 <= j < h implies !occurs_at(rest, seq!['/'], j) by {
        if occurs_at(rest, seq!['/'], j) {
            assert(rest.subrange(j, j + 1)[0] == rest[j]);
            assert(rest[j] == head[j]);
        }
    }
    if path.len() == 0 {
        assert(rest =~= head);
        lemma_first_index_occurs(rest, seq!['/']);
    } else {
        assert(rest.subrange(h, h + 1) =~= seq!['/']);
        lemma_first_index(rest, seq!['/'], h);
        assert(rest.subrange(0, h) =~= head);
        assert(rest.subrange(h, rest.len() as int) =~= path);
    }
}

proof fn lemma_parts_from(u: Seq<char>, scheme: Seq<char>, after: Seq<char>)
    requires
        u == scheme + "://"@ + after,
        forall|j: int| 0 <= j < scheme.len() ==> scheme[j] != ':',
    ensures
        url_parts(u) == Some(
            (
                lowercase_of(scheme),
                lowercase_of(trim_brackets(host_of(hostport_path(after).0))),
                hostport_path(after).1,
            ),
        ),
{
    reveal(url_parts);
    lemma_scheme_end(u, scheme, after);
    assert(u.subrange(0, scheme.len() as int) =~= scheme);
}

proof fn lemma_host_without_port(host: Seq<char>)
    requires
        forall|j: int| 0 <= j < host.len() ==> host[j] != ':',
    ensures
        host_of(host) == host,
{
    crate::text::lemma_last_index_occurs(host, seq![':']);
    if let Some(k) = last_index(host, seq![':']) {
        assert(host.subrange(k, k + 1)[0] == host[k]);
    }
}

proof fn lemma_host_with_port(host: Seq<char>, port: Seq<char>)
    requires
        forall|j: int| 0 <= j < host.len() ==> host[j] != ':',
        all_digits(port),
    ensures
        host_of(host + seq![':'] + port) == host,
{
    let hp = host + seq![':'] + port;
    let k = host.len() as int;
    assert(hp.subrange(k, k + 1) =~= seq![':']);
    assert forall|j: int| k < j implies !occurs_at(hp, seq![':'], j) by {
        if occurs_at(hp, seq![':'], j) {
            assert(hp.subrange(j, j + 1)[0] == hp[j]);
            assert(hp[j] == port[j - k - 1]);
            assert(is_digit(port[j - k - 1]));
        }
    }
    lemma_last_index(hp, seq![':'], k);
    assert(hp.subrange(k + 1, hp.len() as int) =~= port);
    assert(hp.subrange(0, k) =~= host);
}

/// Inserting `:port` after the host of a URL leaves the parts that redirect
/// URIs are compared by unchanged: scheme, host and path read the same.
pub proof fn port_does_not_change_parts(scheme: Seq<char>, host: Seq<char>, port: Seq<char>, path: Seq<char>)
    requires
        forall|j: int| 0 <= j < scheme.len() ==> scheme[j] != ':',
        forall|j: int| 0 <= j < host.len() ==> host[j] != ':' && host[j] != '/',
        port.len() > 0,
        all_digits(port),
        path.len() == 0 || path[0] == '/',
    ensures
        url_parts(scheme + "://"@ + host + ":"@ + port + path) == url_parts(scheme + "://"@ + host + path),
{
    reveal_strlit(":");
    let hp = host + seq![':'] + port;
    assert(":"@ =~= seq![':']);
    assert(scheme + "://"@ + host + path =~= scheme + "://"@ + (host + path));
    assert(scheme + "://"@ + host + ":"@ + port + path =~= scheme + "://"@ + (hp + path));
    lemma_parts_from(scheme + "://"@ + host + path, scheme, host + path);
    lemma_parts_from(scheme + "://"@ + host + ":"@ + port + path, scheme, hp + path);
    assert forall|j: int| 0 <= j < hp.len() implies hp[j] != '/' by {
        if j < host.len() {
            assert(hp[j] == host[j]);
        } else if j > host.len() {
            assert(hp[j] == port[j - host.len() - 1]);
            assert(is_digit(port[j - host.len() - 1]));
        }
    }
    lemma_first_slash(host + path, host, path);
    lemma_first_slash(hp + path, hp, path);
    lemma_host_without_port(host);
    lemma_host_with_port(host, port);
}

/// A loopback redirect URI is accepted on any port (RFC 8252 §7.3): when a
/// registered URI `scheme://host/path` reads as a loopback one, the same URI
/// with `:port` after the host is accepted.
pub proof fn loopback_redirect_any_port(
    registered: Seq<Seq<char>>,
    i: int,
    scheme: Seq<char>,
    host: Seq<char>,
    port: Seq<char>,
    path: Seq<char>,
)
    requires
        0 <= i < registered.len(),
        registered[i] == scheme + "://"@ + host + path,
        url_parts(registered[i]) matches Some((_, h, _)) && is_loopback_host(h),
        forall|j: int| 0 <= j < scheme.len() ==> scheme[j] != ':',
        forall|j: int| 0 <= j < host.len() ==> host[j] != ':' && host[j] != '/',
        port.len() > 0,
        all_digits(port),
        path.len() == 0 || path[0] == '/',
    ensures
        redirect_accepted(registered, scheme + "://"@ + host + ":"@ + port + path),
{
    port_does_not_change_parts(scheme, host, port, path);
    let c = scheme + "://"@ + host + ":"@ + port + path;
    assert(url_parts(c) == url_parts(registered[i]));
    assert(match url_parts(registered[i]) {
        Some((rs, rh, rp)) => url_parts(c) matches Some((cs, ch, cp)) && rs == cs && rp == cp && is_loopback_host(rh)
            && is_loopback_host(ch),
        None => false,
    });
}

} // verus!
