use vstd::prelude::*;
use crate::text::{
    chars_of, string_of, push_str, push_chars, slice_chars, starts_with, first_index, occurs_at, lemma_first_index,
    lemma_first_index_occurs, find_chars, split_on, split_chars, lower_seq, ascii_lowercase, starts_with_chars,
    chars_equal, contains_seq,
};

verus! {

// ───────────────────────── finding the end of the head ─────────────────────────

/// The first index at which `needle` occurs in `haystack`; none for an empty
/// needle or a haystack shorter than it.
pub open spec fn subsequence_at(haystack: Seq<u8>, needle: Seq<u8>) -> Option<int> {
    if needle.len() == 0 || haystack.len() < needle.len() {
        None
    } else {
        first_index(haystack, needle)
    }
}

fn bytes_at(h: &[u8], n: &[u8], i: usize) -> (r: bool)
    requires
        i + n@.len() <= h@.len(),
    ensures
        r == occurs_at(h@, n@, i as int),
{
    let hl = h.len();
    let mut k: usize = 0;
    while k < n.len()
        invariant
            i + n@.len() <= h@.len(),
            hl == h@.len(),
            k <= n@.len(),
            forall|m: int| 0 <= m < k ==> h@[i + m] == n@[m],
        decreases n@.len() - k,
    {
        if h[i + k] != n[k] {
            assert(h@.subrange(i as int, i + n@.len())[k as int] != n@[k as int]);
            return false;
        }
        k = k + 1;
    }
    assert(h@.subrange(i as int, i + n@.len()) =~= n@);
    true
}

/// Finds the first occurrence of `needle` in `haystack`.
pub fn find_subsequence(haystack: &[u8], needle: &[u8]) -> (r: Option<usize>)
    ensures
        match r {
            Some(i) => subsequence_at(haystack@, needle@) == Some(i as int),
            None => subsequence_at(haystack@, needle@) is None,
        },
{
    if needle.len() == 0 || haystack.len() < needle.len() {
        return None;
    }
    let hl = haystack.len();
    let last = hl - needle.len();
    let mut i: usize = 0;
    while i <= last
        invariant
            last + needle@.len() == haystack@.len(),
            hl == haystack@.len(),
            last < hl,
            needle@.len() > 0,
            i <= last + 1,
            forall|j: int| 0 <= j < i ==> !occurs_at(haystack@, needle@, j),
        decreases last + 1 - i,
    {
        if bytes_at(haystack, needle, i) {
            proof {
                lemma_first_index(haystack@, needle@, i as int);
            }
            return Some(i);
        }
        i = i + 1;
    }
    proof {
        lemma_first_index_occurs(haystack@, needle@);
        if first_index(haystack@, needle@) is Some {
            let k = first_index(haystack@, needle@)->0;
            assert(occurs_at(haystack@, needle@, k));
        }
    }
    None
}

// ───────────────────────── the password gate ─────────────────────────

/// What becomes of a request head that came through the tunnel.
pub enum GateDecision {
    /// The head has no request line: the connection is closed unanswered.
    Drop,
    /// The path does not start with `/s/<password>`: answered 404.
    NotFound,
    /// The head to send to the MCP.
    Forward(String),
}

/// The answer when the password is not in the path.
pub const NOT_FOUND_RESPONSE: &'static str = "HTTP/1.1 404 Not Found\r\nContent-Length: 0\r\nConnection: close\r\n\r\n";

/// The answer when the MCP cannot be reached.
pub const BAD_GATEWAY_RESPONSE: &'static str = "HTTP/1.1 502 Bad Gateway\r\nContent-Length: 0\r\nConnection: close\r\n\r\n";

/// The `index`-th space-separated part of the request line, or `default`.
pub open spec fn part_or(parts: Seq<Seq<char>>, index: int, default: Seq<char>) -> Seq<char> {
    if 0 <= index < parts.len() {
        parts[index]
    } else {
        default
    }
}

/// Header lines kept: not empty, and not a `Connection` header (any case).
pub open spec fn kept_headers(lines: Seq<Seq<char>>) -> Seq<char>
    decreases lines.len(),
{
    if lines.len() == 0 {
        seq![]
    } else {
        let l = lines.last();
        let rest = kept_headers(lines.drop_last());
        if l.len() == 0 || starts_with(lower_seq(l), "connection:"@) {
            rest
        } else {
            rest + l + "\r\n"@
        }
    }
}

/// The decision, as plain values: `None` to drop, `Some(None)` for 404,
/// `Some(Some(head))` to forward `head`.
pub open spec fn gate_spec(head: Seq<char>, password: Seq<char>) -> Option<Option<Seq<char>>> {
    match first_index(head, "\r\n"@) {
        None => None,
        Some(e) => {
            let parts = split_on(head.take(e), " "@);
            let method = part_or(parts, 0, seq![]);
            let path = part_or(parts, 1, seq![]);
            let version = part_or(parts, 2, "HTTP/1.1"@);
            let prefix = "/s/"@ + password;
            if !(path == prefix || starts_with(path, prefix + "/"@)) {
                Some(None)
            } else {
                let stripped = path.skip(prefix.len() as int);
                let new_path = if stripped.len() == 0 {
                    "/"@
                } else {
                    stripped
                };
                let hdrs = kept_headers(split_on(head.skip(e + 2), "\r\n"@)) + "Connection: close\r\n"@;
                Some(Some(method + " "@ + new_path + " "@ + version + "\r\n"@ + hdrs + "\r\n"@))
            }
        },
    }
}

pub open spec fn decision_view(d: GateDecision) -> Option<Option<Seq<char>>> {
    match d {
        GateDecision::Drop => None,
        GateDecision::NotFound => Some(None),
        GateDecision::Forward(h) => Some(Some(h@)),
    }
}

fn headers_kept(lines: &Vec<Vec<char>>) -> (r: Vec<char>)
    ensures
        r@ == kept_headers(lines@.map_values(|v: Vec<char>| v@)),
{
    let ghost lv = lines@.map_values(|v: Vec<char>| v@);
    let conn = chars_of("connection:");
    let mut out: Vec<char> = Vec::new();
    let mut i: usize = 0;
    while i < lines.len()
        invariant
            i <= lines@.len(),
            lv == lines@.map_values(|v: Vec<char>| v@),
            conn@ == "connection:"@,
            out@ == kept_headers(lv.take(i as int)),
        decreases lines@.len() - i,
    {
        assert(lv.take(i + 1).drop_last() =~= lv.take(i as int));
        assert(lv.take(i + 1).last() == lines@[i as int]@);
        let l = &lines[i];
        if l.len() == 0 {
        } else {
            let low = ascii_lowercase(l.as_slice());
            if !starts_with_chars(low.as_slice(), conn.as_slice()) {
                push_chars(&mut out, l.as_slice());
                push_str(&mut out, "\r\n");
            }
        }
        i = i + 1;
    }
    assert(lv.take(lines@.len() as int) =~= lv);
    out
}

/// Checks `/s/<password>` at the start of the path; strips it and forces
/// `Connection: close` on the head sent to the MCP.
pub fn gate_decide(head: &str, password: &str) -> (r: GateDecision)
    ensures
        decision_view(r) == gate_spec(head@, password@),
{
    let h = chars_of(head);
    let crlf = chars_of("\r\n");
    proof {
        reveal_strlit("\r\n");
        reveal_strlit(" ");
        lemma_first_index_occurs(head@, "\r\n"@);
    }
    let e = match find_chars(h.as_slice(), crlf.as_slice()) {
        Some(e) => e,
        None => {
            return GateDecision::Drop;
        },
    };
    assert(occurs_at(head@, "\r\n"@, e as int));
    let line = slice_chars(h.as_slice(), 0, e);
    assert(line@ =~= head@.take(e as int));
    let space = chars_of(" ");
    let parts = split_chars(line.as_slice(), space.as_slice());
    let ghost pv = parts@.map_values(|v: Vec<char>| v@);
    let method: Vec<char> = if parts.len() > 0 {
        slice_chars(parts[0].as_slice(), 0, parts[0].len())
    } else {
        Vec::new()
    };
    let path: Vec<char> = if parts.len() > 1 {
        slice_chars(parts[1].as_slice(), 0, parts[1].len())
    } else {
        Vec::new()
    };
    let version: Vec<char> = if parts.len() > 2 {
        slice_chars(parts[2].as_slice(), 0, parts[2].len())
    } else {
        chars_of("HTTP/1.1")
    };
    assert(method@ =~= part_or(pv, 0, seq![]));
    assert(path@ =~= part_or(pv, 1, seq![]));
    assert(version@ =~= part_or(pv, 2, "HTTP/1.1"@));
    let mut prefix: Vec<char> = Vec::new();
    push_str(&mut prefix, "/s/");
    push_str(&mut prefix, password);
    let mut with_slash: Vec<char> = Vec::new();
    push_chars(&mut with_slash, prefix.as_slice());
    push_str(&mut with_slash, "/");
    if !(chars_equal(path.as_slice(), prefix.as_slice()) || starts_with_chars(path.as_slice(), with_slash.as_slice())) {
        return GateDecision::NotFound;
    }
    assert(prefix@.len() <= path@.len()) by {
        if !(path@ == prefix@) {
            assert(starts_with(path@, with_slash@));
        }
    }
    let stripped = slice_chars(path.as_slice(), prefix.len(), path.len());
    assert(stripped@ =~= path@.skip(prefix@.len() as int));
    let new_path: Vec<char> = if stripped.len() == 0 {
        chars_of("/")
    } else {
        stripped
    };
    let n = h.len();
    let rest = slice_chars(h.as_slice(), e + 2, n);
    assert(rest@ =~= head@.skip(e + 2));
    let lines = split_chars(rest.as_slice(), crlf.as_slice());
    let hdrs = headers_kept(&lines);
    let mut out: Vec<char> = Vec::new();
    push_chars(&mut out, method.as_slice());
    push_str(&mut out, " ");
    push_chars(&mut out, new_path.as_slice());
    push_str(&mut out, " ");
    push_chars(&mut out, version.as_slice());
    push_str(&mut out, "\r\n");
    push_chars(&mut out, hdrs.as_slice());
    push_str(&mut out, "Connection: close\r\n");
    push_str(&mut out, "\r\n");
    let ghost expected = gate_spec(head@, password@);
    assert(out@ =~= method@ + " "@ + new_path@ + " "@ + version@ + "\r\n"@ + (hdrs@ + "Connection: close\r\n"@) + "\r\n"@);
    GateDecision::Forward(string_of(out.as_slice()))
}

/// A head is forwarded only when its path lies under `/s/<password>`, and
/// what is forwarded always ends by closing the connection.
#[verifier::rlimit(40)]
pub proof fn gate_forwards_only_with_password(head: Seq<char>, password: Seq<char>)
    ensures
        gate_spec(head, password) matches Some(Some(out)) ==> {
            let e = first_index(head, "\r\n"@)->0;
            let path = part_or(split_on(head.take(e), " "@), 1, seq![]);
            &&& (path == "/s/"@ + password || starts_with(path, "/s/"@ + password + "/"@))
            &&& out.len() >= 21
            &&& out.skip(out.len() - 21) == "Connection: close\r\n\r\n"@
        },
{
    if gate_spec(head, password) is Some && gate_spec(head, password)->0 is Some {
        let e = first_index(head, "\r\n"@)->0;
        let parts = split_on(head.take(e), " "@);
        let method = part_or(parts, 0, seq![]);
        let path = part_or(parts, 1, seq![]);
        let version = part_or(parts, 2, "HTTP/1.1"@);
        let prefix = "/s/"@ + password;
        let stripped = path.skip(prefix.len() as int);
        let new_path = if stripped.len() == 0 {
            "/"@
        } else {
            stripped
        };
        let k = kept_headers(split_on(head.skip(e + 2), "\r\n"@));
        let out = gate_spec(head, password)->0->0;
        reveal_strlit("Connection: close\r\n");
        reveal_strlit("\r\n");
        reveal_strlit("Connection: close\r\n\r\n");
        assert(out =~= (method + " "@ + new_path + " "@ + version + "\r\n"@ + k) + "Connection: close\r\n\r\n"@);
        assert(out.skip(out.len() - 21) =~= "Connection: close\r\n\r\n"@);
    }
}


/// The header lines a forwarded head keeps are kept piece by piece: the
/// lines of two runs of headers are the lines of the first, then those of
/// the second, in order.
pub proof fn kept_headers_concat(a: Seq<Seq<char>>, b: Seq<Seq<char>>)
    ensures
        kept_headers(a + b) == kept_headers(a) + kept_headers(b),
    decreases b.len(),
{
    if b.len() == 0 {
        assert(a + b =~= a);
        assert(kept_headers(b) =~= Seq::<char>::empty());
        assert(kept_headers(a) + kept_headers(b) =~= kept_headers(a));
    } else {
        kept_headers_concat(a, b.drop_last());
        assert((a + b).drop_last() =~= a + b.drop_last());
        assert((a + b).last() == b.last());
        let l = b.last();
        if l.len() == 0 || starts_with(lower_seq(l), "connection:"@) {
        } else {
            assert(kept_headers(a + b) =~= kept_headers(a) + kept_headers(b.drop_last()) + l + "\r\n"@);
            assert(kept_headers(b) =~= kept_headers(b.drop_last()) + l + "\r\n"@);
        }
    }
}

/// One header line is forwarded as it came, followed by CRLF, unless it is
/// empty or a `Connection` header (in any case): `Authorization`, `Host`,
/// `Content-Length` and every other header reach the MCP untouched.
pub proof fn kept_header_line(l: Seq<char>)
    ensures
        !(l.len() == 0 || starts_with(lower_seq(l), "connection:"@)) ==> kept_headers(seq![l]) == l + "\r\n"@,
        (l.len() == 0 || starts_with(lower_seq(l), "connection:"@)) ==> kept_headers(seq![l]) == Seq::<char>::empty(),
{
    let e = seq![l].drop_last();
    assert(e =~= Seq::<Seq<char>>::empty());
    assert(kept_headers(e) == Seq::<char>::empty());
    assert(seq![l].last() == l);
    if !(l.len() == 0 || starts_with(lower_seq(l), "connection:"@)) {
        assert(kept_headers(seq![l]) =~= Seq::<char>::empty() + l + "\r\n"@);
    }
}

/// Every header line of a forwarded request that is not empty and not a
/// `Connection` header is in the forwarded head, with its CRLF: only the
/// password is taken out of the path, and nothing else the client sent.
#[verifier::rlimit(60)]
pub proof fn gate_forwards_client_headers(head: Seq<char>, password: Seq<char>, i: int)
    requires
        gate_spec(head, password) is Some,
        gate_spec(head, password)->0 is Some,
        first_index(head, "\r\n"@) is Some,
        0 <= i < split_on(head.skip(first_index(head, "\r\n"@)->0 + 2), "\r\n"@).len(),
        split_on(head.skip(first_index(head, "\r\n"@)->0 + 2), "\r\n"@)[i].len() > 0,
        !starts_with(lower_seq(split_on(head.skip(first_index(head, "\r\n"@)->0 + 2), "\r\n"@)[i]), "connection:"@),
    ensures
        contains_seq(
            gate_spec(head, password)->0->0,
            split_on(head.skip(first_index(head, "\r\n"@)->0 + 2), "\r\n"@)[i] + "\r\n"@,
        ),
{
    let e = first_index(head, "\r\n"@)->0;
    let lines = split_on(head.skip(e + 2), "\r\n"@);
    let l = lines[i];
    let parts = split_on(head.take(e), " "@);
    let method = part_or(parts, 0, seq![]);
    let path = part_or(parts, 1, seq![]);
    let version = part_or(parts, 2, "HTTP/1.1"@);
    let prefix = "/s/"@ + password;
    let stripped = path.skip(prefix.len() as int);
    let new_path = if stripped.len() == 0 {
        "/"@
    } else {
        stripped
    };
    let before = lines.take(i);
    let after = lines.skip(i + 1);
    assert(lines =~= before + seq![l] + after);
    kept_headers_concat(before + seq![l], after);
    kept_headers_concat(before, seq![l]);
    kept_header_line(l);
    let k = kept_headers(lines);
    assert(k == kept_headers(before) + (l + "\r\n"@) + kept_headers(after));
    let pre = method + " "@ + new_path + " "@ + version + "\r\n"@;
    let out = gate_spec(head, password)->0->0;
    assert(out == pre + (k + "Connection: close\r\n"@) + "\r\n"@);
    let at: int = (pre.len() + kept_headers(before).len()) as int;
    let w = l + "\r\n"@;
    assert(out.subrange(at, at + w.len() as int) =~= w);
    assert(occurs_at(out, w, at));
}

} // verus!
