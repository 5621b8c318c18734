use vstd::prelude::*;
use crate::text::{
    chars_of, string_of, push_str, push_chars, slice_chars, starts_with, ends_with, words, split_words, string_seqs,
    lines_of, text_lines, contains_seq, str_contains, starts_with_chars, ends_with_chars, chars_equal, trim, trimmed,
    last_index, rfind_chars, lemma_last_index_occurs, occurs_at, first_index, find_chars,
    lemma_first_index_occurs, split_on, split_chars, lemma_last_index,
};
use crate::http::{decimal, decimal_chars, eq_ignore_case, str_eq_ignore_case};
use crate::tunnel::{after_last, parse_u16, parse_u16_chars, parse_u32, parse_u32_chars, all_ascii_digits};

verus! {

/// The MCP endpoint as tested: `LanListening` only when the LAN address
/// answers and netstat shows its listener.
#[derive(PartialEq, Eq, Structural, Clone, Copy, Debug)]
pub enum PortStatus {
    Stopped,
    LocalOnly,
    LanListening,
}

/// The verdict of the endpoint test.
pub open spec fn port_status_spec(local_ok: bool, lan_ok: bool, netstat_lan: bool) -> PortStatus {
    if lan_ok && netstat_lan {
        PortStatus::LanListening
    } else if local_ok {
        PortStatus::LocalOnly
    } else {
        PortStatus::Stopped
    }
}

/// Whether the endpoint counts as active: the loopback or the LAN probe
/// answered MCP (whatever netstat shows).
pub fn endpoint_active(local_ok: bool, lan_ok: bool) -> (r: bool)
    ensures
        r == (local_ok || lan_ok),
{
    local_ok || lan_ok
}

pub fn port_status_of(local_ok: bool, lan_ok: bool, netstat_lan: bool) -> (r: PortStatus)
    ensures
        r == port_status_spec(local_ok, lan_ok, netstat_lan),
{
    if lan_ok && netstat_lan {
        PortStatus::LanListening
    } else if local_ok {
        PortStatus::LocalOnly
    } else {
        PortStatus::Stopped
    }
}

/// `127.0.0.1` or `localhost` (any case): no LAN test applies.
pub open spec fn loopback_ip(ip: Seq<char>) -> bool {
    ip == "127.0.0.1"@ || eq_ignore_case(ip, "localhost"@)
}

pub fn is_loopback_ip(ip: &str) -> (r: bool)
    ensures
        r == loopback_ip(ip@),
{
    ip.to_owned() == "127.0.0.1".to_owned() || str_eq_ignore_case(ip, "localhost")
}

/// The port of the configuration field (`trim` then `parse::<u16>`).
pub fn parse_port(field: &str) -> (r: Option<u16>)
    ensures
        r == parse_u16(trim(field@)),
{
    let t = crate::text::trim_str(field);
    parse_u16_chars(t.as_slice())
}

// ───────────────────────── netstat ─────────────────────────

/// `s` padded with spaces to `w` characters (`{:<w}`).
pub open spec fn pad(s: Seq<char>, w: nat) -> Seq<char> {
    if s.len() < w {
        s + Seq::new((w - s.len()) as nat, |i: int| ' ')
    } else {
        s
    }
}

pub fn padded(s: &str, w: usize) -> (r: String)
    ensures
        r@ == pad(s@, w as nat),
{
    let mut out = chars_of(s);
    let n = out.len();
    let mut k: usize = n;
    while k < w
        invariant
            n == s@.len(),
            n <= k <= w || (k == n && n >= w),
            out@ == s@ + Seq::new((k - n) as nat, |i: int| ' '),
        decreases w - k,
    {
        out.push(' ');
        k = k + 1;
        assert(out@ =~= s@ + Seq::new((k - n) as nat, |i: int| ' '));
    }
    proof {
        if n >= w {
            assert(out@ =~= s@);
        }
    }
    string_of(out.as_slice())
}

/// What one netstat line contributes: the line to show, if it concerns the
/// port (or is a high-port listener on the LAN address), and whether it is
/// the LAN listener (`<lan>:<port>` or `0.0.0.0:<port>`).
pub open spec fn netstat_line(line: Seq<char>, lan_ip: Seq<char>, port: u16) -> (Option<Seq<char>>, bool) {
    let cols = words(line);
    if cols.len() < 5 || !eq_ignore_case(cols[0], "TCP"@) {
        (None, false)
    } else {
        let local = cols[1];
        let remote = cols[2];
        let state = cols[3];
        let pid = cols[4];
        let suffix = ":"@ + decimal(port as nat);
        let listener = eq_ignore_case(state, "LISTENING"@) || remote == "0.0.0.0:0"@;
        let high = match parse_u16(after_last(local, ":"@)) {
            Some(p) => p >= 1024,
            None => false,
        };
        let interesting = ends_with(local, suffix) || ends_with(remote, suffix) || (listener && starts_with(
            local,
            lan_ip + ":"@,
        ) && high);
        let shown = if interesting {
            Some("TCP  "@ + pad(local, 22) + " "@ + pad(remote, 22) + " "@ + pad(state, 12) + " pid "@ + pid)
        } else {
            None
        };
        (shown, listener && (local == lan_ip + suffix || local == "0.0.0.0"@ + suffix))
    }
}

/// The lines shown, in order.
pub open spec fn netstat_shown(lines: Seq<Seq<char>>, lan_ip: Seq<char>, port: u16) -> Seq<Seq<char>>
    decreases lines.len(),
{
    if lines.len() == 0 {
        seq![]
    } else {
        let rest = netstat_shown(lines.drop_last(), lan_ip, port);
        match netstat_line(lines.last(), lan_ip, port).0 {
            Some(x) => rest.push(x),
            None => rest,
        }
    }
}

/// Some line is the LAN listener.
pub open spec fn netstat_lan(lines: Seq<Seq<char>>, lan_ip: Seq<char>, port: u16) -> bool {
    exists|i: int| 0 <= i < lines.len() && (#[trigger] netstat_line(lines[i], lan_ip, port)).1
}

fn cat(parts: &[&str]) -> (r: String)
    ensures
        r@ == concat_all(parts@.map_values(|p: &str| p@)),
{
    let ghost pv = parts@.map_values(|p: &str| p@);
    let mut out: Vec<char> = Vec::new();
    let mut i: usize = 0;
    while i < parts.len()
        invariant
            i <= parts@.len(),
            pv == parts@.map_values(|p: &str| p@),
            out@ == concat_all(pv.take(i as int)),
        decreases parts@.len() - i,
    {
        push_str(&mut out, parts[i]);
        assert(pv.take(i + 1).drop_last() =~= pv.take(i as int));
        i = i + 1;
    }
    assert(pv.take(parts@.len() as int) =~= pv);
    string_of(out.as_slice())
}

pub open spec fn concat_all(p: Seq<Seq<char>>) -> Seq<char>
    decreases p.len(),
{
    if p.len() == 0 {
        seq![]
    } else {
        concat_all(p.drop_last()) + p.last()
    }
}

fn netstat_line_exec(line: &str, lan_ip: &str, port: u16) -> (r: (Option<String>, bool))
    ensures
        opt_str(r.0) == netstat_line(line@, lan_ip@, port).0,
        r.1 == netstat_line(line@, lan_ip@, port).1,
{
    let cols = split_words(line);
    if cols.len() < 5 || !str_eq_ignore_case(cols[0].as_str(), "TCP") {
        return (None, false);
    }
    let local = cols[1].as_str();
    let remote = cols[2].as_str();
    let state = cols[3].as_str();
    let pid = cols[4].as_str();
    let mut suffix: Vec<char> = Vec::new();
    suffix.push(':');
    let d = decimal_chars(port as u64);
    push_chars(&mut suffix, d.as_slice());
    assert(suffix@ =~= ":"@ + decimal(port as nat)) by {
        reveal_strlit(":");
    }
    let lc = chars_of(local);
    let rc = chars_of(remote);
    let listener = str_eq_ignore_case(state, "LISTENING") || remote.to_owned() == "0.0.0.0:0".to_owned();
    let colon = chars_of(":");
    proof {
        reveal_strlit(":");
    }
    let ln = lc.len();
    let tail = match rfind_chars(lc.as_slice(), colon.as_slice()) {
        Some(k) => {
            proof {
                lemma_last_index_occurs(lc@, colon@);
                assert(occurs_at(lc@, colon@, k as int));
            }
            slice_chars(lc.as_slice(), k + 1, ln)
        },
        None => slice_chars(lc.as_slice(), 0, ln),
    };
    assert(tail@ =~= after_last(local@, ":"@));
    let high = match parse_u16_chars(tail.as_slice()) {
        Some(p) => p >= 1024,
        None => false,
    };
    let mut lan_prefix = chars_of(lan_ip);
    lan_prefix.push(':');
    assert(lan_prefix@ =~= lan_ip@ + ":"@);
    let interesting = ends_with_chars(lc.as_slice(), suffix.as_slice()) || ends_with_chars(rc.as_slice(), suffix.as_slice())
        || (listener && starts_with_chars(lc.as_slice(), lan_prefix.as_slice()) && high);
    let shown = if interesting {
        let pl = padded(local, 22);
        let pr = padded(remote, 22);
        let ps = padded(state, 12);
        let mut out: Vec<char> = Vec::new();
        push_str(&mut out, "TCP  ");
        push_str(&mut out, pl.as_str());
        push_str(&mut out, " ");
        push_str(&mut out, pr.as_str());
        push_str(&mut out, " ");
        push_str(&mut out, ps.as_str());
        push_str(&mut out, " pid ");
        push_str(&mut out, pid);
        Some(string_of(out.as_slice()))
    } else {
        None
    };
    let mut want_lan = chars_of(lan_ip);
    push_chars(&mut want_lan, suffix.as_slice());
    let mut want_any = chars_of("0.0.0.0");
    push_chars(&mut want_any, suffix.as_slice());
    let lan = listener && (chars_equal(lc.as_slice(), want_lan.as_slice()) || chars_equal(lc.as_slice(), want_any.as_slice()));
    (shown, lan)
}

pub open spec fn opt_str(o: Option<String>) -> Option<Seq<char>> {
    match o {
        Some(s) => Some(s@),
        None => None,
    }
}

/// What `netstat -ano -p tcp` says of the port: the lines to show and whether
/// the LAN address (or every address) listens on it.
pub fn netstat_scan(text: &str, lan_ip: &str, port: u16) -> (r: (Vec<String>, bool))
    ensures
        string_seqs(r.0@) == netstat_shown(lines_of(text@), lan_ip@, port),
        r.1 == netstat_lan(lines_of(text@), lan_ip@, port),
{
    let lines = text_lines(text);
    let ghost lv = string_seqs(lines@);
    let mut shown: Vec<String> = Vec::new();
    let mut lan = false;
    let mut i: usize = 0;
    while i < lines.len()
        invariant
            i <= lines@.len(),
            lv == string_seqs(lines@),
            lv == lines_of(text@),
            string_seqs(shown@) == netstat_shown(lv.take(i as int), lan_ip@, port),
            lan == exists|j: int| 0 <= j < i && (#[trigger] netstat_line(lv[j], lan_ip@, port)).1,
        decreases lines@.len() - i,
    {
        assert(lv[i as int] == lines@[i as int]@);
        let (s, l) = netstat_line_exec(lines[i].as_str(), lan_ip, port);
        assert(lv.take(i + 1).drop_last() =~= lv.take(i as int));
        assert(lv.take(i + 1).last() == lv[i as int]);
        match s {
            Some(x) => {
                let ghost prev = string_seqs(shown@);
                shown.push(x);
                assert(string_seqs(shown@) =~= prev.push(x@));
            },
            None => {},
        }
        if l {
            lan = true;
        }
        i = i + 1;
    }
    assert(lv.take(lines@.len() as int) =~= lv);
    (shown, lan)
}

// ───────────────────────── netsh portproxy ─────────────────────────

/// A `v4tov4` rule line (listen address, listen port, connect address,
/// connect port) as the list shows it: `a:p -> b:q`.
pub open spec fn rule_line(line: Seq<char>) -> Option<Seq<char>> {
    let cols = words(line);
    if cols.len() >= 4 && parse_u16(cols[1]) is Some && parse_u16(cols[3]) is Some {
        Some(cols[0] + ":"@ + cols[1] + " -> "@ + cols[2] + ":"@ + cols[3])
    } else {
        None
    }
}

pub open spec fn rules_listed(lines: Seq<Seq<char>>) -> Seq<Seq<char>>
    decreases lines.len(),
{
    if lines.len() == 0 {
        seq![]
    } else {
        let rest = rules_listed(lines.drop_last());
        match rule_line(lines.last()) {
            Some(x) => rest.push(x),
            None => rest,
        }
    }
}

/// A line whose first two tokens are exactly the listen address and port.
pub open spec fn rule_present(lines: Seq<Seq<char>>, ip: Seq<char>, port: Seq<char>) -> bool {
    exists|i: int|
        0 <= i < lines.len() && words(#[trigger] lines[i]).len() >= 2 && words(lines[i])[0] == ip && words(lines[i])[1]
            == port
}

/// The rules of `netsh interface portproxy show v4tov4`, and whether the rule
/// listening on `ip`:`port` is among them.
pub fn portproxy_scan(text: &str, ip: &str, port: &str) -> (r: (Vec<String>, bool))
    ensures
        string_seqs(r.0@) == rules_listed(lines_of(text@)),
        r.1 == rule_present(lines_of(text@), ip@, port@),
{
    let lines = text_lines(text);
    let ghost lv = string_seqs(lines@);
    let mut rules: Vec<String> = Vec::new();
    let mut present = false;
    let mut i: usize = 0;
    while i < lines.len()
        invariant
            i <= lines@.len(),
            lv == string_seqs(lines@),
            lv == lines_of(text@),
            string_seqs(rules@) == rules_listed(lv.take(i as int)),
            present == exists|j: int|
                0 <= j < i && words(#[trigger] lv[j]).len() >= 2 && words(lv[j])[0] == ip@ && words(lv[j])[1] == port@,
        decreases lines@.len() - i,
    {
        assert(lv[i as int] == lines@[i as int]@);
        assert(lv.take(i + 1).drop_last() =~= lv.take(i as int));
        assert(lv.take(i + 1).last() == lv[i as int]);
        let cols = split_words(lines[i].as_str());
        if cols.len() >= 4 && parse_u16_chars(chars_of(cols[1].as_str()).as_slice()).is_some()
            && parse_u16_chars(chars_of(cols[3].as_str()).as_slice()).is_some() {
            let x = cat(&[cols[0].as_str(), ":", cols[1].as_str(), " -> ", cols[2].as_str(), ":", cols[3].as_str()]);
            assert(x@ =~= cols[0]@ + ":"@ + cols[1]@ + " -> "@ + cols[2]@ + ":"@ + cols[3]@) by {
                reveal_with_fuel(concat_all, 8);
            }
            let ghost prev = string_seqs(rules@);
            rules.push(x);
            assert(string_seqs(rules@) =~= prev.push(x@));
        }
        if cols.len() >= 2 && cols[0].as_str().to_owned() == ip.to_owned() && cols[1].as_str().to_owned() == port.to_owned() {
            present = true;
        }
        i = i + 1;
    }
    assert(lv.take(lines@.len() as int) =~= lv);
    (rules, present)
}


/// A portproxy rule that this program created and recorded in the registry
/// (a value named `portproxy:<ip>:<port>`).
pub open spec fn tracked_rule(line: Seq<char>) -> Option<(Seq<char>, Seq<char>)> {
    let cols = words(line);
    if cols.len() > 0 && starts_with(cols[0], "portproxy:"@) {
        let rest = cols[0].skip(10);
        match last_index(rest, ":"@) {
            Some(k) => if parse_u16(rest.skip(k + 1)) is Some {
                Some((rest.take(k), rest.skip(k + 1)))
            } else {
                None
            },
            None => None,
        }
    } else {
        None
    }
}

pub open spec fn tracked_rules_of(lines: Seq<Seq<char>>) -> Seq<(Seq<char>, Seq<char>)>
    decreases lines.len(),
{
    if lines.len() == 0 {
        seq![]
    } else {
        let rest = tracked_rules_of(lines.drop_last());
        match tracked_rule(lines.last()) {
            Some(x) => rest.push(x),
            None => rest,
        }
    }
}

pub open spec fn pair_views(v: Seq<(String, String)>) -> Seq<(Seq<char>, Seq<char>)> {
    v.map_values(|p: (String, String)| (p.0@, p.1@))
}

/// The portproxy rules recorded in `reg query HKCU\Software\FzComputerAI`.
pub fn tracked_portproxy_rules(text: &str) -> (r: Vec<(String, String)>)
    ensures
        pair_views(r@) == tracked_rules_of(lines_of(text@)),
{
    let lines = text_lines(text);
    let ghost lv = string_seqs(lines@);
    let prefix = chars_of("portproxy:");
    let colon = chars_of(":");
    proof {
        reveal_strlit("portproxy:");
        reveal_strlit(":");
    }
    let mut out: Vec<(String, String)> = Vec::new();
    let mut i: usize = 0;
    while i < lines.len()
        invariant
            i <= lines@.len(),
            lv == string_seqs(lines@),
            lv == lines_of(text@),
            prefix@ == "portproxy:"@,
            prefix@.len() == 10,
            colon@ == ":"@,
            colon@.len() == 1,
            pair_views(out@) == tracked_rules_of(lv.take(i as int)),
        decreases lines@.len() - i,
    {
        assert(lv[i as int] == lines@[i as int]@);
        assert(lv.take(i + 1).drop_last() =~= lv.take(i as int));
        assert(lv.take(i + 1).last() == lv[i as int]);
        let cols = split_words(lines[i].as_str());
        if cols.len() > 0 {
            let c0 = chars_of(cols[0].as_str());
            if starts_with_chars(c0.as_slice(), prefix.as_slice()) {
                let n = c0.len();
                let rest = slice_chars(c0.as_slice(), 10, n);
                assert(rest@ =~= c0@.skip(10));
                let rn = rest.len();
                match rfind_chars(rest.as_slice(), colon.as_slice()) {
                    Some(k) => {
                        proof {
                            lemma_last_index_occurs(rest@, colon@);
                            assert(occurs_at(rest@, colon@, k as int));
                        }
                        let port = slice_chars(rest.as_slice(), k + 1, rn);
                        let ip = slice_chars(rest.as_slice(), 0, k);
                        assert(port@ =~= rest@.skip(k + 1));
                        assert(ip@ =~= rest@.take(k as int));
                        if parse_u16_chars(port.as_slice()).is_some() {
                            let ghost prev = pair_views(out@);
                            out.push((string_of(ip.as_slice()), string_of(port.as_slice())));
                            assert(pair_views(out@) =~= prev.push((ip@, port@)));
                        }
                    },
                    None => {},
                }
            }
        }
        i = i + 1;
    }
    assert(lv.take(lines@.len() as int) =~= lv);
    out
}

/// The registry value name that records a portproxy rule as this program's.
pub open spec fn rule_value_name(ip: Seq<char>, port: Seq<char>) -> Seq<char> {
    "portproxy:"@ + ip + ":"@ + port
}

pub fn portproxy_value_name(ip: &str, port: &str) -> (r: String)
    ensures
        r@ == rule_value_name(ip@, port@),
{
    let mut out: Vec<char> = Vec::new();
    push_str(&mut out, "portproxy:");
    push_str(&mut out, ip);
    push_str(&mut out, ":");
    push_str(&mut out, port);
    string_of(out.as_slice())
}

/// A rule recorded under its value name is found again when the registry is
/// read back: the first word of the line names the rule, and the address and
/// port come out as they went in (the port being one that parses).
pub proof fn recorded_rule_is_found(line: Seq<char>, ip: Seq<char>, port: Seq<char>)
    requires
        words(line).len() > 0,
        words(line)[0] == rule_value_name(ip, port),
        parse_u16(port) is Some,
    ensures
        tracked_rule(line) == Some((ip, port)),
{
    lemma_name_parts(words(line)[0], ip, port);
}

proof fn lemma_name_parts(name: Seq<char>, ip: Seq<char>, port: Seq<char>)
    requires
        name == rule_value_name(ip, port),
        parse_u16(port) is Some,
    ensures
        starts_with(name, "portproxy:"@),
        last_index(name.skip(10), ":"@) == Some(ip.len() as int),
        name.skip(10).take(ip.len() as int) == ip,
        name.skip(10).skip(ip.len() as int + 1) == port,
{
    reveal_strlit("portproxy:");
    reveal_strlit(":");
    let k = ip.len() as int;
    assert(name.take(10) =~= "portproxy:"@);
    let rest = name.skip(10);
    assert(rest =~= ip + ":"@ + port);
    lemma_port_has_no_colon(port);
    lemma_last_colon(ip, port);
    assert(rest.take(k) =~= ip);
    assert(rest.skip(k + 1) =~= port);
}

proof fn lemma_port_has_no_colon(port: Seq<char>)
    requires
        parse_u16(port) is Some,
    ensures
        forall|j: int| 0 <= j < port.len() ==> #[trigger] port[j] != ':',
{
    let d = if port.len() > 0 && port[0] == '+' {
        port.drop_first()
    } else {
        port
    };
    assert(all_ascii_digits(d));
    assert forall|j: int| 0 <= j < port.len() implies #[trigger] port[j] != ':' by {
        if port.len() > 0 && port[0] == '+' {
            if j > 0 {
                assert(d[j - 1] == port[j]);
            }
        } else {
            assert(d[j] == port[j]);
        }
    }
}

proof fn lemma_last_colon(ip: Seq<char>, port: Seq<char>)
    requires
        forall|j: int| 0 <= j < port.len() ==> #[trigger] port[j] != ':',
    ensures
        last_index(ip + ":"@ + port, ":"@) == Some(ip.len() as int),
{
    reveal_strlit(":");
    let rest = ip + ":"@ + port;
    let k = ip.len() as int;
    assert(rest.subrange(k, k + 1) =~= ":"@);
    assert(occurs_at(rest, ":"@, k));
    assert forall|j: int| k < j implies !occurs_at(rest, ":"@, j) by {
        if occurs_at(rest, ":"@, j) {
            assert(rest.subrange(j, j + 1)[0] == rest[j]);
            assert(rest[j] == port[j - k - 1]);
        }
    }
    lemma_last_index(rest, ":"@, k);
}

/// The `netsh` arguments that add the portproxy rule from the LAN address to
/// the engine on loopback.
pub open spec fn portproxy_add_text(listen_port: Seq<char>, ip: Seq<char>, connect_port: u16) -> Seq<char> {
    "interface portproxy add v4tov4 listenport="@ + listen_port + " listenaddress="@ + ip + " connectport="@
        + decimal(connect_port as nat) + " connectaddress=127.0.0.1"@
}

pub fn portproxy_add_command(listen_port: &str, ip: &str, connect_port: u16) -> (r: String)
    ensures
        r@ == portproxy_add_text(listen_port@, ip@, connect_port),
{
    let mut out: Vec<char> = Vec::new();
    push_str(&mut out, "interface portproxy add v4tov4 listenport=");
    push_str(&mut out, listen_port);
    push_str(&mut out, " listenaddress=");
    push_str(&mut out, ip);
    push_str(&mut out, " connectport=");
    push_chars(&mut out, decimal_chars(connect_port as u64).as_slice());
    push_str(&mut out, " connectaddress=127.0.0.1");
    string_of(out.as_slice())
}

/// The `netsh` arguments that delete the portproxy rule.
pub open spec fn portproxy_delete_text(listen_port: Seq<char>, ip: Seq<char>) -> Seq<char> {
    "interface portproxy delete v4tov4 listenport="@ + listen_port + " listenaddress="@ + ip
}

pub fn portproxy_delete_command(listen_port: &str, ip: &str) -> (r: String)
    ensures
        r@ == portproxy_delete_text(listen_port@, ip@),
{
    let mut out: Vec<char> = Vec::new();
    push_str(&mut out, "interface portproxy delete v4tov4 listenport=");
    push_str(&mut out, listen_port);
    push_str(&mut out, " listenaddress=");
    push_str(&mut out, ip);
    string_of(out.as_slice())
}

/// The PowerShell command that runs `netsh` elevated (UAC) and exits with its code.
pub open spec fn elevated_text(netsh_args: Seq<char>) -> Seq<char> {
    "$p = Start-Process -FilePath netsh -ArgumentList '"@ + netsh_args + "' -Verb RunAs -Wait -PassThru; exit $p.ExitCode"@
}

pub fn elevated_netsh(netsh_args: &str) -> (r: String)
    ensures
        r@ == elevated_text(netsh_args@),
{
    let mut out: Vec<char> = Vec::new();
    push_str(&mut out, "$p = Start-Process -FilePath netsh -ArgumentList '");
    push_str(&mut out, netsh_args);
    push_str(&mut out, "' -Verb RunAs -Wait -PassThru; exit $p.ExitCode");
    string_of(out.as_slice())
}

/// The arguments of a command line split at each space (std's `split(' ')`).
pub fn command_words(text: &str) -> (r: Vec<String>)
    ensures
        string_seqs(r@) == split_on(text@, " "@),
{
    let c = chars_of(text);
    let sp = chars_of(" ");
    proof {
        reveal_strlit(" ");
    }
    let parts = split_chars(c.as_slice(), sp.as_slice());
    let r = crate::text::strings_from(&parts);
    r
}

/// Why LAN forwarding cannot start from the address and port fields.
#[derive(PartialEq, Eq, Structural, Clone, Copy, Debug)]
pub enum ForwardError {
    /// The LAN address is the loopback one: a rule would make no sense.
    LoopbackAddress,
    InvalidPort,
}

/// The trimmed LAN address and the port to listen on, or why there are none.
pub open spec fn forward_target_spec(ip_field: Seq<char>, port_field: Seq<char>) -> Result<(Seq<char>, u16), ForwardError> {
    let ip = trim(ip_field);
    if loopback_ip(ip) {
        Err(ForwardError::LoopbackAddress)
    } else {
        match parse_u16(trim(port_field)) {
            None => Err(ForwardError::InvalidPort),
            Some(p) => Ok((ip, p)),
        }
    }
}

pub fn forward_target(ip_field: &str, port_field: &str) -> (r: Result<(String, u16), ForwardError>)
    ensures
        match r {
            Ok((ip, p)) => forward_target_spec(ip_field@, port_field@) == Ok::<(Seq<char>, u16), ForwardError>((ip@, p)),
            Err(e) => forward_target_spec(ip_field@, port_field@) == Err::<(Seq<char>, u16), ForwardError>(e),
        },
{
    let ip = trimmed(ip_field);
    if is_loopback_ip(ip.as_str()) {
        return Err(ForwardError::LoopbackAddress);
    }
    match parse_port(port_field) {
        None => Err(ForwardError::InvalidPort),
        Some(p) => Ok((ip, p)),
    }
}

/// The ports that the registry's `CUA_DRIVER_RS_MCP_HTTP_PORT` lines give
/// (the last token of each such line, when it is a port).
pub open spec fn registry_ports_of(lines: Seq<Seq<char>>) -> Seq<u16>
    decreases lines.len(),
{
    if lines.len() == 0 {
        seq![]
    } else {
        let rest = registry_ports_of(lines.drop_last());
        let l = lines.last();
        let w = words(l);
        if contains_seq(l, "CUA_DRIVER_RS_MCP_HTTP_PORT"@) && w.len() > 0 && parse_u16(w.last()) is Some {
            rest.push(parse_u16(w.last())->0)
        } else {
            rest
        }
    }
}

/// The ports to try for the engine, in order: those in the registry, the
/// configured one, then 8000, each new one once.
pub open spec fn port_candidates_spec(reg: Seq<u16>, configured: Option<u16>) -> Seq<u16> {
    let c = match configured {
        Some(p) => if reg.contains(p) {
            reg
        } else {
            reg.push(p)
        },
        None => reg,
    };
    if c.contains(8000) {
        c
    } else {
        c.push(8000)
    }
}

fn vec_contains(v: &Vec<u16>, x: u16) -> (r: bool)
    ensures
        r == v@.contains(x),
{
    let mut i: usize = 0;
    while i < v.len()
        invariant
            i <= v@.len(),
            forall|j: int| 0 <= j < i ==> v@[j] != x,
        decreases v@.len() - i,
    {
        if v[i] == x {
            assert(v@[i as int] == x);
            return true;
        }
        i = i + 1;
    }
    false
}

/// The candidate ports of the engine, from `reg query HKCU\Environment /v
/// CUA_DRIVER_RS_MCP_HTTP_PORT` output and the configured port field.
pub fn port_candidates(reg_text: &str, configured: &str) -> (r: Vec<u16>)
    ensures
        r@ == port_candidates_spec(registry_ports_of(lines_of(reg_text@)), parse_u16(trim(configured@))),
{
    let lines = text_lines(reg_text);
    let ghost lv = string_seqs(lines@);
    let mut out: Vec<u16> = Vec::new();
    let mut i: usize = 0;
    while i < lines.len()
        invariant
            i <= lines@.len(),
            lv == string_seqs(lines@),
            lv == lines_of(reg_text@),
            out@ == registry_ports_of(lv.take(i as int)),
        decreases lines@.len() - i,
    {
        assert(lv[i as int] == lines@[i as int]@);
        assert(lv.take(i + 1).drop_last() =~= lv.take(i as int));
        assert(lv.take(i + 1).last() == lv[i as int]);
        if str_contains(lines[i].as_str(), "CUA_DRIVER_RS_MCP_HTTP_PORT") {
            let w = split_words(lines[i].as_str());
            if w.len() > 0 {
                let last = chars_of(w[w.len() - 1].as_str());
                assert(string_seqs(w@).last() == w@[w@.len() - 1]@);
                match parse_u16_chars(last.as_slice()) {
                    Some(p) => {
                        out.push(p);
                    },
                    None => {},
                }
            }
        }
        i = i + 1;
    }
    assert(lv.take(lines@.len() as int) =~= lv);
    match parse_port(configured) {
        Some(p) => {
            if !vec_contains(&out, p) {
                out.push(p);
            }
        },
        None => {},
    }
    if !vec_contains(&out, 8000) {
        out.push(8000);
    }
    out
}

// ───────────────────────── the MCP probe ─────────────────────────

/// The `initialize` call that tells an MCP endpoint from any other listener.
pub open spec fn initialize_body(version: Seq<char>) -> Seq<char> {
    "{\"jsonrpc\":\"2.0\",\"id\":1,\"method\":\"initialize\",\"params\":{\"protocolVersion\":\"2025-06-18\",\"capabilities\":{},\"clientInfo\":{\"name\":\"fzcomputerai-gui\",\"version\":\""@
        + version + "\"}}}"@
}

/// `POST /mcp` with the call; the bearer token only when one is configured
/// (older engines ignore it, newer ones require it).
pub open spec fn mcp_request_text(ip: Seq<char>, port: u16, token: Seq<char>, version: Seq<char>) -> Seq<char> {
    let body = initialize_body(version);
    let auth = if trim(token).len() == 0 {
        seq![]
    } else {
        "Authorization: Bearer "@ + trim(token) + "\r\n"@
    };
    "POST /mcp HTTP/1.1\r\nHost: "@ + ip + ":"@ + decimal(port as nat)
        + "\r\nContent-Type: application/json\r\nAccept: application/json, text/event-stream\r\n"@ + auth
        + "Content-Length: "@ + decimal(vstd::utf8::encode_utf8(body).len()) + "\r\nConnection: close\r\n\r\n"@ + body
}

pub fn mcp_request(ip: &str, port: u16, token: &str, version: &str) -> (r: String)
    ensures
        r@ == mcp_request_text(ip@, port, token@, version@),
{
    let mut body: Vec<char> = Vec::new();
    push_str(
        &mut body,
        "{\"jsonrpc\":\"2.0\",\"id\":1,\"method\":\"initialize\",\"params\":{\"protocolVersion\":\"2025-06-18\",\"capabilities\":{},\"clientInfo\":{\"name\":\"fzcomputerai-gui\",\"version\":\"",
    );
    push_str(&mut body, version);
    push_str(&mut body, "\"}}}");
    let bs = string_of(body.as_slice());
    let bb = crate::text::bytes_of(bs.as_str());
    let t = trimmed(token);
    let mut out: Vec<char> = Vec::new();
    push_str(&mut out, "POST /mcp HTTP/1.1\r\nHost: ");
    push_str(&mut out, ip);
    push_str(&mut out, ":");
    push_chars(&mut out, decimal_chars(port as u64).as_slice());
    push_str(&mut out, "\r\nContent-Type: application/json\r\nAccept: application/json, text/event-stream\r\n");
    if !t.as_str().is_empty() {
        push_str(&mut out, "Authorization: Bearer ");
        push_str(&mut out, t.as_str());
        push_str(&mut out, "\r\n");
    }
    push_str(&mut out, "Content-Length: ");
    push_chars(&mut out, decimal_chars(bb.len() as u64).as_slice());
    push_str(&mut out, "\r\nConnection: close\r\n\r\n");
    push_chars(&mut out, body.as_slice());
    string_of(out.as_slice())
}

/// Did MCP answer (`jsonrpc` in the reply)? With the status line for the log
/// (`(sem resposta)` when there was none).
pub open spec fn mcp_answer_spec(text: Seq<char>) -> (bool, Seq<char>) {
    let l = lines_of(text);
    (contains_seq(text, "jsonrpc"@), if l.len() > 0 {
        l[0]
    } else {
        "(sem resposta)"@
    })
}

pub fn mcp_answer(text: &str) -> (r: (bool, String))
    ensures
        (r.0, r.1@) == mcp_answer_spec(text@),
{
    let l = text_lines(text);
    let first = if l.len() > 0 {
        assert(string_seqs(l@)[0] == l@[0]@);
        l[0].clone()
    } else {
        "(sem resposta)".to_owned()
    };
    (str_contains(text, "jsonrpc"), first)
}

/// A TCP listener on the port counts as listening on the LAN when its local
/// address is the LAN address or `0.0.0.0` (every interface, the LAN one
/// included): one such line in netstat's output is enough.
pub proof fn any_interface_listener_covers_lan(lines: Seq<Seq<char>>, lan_ip: Seq<char>, port: u16, i: int)
    requires
        0 <= i < lines.len(),
        words(lines[i]).len() >= 5,
        eq_ignore_case(words(lines[i])[0], "TCP"@),
        eq_ignore_case(words(lines[i])[3], "LISTENING"@),
        words(lines[i])[1] == "0.0.0.0:"@ + decimal(port as nat) || words(lines[i])[1] == lan_ip + ":"@ + decimal(
            port as nat,
        ),
    ensures
        netstat_lan(lines, lan_ip, port),
{
    reveal_strlit("0.0.0.0:");
    reveal_strlit("0.0.0.0");
    reveal_strlit(":");
    assert("0.0.0.0:"@ + decimal(port as nat) =~= "0.0.0.0"@ + (":"@ + decimal(port as nat)));
    assert(lan_ip + ":"@ + decimal(port as nat) =~= lan_ip + (":"@ + decimal(port as nat)));
    assert(netstat_line(lines[i], lan_ip, port).1);
}

/// And only such a line counts: the LAN flag is set by a TCP line that
/// listens (LISTENING, or no remote end) on the LAN address or on `0.0.0.0`,
/// at the port.
pub proof fn lan_flag_needs_a_listener(lines: Seq<Seq<char>>, lan_ip: Seq<char>, port: u16)
    requires
        netstat_lan(lines, lan_ip, port),
    ensures
        exists|i: int|
            0 <= i < lines.len() && words(#[trigger] lines[i]).len() >= 5 && eq_ignore_case(words(lines[i])[0], "TCP"@)
                && (eq_ignore_case(words(lines[i])[3], "LISTENING"@) || words(lines[i])[2] == "0.0.0.0:0"@) && (
            words(lines[i])[1] == "0.0.0.0:"@ + decimal(port as nat) || words(lines[i])[1] == lan_ip + ":"@
                + decimal(port as nat)),
{
    reveal_strlit("0.0.0.0:");
    reveal_strlit("0.0.0.0");
    reveal_strlit(":");
    assert("0.0.0.0:"@ + decimal(port as nat) =~= "0.0.0.0"@ + (":"@ + decimal(port as nat)));
    assert(lan_ip + ":"@ + decimal(port as nat) =~= lan_ip + (":"@ + decimal(port as nat)));
    let i = choose|i: int| 0 <= i < lines.len() && (#[trigger] netstat_line(lines[i], lan_ip, port)).1;
    assert(netstat_line(lines[i], lan_ip, port).1);
}

} // verus!
