use vstd::prelude::*;
use crate::text::{trim, trimmed};
use crate::tls::{TlsBind, TlsMode, bind_named, parse_tls_bind, tls_bind_str, tls_mode_str};
use crate::tunnel::{parse_u16, parse_u16_chars, string_pairs};

verus! {

/// The HTTPS settings that are saved: on or off, the port, the bind, the
/// certificate's origin, the Let's Encrypt domain, e-mail and directory, and
/// the paths of one's own certificate and key.
pub struct TlsSettings {
    pub enabled: bool,
    pub port: String,
    pub bind: TlsBind,
    pub mode: TlsMode,
    pub domain: String,
    pub email: String,
    pub staging: bool,
    pub custom_cert: String,
    pub custom_key: String,
}

pub struct TlsSettingsV {
    pub enabled: bool,
    pub port: Seq<char>,
    pub bind: TlsBind,
    pub mode: TlsMode,
    pub domain: Seq<char>,
    pub email: Seq<char>,
    pub staging: bool,
    pub custom_cert: Seq<char>,
    pub custom_key: Seq<char>,
}

impl View for TlsSettings {
    type V = TlsSettingsV;

    open spec fn view(&self) -> TlsSettingsV {
        TlsSettingsV {
            enabled: self.enabled,
            port: self.port@,
            bind: self.bind,
            mode: self.mode,
            domain: self.domain@,
            email: self.email@,
            staging: self.staging,
            custom_cert: self.custom_cert@,
            custom_key: self.custom_key@,
        }
    }
}

impl Default for TlsSettings {
    /// Off, port 8443 on the LAN address, self-signed, nothing else set.
    fn default() -> (r: TlsSettings)
        ensures
            r@ == (TlsSettingsV {
                enabled: false,
                port: "8443"@,
                bind: TlsBind::Lan,
                mode: TlsMode::SelfSigned,
                domain: seq![],
                email: seq![],
                staging: false,
                custom_cert: seq![],
                custom_key: seq![],
            }),
    {
        proof {
            reveal_strlit("");
        }
        TlsSettings {
            enabled: false,
            port: "8443".to_owned(),
            bind: TlsBind::Lan,
            mode: TlsMode::SelfSigned,
            domain: String::new(),
            email: String::new(),
            staging: false,
            custom_cert: String::new(),
            custom_key: String::new(),
        }
    }
}

pub open spec fn bind_text(b: TlsBind) -> Seq<char> {
    match b {
        TlsBind::Loopback => "loopback"@,
        TlsBind::Lan => "lan"@,
        TlsBind::All => "all"@,
    }
}

pub open spec fn mode_text(m: TlsMode) -> Seq<char> {
    match m {
        TlsMode::SelfSigned => "selfsigned"@,
        TlsMode::LetsEncrypt => "letsencrypt"@,
        TlsMode::Custom => "custom"@,
    }
}

/// The certificate origin a saved name selects (self-signed unless
/// `letsencrypt` or `custom`).
pub open spec fn mode_named(v: Seq<char>) -> TlsMode {
    if v == "letsencrypt"@ {
        TlsMode::LetsEncrypt
    } else if v == "custom"@ {
        TlsMode::Custom
    } else {
        TlsMode::SelfSigned
    }
}

pub fn parse_tls_mode(v: &str) -> (r: TlsMode)
    ensures
        r == mode_named(v@),
{
    if v.to_owned() == "letsencrypt".to_owned() {
        TlsMode::LetsEncrypt
    } else if v.to_owned() == "custom".to_owned() {
        TlsMode::Custom
    } else {
        TlsMode::SelfSigned
    }
}

/// One saved value applied; a port that does not parse and an unknown key
/// change nothing.
pub open spec fn tls_setting_applied(t: TlsSettingsV, key: Seq<char>, value: Seq<char>) -> TlsSettingsV {
    if key == "enabled"@ {
        TlsSettingsV { enabled: value == "1"@, ..t }
    } else if key == "port"@ {
        if parse_u16(value) is Some {
            TlsSettingsV { port: value, ..t }
        } else {
            t
        }
    } else if key == "bind"@ {
        TlsSettingsV { bind: bind_named(value), ..t }
    } else if key == "mode"@ {
        TlsSettingsV { mode: mode_named(value), ..t }
    } else if key == "domain"@ {
        TlsSettingsV { domain: value, ..t }
    } else if key == "email"@ {
        TlsSettingsV { email: value, ..t }
    } else if key == "staging"@ {
        TlsSettingsV { staging: value == "1"@, ..t }
    } else if key == "custom_cert"@ {
        TlsSettingsV { custom_cert: value, ..t }
    } else if key == "custom_key"@ {
        TlsSettingsV { custom_key: value, ..t }
    } else {
        t
    }
}

fn same(s: &str, lit: &str) -> (r: bool)
    ensures
        r == (s@ == lit@),
{
    s.to_owned() == lit.to_owned()
}

/// Applies the saved value of `key` (without its `tlscfg:` prefix).
pub fn apply_tls_setting(t: &mut TlsSettings, key: &str, value: &str)
    ensures
        final(t)@ == tls_setting_applied(old(t)@, key@, value@),
{
    if same(key, "enabled") {
        t.enabled = same(value, "1");
    } else if same(key, "port") {
        let c = crate::text::chars_of(value);
        if parse_u16_chars(c.as_slice()).is_some() {
            t.port = value.to_owned();
        }
    } else if same(key, "bind") {
        t.bind = parse_tls_bind(value);
    } else if same(key, "mode") {
        t.mode = parse_tls_mode(value);
    } else if same(key, "domain") {
        t.domain = value.to_owned();
    } else if same(key, "email") {
        t.email = value.to_owned();
    } else if same(key, "staging") {
        t.staging = same(value, "1");
    } else if same(key, "custom_cert") {
        t.custom_cert = value.to_owned();
    } else if same(key, "custom_key") {
        t.custom_key = value.to_owned();
    }
}

/// The keys of the saved HTTPS settings, in the order they are written.
pub open spec fn tls_saved_pairs(t: TlsSettingsV) -> Seq<(Seq<char>, Seq<char>)> {
    seq![
        ("tlscfg:enabled"@, if t.enabled { "1"@ } else { "0"@ }),
        ("tlscfg:port"@, trim(t.port)),
        ("tlscfg:bind"@, bind_text(t.bind)),
        ("tlscfg:mode"@, mode_text(t.mode)),
        ("tlscfg:domain"@, trim(t.domain)),
        ("tlscfg:email"@, trim(t.email)),
        ("tlscfg:staging"@, if t.staging { "1"@ } else { "0"@ }),
        ("tlscfg:custom_cert"@, trim(t.custom_cert)),
        ("tlscfg:custom_key"@, trim(t.custom_key)),
    ]
}

fn pair(v: &mut Vec<(String, String)>, k: &str, x: String)
    ensures
        string_pairs(final(v)@) == string_pairs(old(v)@).push((k@, x@)),
{
    v.push((k.to_owned(), x));
    assert(string_pairs(v@) =~= string_pairs(old(v)@).push((k@, x@)));
}

fn flag(b: bool) -> (r: String)
    ensures
        r@ == (if b { "1"@ } else { "0"@ }),
{
    if b {
        "1".to_owned()
    } else {
        "0".to_owned()
    }
}

/// The values to write when the HTTPS settings are saved (text fields trimmed).
pub fn tls_cfg_pairs(t: &TlsSettings) -> (r: Vec<(String, String)>)
    ensures
        string_pairs(r@) == tls_saved_pairs(t@),
{
    let mut v: Vec<(String, String)> = Vec::new();
    assert(string_pairs(v@) =~= Seq::<(Seq<char>, Seq<char>)>::empty());
    pair(&mut v, "tlscfg:enabled", flag(t.enabled));
    pair(&mut v, "tlscfg:port", trimmed(t.port.as_str()));
    pair(&mut v, "tlscfg:bind", tls_bind_str(t.bind).to_owned());
    pair(&mut v, "tlscfg:mode", tls_mode_str(t.mode).to_owned());
    pair(&mut v, "tlscfg:domain", trimmed(t.domain.as_str()));
    pair(&mut v, "tlscfg:email", trimmed(t.email.as_str()));
    pair(&mut v, "tlscfg:staging", flag(t.staging));
    pair(&mut v, "tlscfg:custom_cert", trimmed(t.custom_cert.as_str()));
    pair(&mut v, "tlscfg:custom_key", trimmed(t.custom_key.as_str()));
    assert(string_pairs(v@) =~= tls_saved_pairs(t@));
    v
}

// ───────────────────────── reading back what was saved ─────────────────────────

/// One saved pair applied: its key read without the `tlscfg:` prefix.
#[verifier::opaque]
pub open spec fn apply_tls_pair(t: TlsSettingsV, pair: (Seq<char>, Seq<char>)) -> TlsSettingsV {
    tls_setting_applied(t, pair.0.skip(7), pair.1)
}

/// The settings after the saved pairs are applied in order.
pub open spec fn apply_tls_saved(t: TlsSettingsV, pairs: Seq<(Seq<char>, Seq<char>)>) -> TlsSettingsV
    decreases pairs.len(),
{
    if pairs.len() == 0 {
        t
    } else {
        apply_tls_saved(apply_tls_pair(t, pairs[0]), pairs.drop_first())
    }
}

proof fn lemma_apply_steps(p: Seq<(Seq<char>, Seq<char>)>, steps: Seq<TlsSettingsV>)
    requires
        steps.len() == p.len() + 1,
        forall|i: int| 0 <= i < p.len() ==> steps[i + 1] == apply_tls_pair(steps[i], #[trigger] p[i]),
    ensures
        apply_tls_saved(steps[0], p) == steps[p.len() as int],
    decreases p.len(),
{
    if p.len() > 0 {
        assert(steps[1] == apply_tls_pair(steps[0], p[0]));
        let rest = steps.drop_first();
        let q = p.drop_first();
        assert forall|i: int| 0 <= i < q.len() implies rest[i + 1] == apply_tls_pair(rest[i], #[trigger] q[i]) by {
            assert(q[i] == p[i + 1]);
            assert(rest[i + 1] == steps[i + 2]);
            assert(rest[i] == steps[i + 1]);
        }
        lemma_apply_steps(q, rest);
    }
}

proof fn lemma_key_lengths()
    ensures
        "enabled"@.len() == 7 && "port"@.len() == 4 && "bind"@.len() == 4 && "mode"@.len() == 4,
        "domain"@.len() == 6 && "email"@.len() == 5 && "staging"@.len() == 7,
        "custom_cert"@.len() == 11 && "custom_key"@.len() == 10,
        "enabled"@ != "staging"@,
        "port"@ != "bind"@ && "port"@ != "mode"@ && "bind"@ != "mode"@,
{
    reveal_strlit("enabled");
    reveal_strlit("port");
    reveal_strlit("bind");
    reveal_strlit("mode");
    reveal_strlit("domain");
    reveal_strlit("email");
    reveal_strlit("staging");
    reveal_strlit("custom_cert");
    reveal_strlit("custom_key");
    assert("enabled"@[0] != "staging"@[0]);
    assert("port"@[0] != "bind"@[0]);
    assert("port"@[0] != "mode"@[0]);
    assert("bind"@[0] != "mode"@[0]);
}
proof fn lemma_read_enabled(s: TlsSettingsV, t: TlsSettingsV)
    ensures
        apply_tls_pair(s, ("tlscfg:enabled"@, if t.enabled { "1"@ } else { "0"@ })) == (TlsSettingsV { enabled: t.enabled, ..s }),
{
    reveal(apply_tls_pair);
    reveal_strlit("tlscfg:enabled");
    lemma_key_lengths();
    reveal_strlit("enabled");
    reveal_strlit("port");
    reveal_strlit("bind");
    reveal_strlit("mode");
    reveal_strlit("domain");
    reveal_strlit("email");
    reveal_strlit("staging");
    reveal_strlit("custom_cert");
    reveal_strlit("custom_key");
    reveal_strlit("0");
    reveal_strlit("1");
    assert("1"@[0] == '1' && "0"@[0] == '0');
    assert("1"@ != "0"@);
    assert(("tlscfg:enabled"@).skip(7) =~= "enabled"@);
}

proof fn lemma_read_port(s: TlsSettingsV, t: TlsSettingsV)
    ensures
        apply_tls_pair(s, ("tlscfg:port"@, trim(t.port))) == (if parse_u16(trim(t.port)) is Some { TlsSettingsV { port: trim(t.port), ..s } } else { s }),
{
    reveal(apply_tls_pair);
    reveal_strlit("tlscfg:port");
    lemma_key_lengths();
    reveal_strlit("enabled");
    reveal_strlit("port");
    reveal_strlit("bind");
    reveal_strlit("mode");
    reveal_strlit("domain");
    reveal_strlit("email");
    reveal_strlit("staging");
    reveal_strlit("custom_cert");
    reveal_strlit("custom_key");
    assert(("tlscfg:port"@).skip(7) =~= "port"@);
}

proof fn lemma_read_bind(s: TlsSettingsV, t: TlsSettingsV)
    ensures
        apply_tls_pair(s, ("tlscfg:bind"@, bind_text(t.bind))) == (TlsSettingsV { bind: t.bind, ..s }),
{
    reveal(apply_tls_pair);
    reveal_strlit("tlscfg:bind");
    lemma_key_lengths();
    reveal_strlit("enabled");
    reveal_strlit("port");
    reveal_strlit("bind");
    reveal_strlit("mode");
    reveal_strlit("domain");
    reveal_strlit("email");
    reveal_strlit("staging");
    reveal_strlit("custom_cert");
    reveal_strlit("custom_key");
    reveal_strlit("loopback");
    reveal_strlit("lan");
    reveal_strlit("all");
    assert("loopback"@.len() == 8 && "lan"@.len() == 3 && "all"@.len() == 3 && "lan"@[0] != "all"@[0]);
    assert(("tlscfg:bind"@).skip(7) =~= "bind"@);
}

proof fn lemma_read_mode(s: TlsSettingsV, t: TlsSettingsV)
    ensures
        apply_tls_pair(s, ("tlscfg:mode"@, mode_text(t.mode))) == (TlsSettingsV { mode: t.mode, ..s }),
{
    reveal(apply_tls_pair);
    reveal_strlit("tlscfg:mode");
    lemma_key_lengths();
    reveal_strlit("enabled");
    reveal_strlit("port");
    reveal_strlit("bind");
    reveal_strlit("mode");
    reveal_strlit("domain");
    reveal_strlit("email");
    reveal_strlit("staging");
    reveal_strlit("custom_cert");
    reveal_strlit("custom_key");
    reveal_strlit("selfsigned");
    reveal_strlit("letsencrypt");
    reveal_strlit("custom");
    assert("selfsigned"@.len() == 10 && "letsencrypt"@.len() == 11 && "custom"@.len() == 6);
    assert(("tlscfg:mode"@).skip(7) =~= "mode"@);
}

proof fn lemma_read_domain(s: TlsSettingsV, t: TlsSettingsV)
    ensures
        apply_tls_pair(s, ("tlscfg:domain"@, trim(t.domain))) == (TlsSettingsV { domain: trim(t.domain), ..s }),
{
    reveal(apply_tls_pair);
    reveal_strlit("tlscfg:domain");
    lemma_key_lengths();
    reveal_strlit("enabled");
    reveal_strlit("port");
    reveal_strlit("bind");
    reveal_strlit("mode");
    reveal_strlit("domain");
    reveal_strlit("email");
    reveal_strlit("staging");
    reveal_strlit("custom_cert");
    reveal_strlit("custom_key");
    assert(("tlscfg:domain"@).skip(7) =~= "domain"@);
}

proof fn lemma_read_email(s: TlsSettingsV, t: TlsSettingsV)
    ensures
        apply_tls_pair(s, ("tlscfg:email"@, trim(t.email))) == (TlsSettingsV { email: trim(t.email), ..s }),
{
    reveal(apply_tls_pair);
    reveal_strlit("tlscfg:email");
    lemma_key_lengths();
    reveal_strlit("enabled");
    reveal_strlit("port");
    reveal_strlit("bind");
    reveal_strlit("mode");
    reveal_strlit("domain");
    reveal_strlit("email");
    reveal_strlit("staging");
    reveal_strlit("custom_cert");
    reveal_strlit("custom_key");
    assert(("tlscfg:email"@).skip(7) =~= "email"@);
}

proof fn lemma_read_staging(s: TlsSettingsV, t: TlsSettingsV)
    ensures
        apply_tls_pair(s, ("tlscfg:staging"@, if t.staging { "1"@ } else { "0"@ })) == (TlsSettingsV { staging: t.staging, ..s }),
{
    reveal(apply_tls_pair);
    reveal_strlit("tlscfg:staging");
    lemma_key_lengths();
    reveal_strlit("enabled");
    reveal_strlit("port");
    reveal_strlit("bind");
    reveal_strlit("mode");
    reveal_strlit("domain");
    reveal_strlit("email");
    reveal_strlit("staging");
    reveal_strlit("custom_cert");
    reveal_strlit("custom_key");
    reveal_strlit("0");
    reveal_strlit("1");
    assert("1"@[0] == '1' && "0"@[0] == '0');
    assert("1"@ != "0"@);
    assert(("tlscfg:staging"@).skip(7) =~= "staging"@);
}

proof fn lemma_read_custom_cert(s: TlsSettingsV, t: TlsSettingsV)
    ensures
        apply_tls_pair(s, ("tlscfg:custom_cert"@, trim(t.custom_cert))) == (TlsSettingsV { custom_cert: trim(t.custom_cert), ..s }),
{
    reveal(apply_tls_pair);
    reveal_strlit("tlscfg:custom_cert");
    lemma_key_lengths();
    reveal_strlit("enabled");
    reveal_strlit("port");
    reveal_strlit("bind");
    reveal_strlit("mode");
    reveal_strlit("domain");
    reveal_strlit("email");
    reveal_strlit("staging");
    reveal_strlit("custom_cert");
    reveal_strlit("custom_key");
    assert(("tlscfg:custom_cert"@).skip(7) =~= "custom_cert"@);
}

proof fn lemma_read_custom_key(s: TlsSettingsV, t: TlsSettingsV)
    ensures
        apply_tls_pair(s, ("tlscfg:custom_key"@, trim(t.custom_key))) == (TlsSettingsV { custom_key: trim(t.custom_key), ..s }),
{
    reveal(apply_tls_pair);
    reveal_strlit("tlscfg:custom_key");
    lemma_key_lengths();
    reveal_strlit("enabled");
    reveal_strlit("port");
    reveal_strlit("bind");
    reveal_strlit("mode");
    reveal_strlit("domain");
    reveal_strlit("email");
    reveal_strlit("staging");
    reveal_strlit("custom_cert");
    reveal_strlit("custom_key");
    assert(("tlscfg:custom_key"@).skip(7) =~= "custom_key"@);
}

/// Saved HTTPS settings are read back: applying the pairs that `t` is saved
/// as, to any settings `s`, gives `t` with its text fields trimmed; a port that
/// does not parse keeps `s`'s.
pub proof fn tls_settings_read_back(s: TlsSettingsV, t: TlsSettingsV)
    ensures
        apply_tls_saved(s, tls_saved_pairs(t)) == (TlsSettingsV {
            enabled: t.enabled,
            port: if parse_u16(trim(t.port)) is Some { trim(t.port) } else { s.port },
            bind: t.bind,
            mode: t.mode,
            domain: trim(t.domain),
            email: trim(t.email),
            staging: t.staging,
            custom_cert: trim(t.custom_cert),
            custom_key: trim(t.custom_key),
        }),
{
    let p = tls_saved_pairs(t);
    lemma_read_enabled(s, t);
    let s1 = apply_tls_pair(s, p[0]);
    lemma_read_port(s1, t);
    let s2 = apply_tls_pair(s1, p[1]);
    lemma_read_bind(s2, t);
    let s3 = apply_tls_pair(s2, p[2]);
    lemma_read_mode(s3, t);
    let s4 = apply_tls_pair(s3, p[3]);
    lemma_read_domain(s4, t);
    let s5 = apply_tls_pair(s4, p[4]);
    lemma_read_email(s5, t);
    let s6 = apply_tls_pair(s5, p[5]);
    lemma_read_staging(s6, t);
    let s7 = apply_tls_pair(s6, p[6]);
    lemma_read_custom_cert(s7, t);
    let s8 = apply_tls_pair(s7, p[7]);
    lemma_read_custom_key(s8, t);
    let s9 = apply_tls_pair(s8, p[8]);
    let steps = seq![s, s1, s2, s3, s4, s5, s6, s7, s8, s9];
    assert forall|i: int| 0 <= i < p.len() implies steps[i + 1] == apply_tls_pair(steps[i], #[trigger] p[i]) by {
        if i == 0 {
        } else if i == 1 {
        } else if i == 2 {
        } else if i == 3 {
        } else if i == 4 {
        } else if i == 5 {
        } else if i == 6 {
        } else if i == 7 {
        } else {
        }
    }
    lemma_apply_steps(p, steps);
}

} // verus!
