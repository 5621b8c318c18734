use vstd::prelude::*;
use crate::text::{
    chars_of, string_of, push_str, push_chars, slice_chars, trim, trimmed, trim_str, lines_of, text_lines, words,
    split_words, string_seqs, contains_seq, str_contains, starts_with, starts_with_chars, lowercase_of,
    to_lowercase,
};
use crate::http::{decimal, decimal_chars, decimal_string};
use crate::crypto::{sha256, sha256_of, hex_digit_upper, hex_char_upper, hex_digit_lower, hex_char_lower};
use crate::tunnel::{parse_u16, parse_u16_chars, Language, tr};
use crate::table::{keys_unique, table_map, table_get};
use crate::text::{strictly_sorted, insert_sorted, find_chars, first_index, occurs_at, lemma_first_index_occurs, bytes_of};
use vstd::utf8::encode_utf8;

verus! {

/// Renew a certificate when fewer days than this are left.
pub const RENEW_BEFORE_DAYS: i64 = 30;
/// Validity of the self-signed certificate (the most Apple and Chrome accept).
pub const SELF_SIGNED_DAYS: i64 = 825;
/// Default HTTPS port (8000 stays the engine's HTTP).
pub const DEFAULT_TLS_PORT: u16 = 8443;
/// The ACME HTTP-01 port, fixed by RFC 8555 §8.3.
pub const ACME_HTTP01_PORT: u16 = 80;
pub const SELF_SIGNED_CERT: &'static str = "selfsigned.crt";
pub const SELF_SIGNED_KEY: &'static str = "selfsigned.key";
pub const ACME_CERT: &'static str = "letsencrypt.crt";
pub const ACME_KEY: &'static str = "letsencrypt.key";
pub const ACME_ACCOUNT: &'static str = "letsencrypt-account.json";
pub const INIT_LOG: &'static str = "tls-init.log";

/// Where the HTTPS certificate comes from.
#[derive(PartialEq, Eq, Structural, Clone, Copy, Debug)]
pub enum TlsMode {
    SelfSigned,
    LetsEncrypt,
    Custom,
}

/// The address the HTTPS listener binds.
#[derive(PartialEq, Eq, Structural, Clone, Copy, Debug)]
pub enum TlsBind {
    Loopback,
    Lan,
    All,
}

/// HTTPS as tested: `Listening` only after a real handshake and a JSON-RPC answer.
#[derive(PartialEq, Eq, Structural, Clone, Copy, Debug)]
pub enum TlsStatus {
    Stopped,
    /// Listener up, but no JSON-RPC behind it.
    ListeningNoMcp,
    Listening,
    Error,
}

pub fn tls_mode_str(m: TlsMode) -> (r: &'static str)
    ensures
        r@ == (match m {
            TlsMode::SelfSigned => "selfsigned"@,
            TlsMode::LetsEncrypt => "letsencrypt"@,
            TlsMode::Custom => "custom"@,
        }),
{
    match m {
        TlsMode::SelfSigned => "selfsigned",
        TlsMode::LetsEncrypt => "letsencrypt",
        TlsMode::Custom => "custom",
    }
}

pub fn tls_bind_str(b: TlsBind) -> (r: &'static str)
    ensures
        r@ == (match b {
            TlsBind::Loopback => "loopback"@,
            TlsBind::Lan => "lan"@,
            TlsBind::All => "all"@,
        }),
{
    match b {
        TlsBind::Loopback => "loopback",
        TlsBind::Lan => "lan",
        TlsBind::All => "all",
    }
}

/// The bind a saved name selects (`lan` unless `loopback` or `all`).
pub open spec fn bind_named(v: Seq<char>) -> TlsBind {
    if v == "loopback"@ {
        TlsBind::Loopback
    } else if v == "all"@ {
        TlsBind::All
    } else {
        TlsBind::Lan
    }
}

pub fn parse_tls_bind(v: &str) -> (r: TlsBind)
    ensures
        r == bind_named(v@),
{
    if v.to_owned() == "loopback".to_owned() {
        TlsBind::Loopback
    } else if v.to_owned() == "all".to_owned() {
        TlsBind::All
    } else {
        TlsBind::Lan
    }
}

/// The address to bind: loopback, every address, or the LAN address (every
/// address when none is known).
pub open spec fn bind_ip(b: TlsBind, lan_ip: Seq<char>) -> Seq<char> {
    match b {
        TlsBind::Loopback => "127.0.0.1"@,
        TlsBind::All => "0.0.0.0"@,
        TlsBind::Lan => if trim(lan_ip).len() == 0 {
            "0.0.0.0"@
        } else {
            trim(lan_ip)
        },
    }
}

pub fn tls_bind_ip(b: TlsBind, lan_ip: &str) -> (r: String)
    ensures
        r@ == bind_ip(b, lan_ip@),
{
    match b {
        TlsBind::Loopback => "127.0.0.1".to_owned(),
        TlsBind::All => "0.0.0.0".to_owned(),
        TlsBind::Lan => {
            let ip = trimmed(lan_ip);
            if ip.as_str().is_empty() {
                "0.0.0.0".to_owned()
            } else {
                ip
            }
        },
    }
}

/// The HTTPS URL that works now: the public domain for a Let's Encrypt
/// certificate, the LAN address when the LAN probe passed, loopback otherwise.
pub open spec fn tls_url_spec(
    status: TlsStatus,
    port: Seq<char>,
    domain: Seq<char>,
    mode: TlsMode,
    lan_probe_ok: bool,
    lan_ip: Seq<char>,
) -> Seq<char> {
    let host = match status {
        TlsStatus::Listening | TlsStatus::ListeningNoMcp => if trim(domain).len() > 0 && mode == TlsMode::LetsEncrypt {
            trim(domain)
        } else if lan_probe_ok {
            trim(lan_ip)
        } else {
            "127.0.0.1"@
        },
        _ => "127.0.0.1"@,
    };
    "https://"@ + host + ":"@ + trim(port) + "/mcp"@
}

pub fn tls_url(status: TlsStatus, port: &str, domain: &str, mode: TlsMode, lan_probe_ok: bool, lan_ip: &str) -> (r: String)
    ensures
        r@ == tls_url_spec(status, port@, domain@, mode, lan_probe_ok, lan_ip@),
{
    let d = trimmed(domain);
    let host = match status {
        TlsStatus::Listening | TlsStatus::ListeningNoMcp => {
            if !d.as_str().is_empty() && mode == TlsMode::LetsEncrypt {
                d
            } else if lan_probe_ok {
                trimmed(lan_ip)
            } else {
                "127.0.0.1".to_owned()
            }
        },
        _ => "127.0.0.1".to_owned(),
    };
    let mut out: Vec<char> = Vec::new();
    push_str(&mut out, "https://");
    push_str(&mut out, host.as_str());
    push_str(&mut out, ":");
    push_str(&mut out, trimmed(port).as_str());
    push_str(&mut out, "/mcp");
    string_of(out.as_slice())
}

/// The verdict of the loopback probe.
pub open spec fn tls_status_spec(tls_ok: bool, jsonrpc: bool) -> TlsStatus {
    if tls_ok && jsonrpc {
        TlsStatus::Listening
    } else if tls_ok {
        TlsStatus::ListeningNoMcp
    } else {
        TlsStatus::Error
    }
}

pub fn tls_status_of(tls_ok: bool, jsonrpc: bool) -> (r: TlsStatus)
    ensures
        r == tls_status_spec(tls_ok, jsonrpc),
{
    if tls_ok && jsonrpc {
        TlsStatus::Listening
    } else if tls_ok {
        TlsStatus::ListeningNoMcp
    } else {
        TlsStatus::Error
    }
}

/// Whom the HTTPS check probes: the SNI name, the local target, and the LAN
/// address too when the listener binds every address.
pub struct ProbePlan {
    pub sni: String,
    pub local_target: String,
    pub lan_target: Option<String>,
}

pub open spec fn probe_plan_spec(bind: Seq<char>, domain: Seq<char>, lan_ip: Seq<char>) -> (Seq<char>, Seq<char>, Option<Seq<char>>) {
    let sni = if trim(domain).len() == 0 {
        "localhost"@
    } else {
        trim(domain)
    };
    let local = if bind == "127.0.0.1"@ || bind == "0.0.0.0"@ {
        "127.0.0.1"@
    } else {
        bind
    };
    let lan = trim(lan_ip);
    let lan_target = if bind == "0.0.0.0"@ && lan != "127.0.0.1"@ && lan.len() > 0 {
        Some(lan)
    } else {
        None
    };
    (sni, local, lan_target)
}

pub fn probe_plan(bind: &str, domain: &str, lan_ip: &str) -> (r: ProbePlan)
    ensures
        probe_plan_spec(bind@, domain@, lan_ip@) == (
            r.sni@,
            r.local_target@,
            match r.lan_target {
                Some(t) => Some(t@),
                None => None,
            },
        ),
{
    let d = trimmed(domain);
    let sni = if d.as_str().is_empty() {
        "localhost".to_owned()
    } else {
        d
    };
    let b = bind.to_owned();
    let loop_b = b == "127.0.0.1".to_owned();
    let any_b = b == "0.0.0.0".to_owned();
    let local_target = if loop_b || any_b {
        "127.0.0.1".to_owned()
    } else {
        b
    };
    let lan = trimmed(lan_ip);
    let lan_target = if any_b && !(lan == "127.0.0.1".to_owned()) && !lan.as_str().is_empty() {
        Some(lan)
    } else {
        None
    };
    ProbePlan { sni, local_target, lan_target }
}

/// Whether the LAN works: the LAN probe when there is one, else the loopback probe
/// counts for the LAN unless the listener is on loopback only.
pub open spec fn lan_ok_spec(lan_probe: Option<(bool, bool)>, local_tls: bool, local_jsonrpc: bool, bind: Seq<char>) -> bool {
    match lan_probe {
        Some((t, j)) => t && j,
        None => local_tls && local_jsonrpc && bind != "127.0.0.1"@,
    }
}

pub fn lan_ok(lan_probe: Option<(bool, bool)>, local_tls: bool, local_jsonrpc: bool, bind: &str) -> (r: bool)
    ensures
        r == lan_ok_spec(lan_probe, local_tls, local_jsonrpc, bind@),
{
    match lan_probe {
        Some((t, j)) => t && j,
        None => local_tls && local_jsonrpc && !(bind.to_owned() == "127.0.0.1".to_owned()),
    }
}

/// Why the HTTPS listener cannot start on the configured ports.
#[derive(PartialEq, Eq, Structural, Clone, Copy, Debug)]
pub enum TlsPortError {
    InvalidPort,
    SameAsHttp,
}

impl TlsPortError {
    /// The message shown for it, in each language.
    pub open spec fn shown(self, lang: Language) -> Seq<char> {
        match (self, lang) {
            (TlsPortError::InvalidPort, Language::PtBr) => "Porta HTTPS invalida."@,
            (TlsPortError::InvalidPort, Language::English) => "Invalid HTTPS port."@,
            (TlsPortError::SameAsHttp, Language::PtBr) => "A porta HTTPS nao pode ser a mesma do HTTP do motor."@,
            (TlsPortError::SameAsHttp, Language::English) =>
                "The HTTPS port cannot be the same as the engine's HTTP port."@,
        }
    }

    pub fn message(self, lang: Language) -> (r: &'static str)
        ensures
            r@ == self.shown(lang),
    {
        match self {
            TlsPortError::InvalidPort => tr(lang, "Porta HTTPS invalida.", "Invalid HTTPS port."),
            TlsPortError::SameAsHttp => tr(
                lang,
                "A porta HTTPS nao pode ser a mesma do HTTP do motor.",
                "The HTTPS port cannot be the same as the engine's HTTP port.",
            ),
        }
    }
}

/// The HTTPS port and the engine's port (8000 when its field does not parse);
/// refused when the HTTPS field is not a port or when both are the same.
pub open spec fn tls_ports_spec(tls_field: Seq<char>, http_field: Seq<char>) -> Result<(u16, u16), TlsPortError> {
    match parse_u16(trim(tls_field)) {
        None => Err(TlsPortError::InvalidPort),
        Some(t) => {
            let h = match parse_u16(trim(http_field)) {
                Some(h) => h,
                None => 8000u16,
            };
            if t == h {
                Err(TlsPortError::SameAsHttp)
            } else {
                Ok((t, h))
            }
        },
    }
}

pub fn tls_ports(tls_field: &str, http_field: &str) -> (r: Result<(u16, u16), TlsPortError>)
    ensures
        r == tls_ports_spec(tls_field@, http_field@),
{
    let tf = trim_str(tls_field);
    let t = match parse_u16_chars(tf.as_slice()) {
        Some(t) => t,
        None => {
            return Err(TlsPortError::InvalidPort);
        },
    };
    let hf = trim_str(http_field);
    let h = match parse_u16_chars(hf.as_slice()) {
        Some(h) => h,
        None => 8000,
    };
    if t == h {
        Err(TlsPortError::SameAsHttp)
    } else {
        Ok((t, h))
    }
}

/// What the periodic renewal check does for a certificate near its end.
#[derive(PartialEq, Eq, Structural, Clone, Copy, Debug)]
pub enum RenewAction {
    RegenerateSelfSigned,
    IssueLetsEncrypt,
    WarnCustom,
}

pub open spec fn renew_action_spec(m: TlsMode) -> RenewAction {
    match m {
        TlsMode::SelfSigned => RenewAction::RegenerateSelfSigned,
        TlsMode::LetsEncrypt => RenewAction::IssueLetsEncrypt,
        TlsMode::Custom => RenewAction::WarnCustom,
    }
}

pub fn renew_action(m: TlsMode) -> (r: RenewAction)
    ensures
        r == renew_action_spec(m),
{
    match m {
        TlsMode::SelfSigned => RenewAction::RegenerateSelfSigned,
        TlsMode::LetsEncrypt => RenewAction::IssueLetsEncrypt,
        TlsMode::Custom => RenewAction::WarnCustom,
    }
}


// ───────────────────────── certificates as plain values ─────────────────────────

/// A UTC date and time: the Unix timestamp with its nanoseconds, and the
/// calendar fields.
#[derive(Clone, Copy)]
pub struct DateTimeParts {
    pub unix: i64,
    pub nanos: u32,
    pub year: i32,
    pub month: u8,
    pub day: u8,
    pub hour: u8,
    pub minute: u8,
}

/// A subject alternative name: a DNS name, an IP address (its bytes), or a
/// kind the screen does not show.
pub enum SanName {
    Dns(String),
    Ip(Vec<u8>),
    Other,
}

pub enum SanNameV {
    Dns(Seq<char>),
    Ip(Seq<u8>),
    Other,
}

impl View for SanName {
    type V = SanNameV;

    open spec fn view(&self) -> SanNameV {
        match self {
            SanName::Dns(d) => SanNameV::Dns(d@),
            SanName::Ip(b) => SanNameV::Ip(b@),
            SanName::Other => SanNameV::Other,
        }
    }
}

/// What the certificate says, as read by x509-parser.
pub struct X509Fields {
    pub subject: String,
    pub issuer: String,
    pub sans: Vec<SanName>,
    pub not_before: DateTimeParts,
    pub not_after: DateTimeParts,
}

pub struct X509FieldsV {
    pub subject: Seq<char>,
    pub issuer: Seq<char>,
    pub sans: Seq<SanNameV>,
    pub not_before: DateTimeParts,
    pub not_after: DateTimeParts,
}

impl View for X509Fields {
    type V = X509FieldsV;

    open spec fn view(&self) -> X509FieldsV {
        X509FieldsV {
            subject: self.subject@,
            issuer: self.issuer@,
            sans: self.sans@.map_values(|n: SanName| n@),
            not_before: self.not_before,
            not_after: self.not_after,
        }
    }
}

#[verifier::external_type_specification]
#[verifier::external_body]
pub struct ExOffsetDateTime(time::OffsetDateTime);

#[verifier::external_type_specification]
#[verifier::external_body]
pub struct ExGeneralName<'a>(x509_parser::extensions::GeneralName<'a>);

/// The calendar fields of a time value, one field for one field.
#[verifier::external_body]
fn date_parts(t: time::OffsetDateTime) -> DateTimeParts {
    DateTimeParts {
        unix: t.unix_timestamp(),
        nanos: t.nanosecond(),
        year: t.year(),
        month: u8::from(t.month()),
        day: t.day(),
        hour: t.hour(),
        minute: t.minute(),
    }
}

/// A general name, one variant for one variant (the kinds not shown become `Other`).
#[verifier::external_body]
fn san_name(g: &x509_parser::extensions::GeneralName) -> SanName {
    match g {
        x509_parser::extensions::GeneralName::DNSName(d) => SanName::Dns(d.to_string()),
        x509_parser::extensions::GeneralName::IPAddress(ip) => SanName::Ip(ip.to_vec()),
        _ => SanName::Other,
    }
}

/// What `x509_parser::parse_x509_certificate` reads from these DER bytes:
/// subject and issuer as text, the SAN extension's names (none when it is
/// missing or invalid), and the validity period.
pub uninterp spec fn x509_fields_of(der: Seq<u8>) -> Option<X509FieldsV>;

/// Calls `x509_parser::parse_x509_certificate`; the fields read are named.
#[verifier::external_body]
pub(crate) fn parse_x509(der: &[u8]) -> (r: Option<X509Fields>)
    ensures
        match r {
            Some(f) => x509_fields_of(der@) == Some(f@),
            None => x509_fields_of(der@) is None,
        },
{
    let (_, cert) = x509_parser::parse_x509_certificate(der).ok()?;
    let sans = match cert.subject_alternative_name() {
        Ok(Some(ext)) => ext.value.general_names.iter().map(san_name).collect(),
        _ => Vec::new(),
    };
    let v = cert.validity();
    Some(X509Fields {
        subject: cert.subject().to_string(),
        issuer: cert.issuer().to_string(),
        sans,
        not_before: date_parts(v.not_before.to_datetime()),
        not_after: date_parts(v.not_after.to_datetime()),
    })
}

/// What `x509_parser::pem::parse_x509_pem` gives as the contents of the first
/// PEM block of these bytes.
pub uninterp spec fn pem_contents_of(pem: Seq<u8>) -> Option<Seq<u8>>;

/// Calls `x509_parser::pem::parse_x509_pem`; the DER contents are named.
#[verifier::external_body]
pub(crate) fn pem_contents(pem: &[u8]) -> (r: Option<Vec<u8>>)
    ensures
        match r {
            Some(d) => pem_contents_of(pem@) == Some(d@),
            None => pem_contents_of(pem@) is None,
        },
{
    x509_parser::pem::parse_x509_pem(pem).ok().map(|(_, doc)| doc.contents)
}

/// Reads the clock (`time::OffsetDateTime::now_utc`); nothing is stated of it.
#[verifier::external_body]
pub(crate) fn now_utc() -> DateTimeParts {
    date_parts(time::OffsetDateTime::now_utc())
}

// ───────────────────────── formatting ─────────────────────────

/// `n` in decimal, padded with zeros to `w` digits.
pub open spec fn zero_pad(n: nat, w: nat) -> Seq<char> {
    let d = decimal(n);
    if d.len() < w {
        Seq::new((w - d.len()) as nat, |i: int| '0') + d
    } else {
        d
    }
}

fn zero_padded(n: u64, w: usize) -> (r: Vec<char>)
    ensures
        r@ == zero_pad(n as nat, w as nat),
{
    let d = decimal_chars(n);
    let mut out: Vec<char> = Vec::new();
    if d.len() < w {
        let k = w - d.len();
        let mut i: usize = 0;
        while i < k
            invariant
                i <= k,
                out@ == Seq::new(i as nat, |j: int| '0'),
            decreases k - i,
        {
            out.push('0');
            i = i + 1;
            assert(out@ =~= Seq::new(i as nat, |j: int| '0'));
        }
    }
    push_chars(&mut out, d.as_slice());
    out
}

/// `{:04}` of a year: four digits, the sign counted in the width.
pub open spec fn year_text(y: i32) -> Seq<char> {
    if y >= 0 {
        zero_pad(y as nat, 4)
    } else {
        seq!['-'] + zero_pad((-y) as nat, 3)
    }
}

/// `YYYY-MM-DD HH:MM UTC`.
pub open spec fn datetime_text(t: DateTimeParts) -> Seq<char> {
    year_text(t.year) + seq!['-'] + zero_pad(t.month as nat, 2) + seq!['-'] + zero_pad(t.day as nat, 2) + seq![' ']
        + zero_pad(t.hour as nat, 2) + seq![':'] + zero_pad(t.minute as nat, 2) + " UTC"@
}

pub fn fmt_dt(t: &DateTimeParts) -> (r: String)
    ensures
        r@ == datetime_text(*t),
{
    let mut out: Vec<char> = Vec::new();
    if t.year >= 0 {
        push_chars(&mut out, zero_padded(t.year as u64, 4).as_slice());
    } else {
        out.push('-');
        let y: i64 = t.year as i64;
        push_chars(&mut out, zero_padded((-y) as u64, 3).as_slice());
    }
    out.push('-');
    push_chars(&mut out, zero_padded(t.month as u64, 2).as_slice());
    out.push('-');
    push_chars(&mut out, zero_padded(t.day as u64, 2).as_slice());
    out.push(' ');
    push_chars(&mut out, zero_padded(t.hour as u64, 2).as_slice());
    out.push(':');
    push_chars(&mut out, zero_padded(t.minute as u64, 2).as_slice());
    push_str(&mut out, " UTC");
    assert(out@ =~= datetime_text(*t));
    string_of(out.as_slice())
}

/// The SHA-256 of the DER, upper-case hex, bytes joined by `:`.
pub open spec fn fingerprint_text(d: Seq<u8>) -> Seq<char>
    decreases d.len(),
{
    if d.len() == 0 {
        seq![]
    } else if d.len() == 1 {
        seq![hex_digit_upper((d[0] / 16) as int), hex_digit_upper((d[0] % 16) as int)]
    } else {
        fingerprint_text(d.drop_last()) + seq![
            ':',
            hex_digit_upper((d.last() / 16) as int),
            hex_digit_upper((d.last() % 16) as int),
        ]
    }
}

/// Three characters per byte but the first, which has no colon.
pub proof fn lemma_fingerprint_len(d: Seq<u8>)
    requires
        d.len() > 0,
    ensures
        fingerprint_text(d).len() == 3 * d.len() - 1,
    decreases d.len(),
{
    if d.len() > 1 {
        lemma_fingerprint_len(d.drop_last());
    }
}

pub fn fingerprint(der: &[u8]) -> (r: String)
    ensures
        r@ == fingerprint_text(sha256_of(der@)),
        r@.len() == 95,
{
    let d = sha256(der);
    proof {
        lemma_fingerprint_len(d@);
    }
    let mut out: Vec<char> = Vec::new();
    let mut i: usize = 0;
    while i < d.len()
        invariant
            i <= d@.len(),
            out@ == fingerprint_text(d@.take(i as int)),
        decreases d@.len() - i,
    {
        assert(d@.take(i + 1).drop_last() =~= d@.take(i as int));
        if i > 0 {
            out.push(':');
        }
        out.push(hex_char_upper(d[i] / 16));
        out.push(hex_char_upper(d[i] % 16));
        i = i + 1;
        assert(out@ =~= fingerprint_text(d@.take(i as int)));
    }
    assert(d@.take(d@.len() as int) =~= d@);
    string_of(out.as_slice())
}

/// Division rounded toward zero.
pub open spec fn trunc_div(a: int, b: int) -> int {
    if a >= 0 {
        a / b
    } else {
        -((-a) / b)
    }
}

/// Whole days from `now` to `not_after`, rounded toward zero (time's
/// `Duration::whole_days`).
pub open spec fn days_between(not_after: DateTimeParts, now: DateTimeParts) -> int {
    trunc_div(
        (not_after.unix - now.unix) * 1_000_000_000 + (not_after.nanos - now.nanos),
        86_400_000_000_000,
    )
}

pub fn days_left(not_after: &DateTimeParts, now: &DateTimeParts) -> (r: i64)
    ensures
        r as int == days_between(*not_after, *now),
{
    let a: i128 = (not_after.unix as i128 - now.unix as i128) * 1_000_000_000i128 + (not_after.nanos as i128
        - now.nanos as i128);
    let d: i128 = if a >= 0 {
        a / 86_400_000_000_000i128
    } else {
        -((-a) / 86_400_000_000_000i128)
    };
    assert(-1_000_000_000_000_000 <= d <= 1_000_000_000_000_000) by (nonlinear_arith)
        requires
            -40_000_000_000_000_000_000_000_000_000 <= a <= 40_000_000_000_000_000_000_000_000_000,
            d == (if a >= 0 { a / 86_400_000_000_000 } else { -((-a) / 86_400_000_000_000) }),
    ;
    d as i64
}

// ───────────────────────── IP addresses ─────────────────────────

/// `a.b.c.d` (std's `Ipv4Addr` display).
pub open spec fn ipv4_text(b: Seq<u8>) -> Seq<char> {
    decimal(b[0] as nat) + seq!['.'] + decimal(b[1] as nat) + seq!['.'] + decimal(b[2] as nat) + seq!['.']
        + decimal(b[3] as nat)
}

/// Lower-case hex without leading zeros (`{:x}`).
pub open spec fn hex_min(v: nat) -> Seq<char>
    decreases v,
{
    if v < 16 {
        seq![hex_digit_lower(v as int)]
    } else {
        hex_min(v / 16).push(hex_digit_lower((v % 16) as int))
    }
}

/// The eight 16-bit groups of an IPv6 address.
pub open spec fn group(b: Seq<u8>, i: int) -> nat {
    (b[2 * i] as nat) * 256 + (b[2 * i + 1] as nat)
}

/// The groups `lo..hi`, in hex, joined by `:`.
pub open spec fn groups_text(b: Seq<u8>, lo: int, hi: int) -> Seq<char>
    decreases hi - lo,
{
    if hi <= lo {
        seq![]
    } else if hi == lo + 1 {
        hex_min(group(b, lo))
    } else {
        groups_text(b, lo, hi - 1) + seq![':'] + hex_min(group(b, hi - 1))
    }
}

/// Length of the run of zero groups starting at `i`.
pub open spec fn zero_run(b: Seq<u8>, i: int) -> int
    decreases 8 - i,
{
    if i < 8 && group(b, i) == 0 {
        1 + zero_run(b, i + 1)
    } else {
        0
    }
}

/// The longest run of zero groups starting at `i` or later (the first one on
/// a tie), as start and length; length 0 when there is none.
pub open spec fn longest_zero_run(b: Seq<u8>, i: int) -> (int, int)
    decreases 8 - i,
{
    if i >= 8 || i < 0 {
        (8, 0)
    } else {
        let later = longest_zero_run(b, i + 1);
        let here = zero_run(b, i);
        if here > 0 && here >= later.1 {
            (i, here)
        } else {
            later
        }
    }
}

/// std's `Ipv6Addr` display (RFC 5952): an IPv4-mapped address as
/// `::ffff:a.b.c.d`; else hex groups with the longest run of two or more zero
/// groups written `::`.
pub open spec fn ipv6_text(b: Seq<u8>) -> Seq<char> {
    if (forall|i: int| 0 <= i < 10 ==> #[trigger] b[i] == 0) && b[10] == 255 && b[11] == 255 {
        "::ffff:"@ + ipv4_text(b.subrange(12, 16))
    } else {
        let (start, len) = longest_zero_run(b, 0);
        if len >= 2 {
            groups_text(b, 0, start) + "::"@ + groups_text(b, start + len, 8)
        } else {
            groups_text(b, 0, 8)
        }
    }
}

/// How a SAN is shown: DNS names as they are, IPv4 and IPv6 addresses in
/// their usual text; other kinds, and addresses of another length, not at all.
pub open spec fn san_text(n: SanNameV) -> Option<Seq<char>> {
    match n {
        SanNameV::Dns(d) => Some(d),
        SanNameV::Ip(b) => if b.len() == 4 {
            Some(ipv4_text(b))
        } else if b.len() == 16 {
            Some(ipv6_text(b))
        } else {
            None
        },
        SanNameV::Other => None,
    }
}


fn ipv4_chars(b: &[u8]) -> (r: Vec<char>)
    requires
        b@.len() >= 4,
    ensures
        r@ == ipv4_text(b@),
{
    let mut out = decimal_chars(b[0] as u64);
    out.push('.');
    push_chars(&mut out, decimal_chars(b[1] as u64).as_slice());
    out.push('.');
    push_chars(&mut out, decimal_chars(b[2] as u64).as_slice());
    out.push('.');
    push_chars(&mut out, decimal_chars(b[3] as u64).as_slice());
    assert(out@ =~= ipv4_text(b@));
    out
}

fn hex_min_chars(v: u32) -> (r: Vec<char>)
    ensures
        r@ == hex_min(v as nat),
    decreases v,
{
    if v < 16 {
        let mut out: Vec<char> = Vec::new();
        out.push(hex_char_lower(v as u8));
        out
    } else {
        let mut out = hex_min_chars(v / 16);
        out.push(hex_char_lower((v % 16) as u8));
        out
    }
}

fn groups_chars(b: &[u8], lo: usize, hi: usize) -> (r: Vec<char>)
    requires
        b@.len() == 16,
        lo <= hi <= 8,
    ensures
        r@ == groups_text(b@, lo as int, hi as int),
{
    let mut out: Vec<char> = Vec::new();
    let mut k: usize = lo;
    while k < hi
        invariant
            b@.len() == 16,
            lo <= k <= hi <= 8,
            out@ == groups_text(b@, lo as int, k as int),
        decreases hi - k,
    {
        if k > lo {
            out.push(':');
        }
        let g: u32 = (b[2 * k] as u32) * 256 + (b[2 * k + 1] as u32);
        push_chars(&mut out, hex_min_chars(g).as_slice());
        k = k + 1;
        assert(out@ =~= groups_text(b@, lo as int, k as int));
    }
    out
}

fn ipv6_chars(b: &[u8]) -> (r: Vec<char>)
    requires
        b@.len() == 16,
    ensures
        r@ == ipv6_text(b@),
{
    let mut mapped = b[10] == 255 && b[11] == 255;
    let mut i: usize = 0;
    while i < 10
        invariant
            b@.len() == 16,
            i <= 10,
            mapped == (b@[10] == 255 && b@[11] == 255 && forall|j: int| 0 <= j < i ==> #[trigger] b@[j] == 0),
        decreases 10 - i,
    {
        if b[i] != 0 {
            mapped = false;
        }
        i = i + 1;
    }
    if mapped {
        let mut out: Vec<char> = Vec::new();
        push_str(&mut out, "::ffff:");
        let tail = slice_u8(b, 12, 16);
        push_chars(&mut out, ipv4_chars(tail.as_slice()).as_slice());
        assert(out@ =~= ipv6_text(b@));
        return out;
    }
    let mut run: usize = 0;
    let mut best_start: usize = 8;
    let mut best_len: usize = 0;
    let mut k: usize = 8;
    while k > 0
        invariant
            b@.len() == 16,
            k <= 8,
            run as int == zero_run(b@, k as int),
            run <= 8 - k,
            (best_start as int, best_len as int) == longest_zero_run(b@, k as int),
            best_len <= 8,
            best_start <= 8,
        decreases k,
    {
        let j = k - 1;
        let g: u32 = (b[2 * j] as u32) * 256 + (b[2 * j + 1] as u32);
        if g == 0 {
            run = run + 1;
        } else {
            run = 0;
        }
        if run > 0 && run >= best_len {
            best_start = j;
            best_len = run;
        }
        k = j;
    }
    if best_len >= 2 {
        proof {
            lemma_run_bound(b@, 0);
        }
        let mut out = groups_chars(b, 0, best_start);
        push_str(&mut out, "::");
        push_chars(&mut out, groups_chars(b, best_start + best_len, 8).as_slice());
        out
    } else {
        groups_chars(b, 0, 8)
    }
}

proof fn lemma_run_bound(b: Seq<u8>, i: int)
    requires
        0 <= i <= 8,
    ensures
        longest_zero_run(b, i).0 + longest_zero_run(b, i).1 <= 8,
        longest_zero_run(b, i).1 >= 0,
        zero_run(b, i) + i <= 8 || i >= 8,
    decreases 8 - i,
{
    if i < 8 {
        lemma_run_bound(b, i + 1);
        lemma_zero_run_bound(b, i);
    }
}

proof fn lemma_zero_run_bound(b: Seq<u8>, i: int)
    requires
        0 <= i <= 8,
    ensures
        0 <= zero_run(b, i) <= 8 - i,
    decreases 8 - i,
{
    if i < 8 {
        lemma_zero_run_bound(b, i + 1);
    }
}

fn slice_u8(b: &[u8], lo: usize, hi: usize) -> (r: Vec<u8>)
    requires
        lo <= hi <= b@.len(),
    ensures
        r@ == b@.subrange(lo as int, hi as int),
{
    let mut out: Vec<u8> = Vec::new();
    let mut i = lo;
    while i < hi
        invariant
            lo <= i <= hi <= b@.len(),
            out@ == b@.subrange(lo as int, i as int),
        decreases hi - i,
    {
        out.push(b[i]);
        i = i + 1;
        assert(out@ =~= b@.subrange(lo as int, i as int));
    }
    out
}

/// The text of a subject alternative name, if it is shown.
pub fn san_string(n: &SanName) -> (r: Option<String>)
    ensures
        match r {
            Some(t) => san_text(n@) == Some(t@),
            None => san_text(n@) is None,
        },
{
    match n {
        SanName::Dns(d) => Some(d.clone()),
        SanName::Ip(b) => {
            if b.len() == 4 {
                Some(string_of(ipv4_chars(b.as_slice()).as_slice()))
            } else if b.len() == 16 {
                Some(string_of(ipv6_chars(b.as_slice()).as_slice()))
            } else {
                None
            }
        },
        SanName::Other => None,
    }
}


// ───────────────────────── what the screen shows of a certificate ─────────────────────────

/// What the diagnostics screen shows of a certificate.
pub struct CertInfo {
    pub subject: String,
    pub issuer: String,
    pub sans: Vec<String>,
    pub not_before: String,
    pub not_after: String,
    pub days_left: i64,
    pub sha256_fingerprint: String,
    pub self_signed: bool,
}

impl CertInfo {
    pub fn expired(&self) -> (r: bool)
        ensures
            r == (self.days_left < 0),
    {
        self.days_left < 0
    }

    pub fn needs_renewal(&self) -> (r: bool)
        ensures
            r == (self.days_left < RENEW_BEFORE_DAYS),
    {
        self.days_left < RENEW_BEFORE_DAYS
    }
}

/// The SANs shown, in order.
pub open spec fn sans_shown(n: Seq<SanNameV>) -> Seq<Seq<char>>
    decreases n.len(),
{
    if n.len() == 0 {
        seq![]
    } else {
        let rest = sans_shown(n.drop_last());
        match san_text(n.last()) {
            Some(t) => rest.push(t),
            None => rest,
        }
    }
}

/// The certificate as shown, for the fields read and the clock reading `now`.
pub open spec fn cert_shown(c: CertInfo, f: X509FieldsV, der: Seq<u8>, now: DateTimeParts) -> bool {
    &&& c.subject@ == f.subject
    &&& c.issuer@ == f.issuer
    &&& string_seqs(c.sans@) == sans_shown(f.sans)
    &&& c.not_before@ == datetime_text(f.not_before)
    &&& c.not_after@ == datetime_text(f.not_after)
    &&& c.days_left as int == days_between(f.not_after, now)
    &&& c.sha256_fingerprint@ == fingerprint_text(sha256_of(der))
    &&& c.self_signed == (f.subject == f.issuer)
}

pub(crate) fn shown_sans(n: &Vec<SanName>) -> (r: Vec<String>)
    ensures
        string_seqs(r@) == sans_shown(n@.map_values(|x: SanName| x@)),
{
    let ghost nv = n@.map_values(|x: SanName| x@);
    let mut out: Vec<String> = Vec::new();
    let mut i: usize = 0;
    while i < n.len()
        invariant
            i <= n@.len(),
            nv == n@.map_values(|x: SanName| x@),
            string_seqs(out@) == sans_shown(nv.take(i as int)),
        decreases n@.len() - i,
    {
        assert(nv.take(i + 1).drop_last() =~= nv.take(i as int));
        assert(nv.take(i + 1).last() == n@[i as int]@);
        match san_string(&n[i]) {
            Some(t) => {
                let ghost prev = string_seqs(out@);
                out.push(t);
                assert(string_seqs(out@) =~= prev.push(t@));
            },
            None => {},
        }
        i = i + 1;
    }
    assert(nv.take(n@.len() as int) =~= nv);
    out
}

/// Reads a DER certificate for the screen; `None` when it is not X.509.
pub fn inspect_cert_der(der: &[u8], now: &DateTimeParts) -> (r: Option<CertInfo>)
    ensures
        match x509_fields_of(der@) {
            None => r is None,
            Some(f) => r matches Some(c) && cert_shown(c, f, der@, *now),
        },
        r matches Some(c) ==> c.sha256_fingerprint@.len() == 95,
{
    let f = match parse_x509(der) {
        Some(f) => f,
        None => {
            return None;
        },
    };
    let sans = shown_sans(&f.sans);
    let self_signed = f.subject == f.issuer;
    Some(CertInfo {
        subject: f.subject,
        issuer: f.issuer,
        sans,
        not_before: fmt_dt(&f.not_before),
        not_after: fmt_dt(&f.not_after),
        days_left: days_left(&f.not_after, now),
        sha256_fingerprint: fingerprint(der),
        self_signed,
    })
}

/// Reads the first certificate of a PEM file's bytes for the screen.
pub fn inspect_cert_pem(pem: &[u8], now: &DateTimeParts) -> (r: Option<CertInfo>)
    ensures
        r matches Some(c) ==> c.sha256_fingerprint@.len() == 95,
        match pem_contents_of(pem@) {
            None => r is None,
            Some(der) => match x509_fields_of(der) {
                None => r is None,
                Some(f) => r matches Some(c) && cert_shown(c, f, der, *now),
            },
        },
{
    match pem_contents(pem) {
        Some(der) => inspect_cert_der(der.as_slice(), now),
        None => None,
    }
}

/// Reads the first certificate of a PEM file's bytes, now.
pub fn inspect_cert_pem_now(pem: &[u8]) -> (r: Option<CertInfo>)
    ensures
        r matches Some(c) ==> c.sha256_fingerprint@.len() == 95,
        match pem_contents_of(pem@) {
            None => r is None,
            Some(der) => match x509_fields_of(der) {
                None => r is None,
                Some(f) => r matches Some(c) && exists|t: DateTimeParts| #[trigger] cert_shown(c, f, der, t),
            },
        },
{
    let now = now_utc();
    let r = inspect_cert_pem(pem, &now);
    proof {
        if let Some(der) = pem_contents_of(pem@) {
            if let Some(f) = x509_fields_of(der) {
                let c = r->0;
                assert(cert_shown(c, f, der, now));
            }
        }
    }
    r
}

/// The existing self-signed certificate is kept when it is not due for
/// renewal and covers every wanted SAN (compared lower-cased): each
/// regeneration changes the fingerprint that clients pinned.
pub open spec fn keep_self_signed(have: Seq<Seq<char>>, needs_renewal: bool, wanted: Seq<Seq<char>>) -> bool {
    !needs_renewal && forall|i: int| 0 <= i < wanted.len() ==> covered(have, lowercase_of(#[trigger] wanted[i]))
}

/// Some name of `have`, lower-cased, is `w`.
pub open spec fn covered(have: Seq<Seq<char>>, w: Seq<char>) -> bool {
    exists|j: int| 0 <= j < have.len() && lowercase_of(#[trigger] have[j]) == w
}

pub fn self_signed_reusable(have: &Vec<String>, needs_renewal: bool, wanted: &Vec<String>) -> (r: bool)
    ensures
        r == keep_self_signed(string_seqs(have@), needs_renewal, string_seqs(wanted@)),
{
    if needs_renewal {
        return false;
    }
    let ghost hv = string_seqs(have@);
    let ghost wv = string_seqs(wanted@);
    let mut lower_have: Vec<String> = Vec::new();
    let mut j: usize = 0;
    while j < have.len()
        invariant
            j <= have@.len(),
            hv == string_seqs(have@),
            lower_have@.len() == j,
            forall|k: int| 0 <= k < j ==> #[trigger] lower_have@[k]@ == lowercase_of(hv[k]),
        decreases have@.len() - j,
    {
        lower_have.push(to_lowercase(have[j].as_str()));
        j = j + 1;
    }
    let mut i: usize = 0;
    while i < wanted.len()
        invariant
            i <= wanted@.len(),
            hv == string_seqs(have@),
            wv == string_seqs(wanted@),
            lower_have@.len() == hv.len(),
            forall|k: int| 0 <= k < hv.len() ==> #[trigger] lower_have@[k]@ == lowercase_of(hv[k]),
            forall|a: int| 0 <= a < i ==> covered(hv, lowercase_of(#[trigger] wv[a])),
        decreases wanted@.len() - i,
    {
        let w = to_lowercase(wanted[i].as_str());
        assert(w@ == lowercase_of(wv[i as int]));
        let mut found = false;
        let mut k: usize = 0;
        while k < lower_have.len()
            invariant
                k <= lower_have@.len(),
                lower_have@.len() == hv.len(),
                forall|m: int| 0 <= m < hv.len() ==> #[trigger] lower_have@[m]@ == lowercase_of(hv[m]),
                found ==> covered(hv, w@),
                !found ==> forall|b: int| 0 <= b < k ==> lowercase_of(hv[b]) != w@,
            decreases lower_have@.len() - k,
        {
            if lower_have[k] == w {
                assert(lowercase_of(hv[k as int]) == w@);
                found = true;
            }
            k = k + 1;
        }
        if !found {
            assert(!covered(hv, lowercase_of(wv[i as int])));
            return false;
        }
        i = i + 1;
    }
    true
}


// ───────────────────────── names the self-signed certificate covers ─────────────────────────

/// The names before sorting: `localhost`, `127.0.0.1`, the LAN address when it
/// is another IP address, the host name (lower-cased, when it has no space)
/// and the extra domain (lower-cased).
pub open spec fn san_candidates(lan_ip: Seq<char>, lan_is_ip: bool, hostname: Option<Seq<char>>, extra: Seq<char>) -> Seq<Seq<char>> {
    let base = seq!["localhost"@, "127.0.0.1"@];
    let lan = trim(lan_ip);
    let a = if lan.len() > 0 && lan != "127.0.0.1"@ && lan_is_ip {
        base.push(lan)
    } else {
        base
    };
    let b = match hostname {
        Some(h) => if h.len() > 0 && !contains_seq(h, " "@) {
            a.push(lowercase_of(h))
        } else {
            a
        },
        None => a,
    };
    let d = trim(extra);
    if d.len() > 0 {
        b.push(lowercase_of(d))
    } else {
        b
    }
}

/// The SANs of the self-signed certificate, sorted, each once. `lan_is_ip`
/// says whether the trimmed LAN address parses as an IP address; `hostname`
/// is the machine's name as the system gives it.
pub fn default_sans(lan_ip: &str, lan_is_ip: bool, hostname: Option<&str>, extra_domain: &str) -> (r: Vec<String>)
    ensures
        strictly_sorted(string_seqs(r@)),
        string_seqs(r@).to_set() == san_candidates(
            lan_ip@,
            lan_is_ip,
            match hostname {
                Some(h) => Some(h@),
                None => None,
            },
            extra_domain@,
        ).to_set(),
{
    let ghost hv = match hostname {
        Some(h) => Some(h@),
        None => None,
    };
    let mut c: Vec<String> = Vec::new();
    c.push("localhost".to_owned());
    c.push("127.0.0.1".to_owned());
    assert(string_seqs(c@) =~= seq!["localhost"@, "127.0.0.1"@]);
    let lan = trimmed(lan_ip);
    if !lan.as_str().is_empty() && !(lan == "127.0.0.1".to_owned()) && lan_is_ip {
        let ghost prev = string_seqs(c@);
        c.push(lan);
        assert(string_seqs(c@) =~= prev.push(trim(lan_ip@)));
    }
    match hostname {
        Some(h) => {
            if !h.is_empty() && !str_contains(h, " ") {
                let ghost prev = string_seqs(c@);
                let l = to_lowercase(h);
                c.push(l);
                assert(string_seqs(c@) =~= prev.push(lowercase_of(h@)));
            }
        },
        None => {},
    }
    let d = trimmed(extra_domain);
    if !d.as_str().is_empty() {
        let ghost prev = string_seqs(c@);
        let l = to_lowercase(d.as_str());
        c.push(l);
        assert(string_seqs(c@) =~= prev.push(lowercase_of(trim(extra_domain@))));
    }
    let ghost cand = string_seqs(c@);
    assert(cand == san_candidates(lan_ip@, lan_is_ip, hv, extra_domain@));
    let mut sorted: Vec<Vec<char>> = Vec::new();
    assert(sorted@.map_values(|e: Vec<char>| e@).to_set() =~= cand.take(0).to_set());
    let mut i: usize = 0;
    while i < c.len()
        invariant
            i <= c@.len(),
            cand == string_seqs(c@),
            strictly_sorted(sorted@.map_values(|e: Vec<char>| e@)),
            sorted@.map_values(|e: Vec<char>| e@).to_set() == cand.take(i as int).to_set(),
        decreases c@.len() - i,
    {
        let x = chars_of(c[i].as_str());
        insert_sorted(&mut sorted, x);
        proof {
            assert(cand.take(i + 1) =~= cand.take(i as int).push(cand[i as int]));
            cand.take(i as int).lemma_push_to_set_commute(cand[i as int]);
        }
        i = i + 1;
    }
    assert(cand.take(c@.len() as int) =~= cand);
    let r = crate::text::strings_from(&sorted);
    r
}

// ───────────────────────── the HTTPS probe ─────────────────────────

/// What the HTTPS probe found.
pub struct HttpsProbe {
    pub tls_ok: bool,
    pub protocol: String,
    pub http_status: u16,
    pub jsonrpc: bool,
    pub cert: Option<CertInfo>,
    pub detail: String,
}

impl HttpsProbe {
    /// Nothing reached yet: no TLS, no status, no certificate.
    pub fn failed(detail: String) -> (r: HttpsProbe)
        ensures
            !r.tls_ok && r.http_status == 0 && !r.jsonrpc && r.cert is None && r.detail == detail && r.protocol@.len() == 0,
    {
        HttpsProbe { tls_ok: false, protocol: String::new(), http_status: 0, jsonrpc: false, cert: None, detail }
    }
}

/// The `initialize` request the probe sends.
pub const PROBE_BODY: &'static str = "{\"jsonrpc\":\"2.0\",\"id\":1,\"method\":\"initialize\",\"params\":{\"protocolVersion\":\"2024-11-05\",\"capabilities\":{},\"clientInfo\":{\"name\":\"fzcomputerai-https-probe\",\"version\":\"1\"}}}";

/// `POST /mcp` with the bearer token (when there is one) and the body.
pub open spec fn probe_request_text(sni: Seq<char>, token: Seq<char>) -> Seq<char> {
    let auth = if token.len() == 0 {
        seq![]
    } else {
        "Authorization: Bearer "@ + token + "\r\n"@
    };
    "POST /mcp HTTP/1.1\r\nHost: "@ + sni
        + "\r\nContent-Type: application/json\r\nAccept: application/json, text/event-stream\r\n"@ + auth
        + "Content-Length: "@ + decimal(encode_utf8(PROBE_BODY@).len()) + "\r\nConnection: close\r\n\r\n"@
        + PROBE_BODY@
}

pub fn probe_request(sni: &str, token: &str) -> (r: String)
    ensures
        r@ == probe_request_text(sni@, token@),
{
    let mut out: Vec<char> = Vec::new();
    push_str(&mut out, "POST /mcp HTTP/1.1\r\nHost: ");
    push_str(&mut out, sni);
    push_str(&mut out, "\r\nContent-Type: application/json\r\nAccept: application/json, text/event-stream\r\n");
    if !token.is_empty() {
        push_str(&mut out, "Authorization: Bearer ");
        push_str(&mut out, token);
        push_str(&mut out, "\r\n");
    }
    push_str(&mut out, "Content-Length: ");
    let b = bytes_of(PROBE_BODY);
    push_chars(&mut out, decimal_chars(b.len() as u64).as_slice());
    push_str(&mut out, "\r\nConnection: close\r\n\r\n");
    push_str(&mut out, PROBE_BODY);
    string_of(out.as_slice())
}

/// The status line's code (0 when unreadable), whether JSON-RPC came back,
/// and the first line as the detail.
pub open spec fn probe_reading(text: Seq<char>) -> (u16, bool, Seq<char>) {
    let lines = lines_of(text);
    let first = if lines.len() > 0 {
        lines[0]
    } else {
        seq![]
    };
    let w = words(first);
    let status = if lines.len() > 0 && w.len() > 1 {
        match parse_u16(w[1]) {
            Some(c) => c,
            None => 0,
        }
    } else {
        0
    };
    (status, contains_seq(text, "jsonrpc"@), first)
}

pub fn read_probe_response(text: &str) -> (r: (u16, bool, String))
    ensures
        (r.0, r.1, r.2@) == probe_reading(text@),
{
    let lines = text_lines(text);
    let first = if lines.len() > 0 {
        lines[0].clone()
    } else {
        String::new()
    };
    assert(lines.len() > 0 ==> first@ == string_seqs(lines@)[0]);
    let w = split_words(first.as_str());
    let status = if lines.len() > 0 && w.len() > 1 {
        assert(string_seqs(w@)[1] == w@[1]@);
        match parse_u16_chars(chars_of(w[1].as_str()).as_slice()) {
            Some(c) => c,
            None => 0,
        }
    } else {
        0
    };
    (status, str_contains(text, "jsonrpc"), first)
}

// ───────────────────────── the ACME HTTP-01 responder ─────────────────────────

pub const CHALLENGE_PREFIX: &'static str = "/.well-known/acme-challenge/";

/// The answer to a request: the key authorization of the token in
/// `/.well-known/acme-challenge/<token>`, or 404.
pub open spec fn http01_answer(request: Seq<char>, challenges: Map<Seq<char>, Seq<char>>) -> Seq<char> {
    let lines = lines_of(request);
    let w = if lines.len() > 0 {
        words(lines[0])
    } else {
        seq![]
    };
    let path = if w.len() > 1 {
        w[1]
    } else {
        seq![]
    };
    if starts_with(path, CHALLENGE_PREFIX@) && challenges.dom().contains(path.skip(28)) {
        let ka = challenges[path.skip(28)];
        "HTTP/1.1 200 OK\r\nContent-Type: application/octet-stream\r\nContent-Length: "@ + decimal(encode_utf8(ka).len())
            + "\r\nConnection: close\r\n\r\n"@ + ka
    } else {
        "HTTP/1.1 404 Not Found\r\nContent-Length: 0\r\nConnection: close\r\n\r\n"@
    }
}

pub fn http01_response(request: &str, challenges: &Vec<(String, String)>) -> (r: String)
    requires
        keys_unique(challenges@),
    ensures
        r@ == http01_answer(request@, table_map(challenges@)),
{
    let lines = text_lines(request);
    let w: Vec<String> = if lines.len() > 0 {
        split_words(lines[0].as_str())
    } else {
        Vec::new()
    };
    assert(lines.len() > 0 ==> lines@[0]@ == string_seqs(lines@)[0]);
    assert(lines.len() == 0 ==> string_seqs(w@) =~= Seq::<Seq<char>>::empty());
    let path: Vec<char> = if w.len() > 1 {
        assert(string_seqs(w@)[1] == w@[1]@);
        chars_of(w[1].as_str())
    } else {
        Vec::new()
    };
    let pre = chars_of(CHALLENGE_PREFIX);
    proof {
        reveal_strlit("/.well-known/acme-challenge/");
    }
    if starts_with_chars(path.as_slice(), pre.as_slice()) {
        let n = path.len();
        let tok = slice_chars(path.as_slice(), 28, n);
        assert(tok@ =~= path@.skip(28));
        let ts = string_of(tok.as_slice());
        match table_get(challenges, ts.as_str()) {
            Some(ka) => {
                let mut out: Vec<char> = Vec::new();
                push_str(&mut out, "HTTP/1.1 200 OK\r\nContent-Type: application/octet-stream\r\nContent-Length: ");
                let kb = bytes_of(ka.as_str());
                push_chars(&mut out, decimal_chars(kb.len() as u64).as_slice());
                push_str(&mut out, "\r\nConnection: close\r\n\r\n");
                push_str(&mut out, ka.as_str());
                return string_of(out.as_slice());
            },
            None => {},
        }
    }
    "HTTP/1.1 404 Not Found\r\nContent-Length: 0\r\nConnection: close\r\n\r\n".to_owned()
}

// ───────────────────────── Let's Encrypt ─────────────────────────

/// A Let's Encrypt issuance: domain, contact e-mail, staging directory or
/// production, and the certificate folder.
pub struct AcmeRequest {
    pub domain: String,
    pub email: String,
    pub staging: bool,
    pub dir: String,
}

/// Progress and result of an issuance: log lines, then the certificate and
/// key paths or the error text.
pub enum AcmeEvent {
    Log(String),
    Done(Result<(String, String), String>),
}

/// Why a domain cannot get a certificate.
#[derive(PartialEq, Eq, Structural, Clone, Copy, Debug)]
pub enum DomainError {
    /// Empty, or holding `/` or a space.
    Invalid,
    /// An IP address: Let's Encrypt issues for DNS names.
    IpAddress,
}

/// The domain as issued: trimmed, lower-cased.
pub open spec fn acme_domain_spec(domain: Seq<char>) -> Seq<char> {
    lowercase_of(trim(domain))
}

pub fn acme_domain(domain: &str) -> (r: String)
    ensures
        r@ == acme_domain_spec(domain@),
{
    to_lowercase(trimmed(domain).as_str())
}

/// The checks on the domain; `is_ip` says whether it parses as an IP address.
pub open spec fn domain_check_spec(d: Seq<char>, is_ip: bool) -> Option<DomainError> {
    if d.len() == 0 || contains_seq(d, "/"@) || contains_seq(d, " "@) {
        Some(DomainError::Invalid)
    } else if is_ip {
        Some(DomainError::IpAddress)
    } else {
        None
    }
}

impl DomainError {
    /// The refusal's text for the domain as typed, in each language.
    pub open spec fn shown(self, domain: Seq<char>, lang: Language) -> Seq<char> {
        match (self, lang) {
            (DomainError::Invalid, Language::PtBr) => "domínio inválido: '"@ + domain + "'"@,
            (DomainError::Invalid, Language::English) => "invalid domain: '"@ + domain + "'"@,
            (DomainError::IpAddress, Language::PtBr) =>
                "Let's Encrypt não emite certificado para endereço IP — informe um nome DNS público."@,
            (DomainError::IpAddress, Language::English) =>
                "Let's Encrypt does not issue certificates for an IP address — give a public DNS name."@,
        }
    }

    /// The refusal's text for the domain as typed.
    pub fn message(self, domain: &str, lang: Language) -> (r: String)
        ensures
            r@ == self.shown(domain@, lang),
    {
        let mut out: Vec<char> = Vec::new();
        match self {
            DomainError::Invalid => {
                push_str(&mut out, tr(lang, "domínio inválido: '", "invalid domain: '"));
                push_str(&mut out, domain);
                push_str(&mut out, "'");
            },
            DomainError::IpAddress => {
                push_str(
                    &mut out,
                    tr(
                        lang,
                        "Let's Encrypt não emite certificado para endereço IP — informe um nome DNS público.",
                        "Let's Encrypt does not issue certificates for an IP address — give a public DNS name.",
                    ),
                );
            },
        }
        string_of(out.as_slice())
    }
}

pub fn domain_check(d: &str, is_ip: bool) -> (r: Option<DomainError>)
    ensures
        r == domain_check_spec(d@, is_ip),
{
    if d.is_empty() || str_contains(d, "/") || str_contains(d, " ") {
        Some(DomainError::Invalid)
    } else if is_ip {
        Some(DomainError::IpAddress)
    } else {
        None
    }
}

/// The contacts of a new ACME account: `mailto:` and the e-mail, when given.
pub open spec fn contacts_spec(email: Seq<char>) -> Seq<Seq<char>> {
    if trim(email).len() > 0 {
        seq!["mailto:"@ + trim(email)]
    } else {
        seq![]
    }
}

pub fn acme_contacts(email: &str) -> (r: Vec<String>)
    ensures
        string_seqs(r@) == contacts_spec(email@),
{
    let e = trimmed(email);
    let mut v: Vec<String> = Vec::new();
    if !e.as_str().is_empty() {
        let mut c: Vec<char> = Vec::new();
        push_str(&mut c, "mailto:");
        push_str(&mut c, e.as_str());
        v.push(string_of(c.as_slice()));
        assert(string_seqs(v@) =~= seq!["mailto:"@ + trim(email@)]);
    } else {
        assert(string_seqs(v@) =~= Seq::<Seq<char>>::empty());
    }
    v
}

} // verus!
