use vstd::prelude::*;
use crate::text::{
    chars_of, string_of, push_str, push_chars, trim, trimmed, words, split_words, string_seqs, strip_trailing,
    strip_trailing_chars, replace_all, replace_chars, is_alnum, str_contains, contains_seq,
};
use crate::http::{decimal, decimal_string, decimal_chars};
use crate::text::trim_str;
use crate::text::{
    last_index, rfind_chars, lemma_last_index_occurs, first_index, ends_with, ends_with_chars, slice_chars,
    lemma_first_index_occurs, find_chars, occurs_at, concat, starts_with, lines_of,
};

verus! {

/// The interface language.
#[derive(PartialEq, Eq, Structural, Clone, Copy, Debug)]
pub enum Language {
    PtBr,
    English,
}

/// The Portuguese or the English text, by language.
pub fn tr(lang: Language, pt: &'static str, en: &'static str) -> (r: &'static str)
    ensures
        r == (match lang {
            Language::PtBr => pt,
            Language::English => en,
        }),
{
    match lang {
        Language::PtBr => pt,
        Language::English => en,
    }
}

/// Who carries the public HTTPS tunnel to the local MCP.
#[derive(PartialEq, Eq, Structural, Clone, Copy, Debug)]
pub enum TunnelProvider {
    Cloudflare,
    Ngrok,
    Ssh,
}

/// The tunnel as far as it is known: the process runs (`Starting`) and, once
/// the public URL is captured, `Running`.
#[derive(PartialEq, Eq, Structural, Clone, Copy, Debug)]
pub enum TunnelStatus {
    Stopped,
    Starting,
    Running,
    Error,
}

/// What an unauthenticated `initialize` on the public URL got back.
#[derive(PartialEq, Eq, Structural, Clone, Copy, Debug)]
pub enum TunnelExposure {
    /// The MCP answered JSON-RPC with no credential.
    Exposed,
    /// The edge refused (the HTTP status).
    EdgeAuth(u16),
    /// Timeout, 5xx, any other answer: not verified.
    Unknown,
}

pub open spec fn slug_of(p: TunnelProvider) -> Seq<char> {
    match p {
        TunnelProvider::Cloudflare => "cloudflare"@,
        TunnelProvider::Ngrok => "ngrok"@,
        TunnelProvider::Ssh => "ssh"@,
    }
}

pub open spec fn image_of(p: TunnelProvider) -> Seq<char> {
    match p {
        TunnelProvider::Cloudflare => "cloudflared.exe"@,
        TunnelProvider::Ngrok => "ngrok.exe"@,
        TunnelProvider::Ssh => "ssh.exe"@,
    }
}

/// The provider's short name, used in log file and registry names.
pub fn provider_slug(p: TunnelProvider) -> (r: &'static str)
    ensures
        r@ == slug_of(p),
{
    match p {
        TunnelProvider::Cloudflare => "cloudflare",
        TunnelProvider::Ngrok => "ngrok",
        TunnelProvider::Ssh => "ssh",
    }
}

/// The provider's executable image name.
pub fn provider_image(p: TunnelProvider) -> (r: &'static str)
    ensures
        r@ == image_of(p),
{
    match p {
        TunnelProvider::Cloudflare => "cloudflared.exe",
        TunnelProvider::Ngrok => "ngrok.exe",
        TunnelProvider::Ssh => "ssh.exe",
    }
}

// ───────────────────────── the public URL ─────────────────────────

/// The URL to give an MCP client: the public base without trailing slashes,
/// then `/s/<password>` when a tunnel password is set, then `/mcp`; empty without a base.
pub open spec fn full_url(public_url: Seq<char>, gate_password: Seq<char>) -> Seq<char> {
    let base = strip_trailing(trim(public_url), '/');
    if base.len() == 0 {
        seq![]
    } else if trim(gate_password).len() == 0 {
        base + "/mcp"@
    } else {
        base + "/s/"@ + trim(gate_password) + "/mcp"@
    }
}

pub fn tunnel_full_url(public_url: &str, gate_password: &str) -> (r: String)
    ensures
        r@ == full_url(public_url@, gate_password@),
{
    let t = chars_of(trimmed(public_url).as_str());
    let base = strip_trailing_chars(t.as_slice(), '/');
    if base.len() == 0 {
        return String::new();
    }
    let pw = trimmed(gate_password);
    let mut out: Vec<char> = Vec::new();
    push_chars(&mut out, base.as_slice());
    if pw.as_str().is_empty() {
        push_str(&mut out, "/mcp");
    } else {
        push_str(&mut out, "/s/");
        push_str(&mut out, pw.as_str());
        push_str(&mut out, "/mcp");
    }
    string_of(out.as_slice())
}

/// The `mcpServers` snippet for an MCP client, with the `Authorization`
/// header when the engine needs a token.
pub open spec fn snippet_text(url: Seq<char>, token: Seq<char>) -> Seq<char> {
    if trim(token).len() == 0 {
        "{\n  \"mcpServers\": {\n    \"fzcomputerai\": {\n      \"type\": \"http\",\n      \"url\": \""@ + url
            + "\"\n    }\n  }\n}"@
    } else {
        "{\n  \"mcpServers\": {\n    \"fzcomputerai\": {\n      \"type\": \"http\",\n      \"url\": \""@ + url
            + "\",\n      \"headers\": {\n        \"Authorization\": \"Bearer "@ + trim(token)
            + "\"\n      }\n    }\n  }\n}"@
    }
}

pub fn tunnel_mcp_snippet(public_url: &str, gate_password: &str, mcp_token: &str) -> (r: String)
    ensures
        r@ == snippet_text(full_url(public_url@, gate_password@), mcp_token@),
{
    let url = tunnel_full_url(public_url, gate_password);
    let token = trimmed(mcp_token);
    let mut out: Vec<char> = Vec::new();
    push_str(&mut out, "{\n  \"mcpServers\": {\n    \"fzcomputerai\": {\n      \"type\": \"http\",\n      \"url\": \"");
    push_str(&mut out, url.as_str());
    if token.as_str().is_empty() {
        push_str(&mut out, "\"\n    }\n  }\n}");
    } else {
        push_str(&mut out, "\",\n      \"headers\": {\n        \"Authorization\": \"Bearer ");
        push_str(&mut out, token.as_str());
        push_str(&mut out, "\"\n      }\n    }\n  }\n}");
    }
    string_of(out.as_slice())
}

/// Characters a gate password may hold: ASCII letters and digits, `- . _ ~`
/// (they travel in the URL path unescaped).
pub open spec fn url_safe_char(c: char) -> bool {
    is_alnum(c) || c == '-' || c == '.' || c == '_' || c == '~'
}

pub open spec fn keep_url_safe(s: Seq<char>) -> Seq<char>
    decreases s.len(),
{
    if s.len() == 0 {
        seq![]
    } else if url_safe_char(s.last()) {
        keep_url_safe(s.drop_last()).push(s.last())
    } else {
        keep_url_safe(s.drop_last())
    }
}

/// A tunnel password reduced to URL-safe characters (after trimming).
pub fn sanitize_gate_password(raw: &str) -> (r: String)
    ensures
        r@ == keep_url_safe(trim(raw@)),
{
    let t = chars_of(trimmed(raw).as_str());
    let mut out: Vec<char> = Vec::new();
    let mut i: usize = 0;
    while i < t.len()
        invariant
            i <= t@.len(),
            out@ == keep_url_safe(t@.take(i as int)),
        decreases t@.len() - i,
    {
        let c = t[i];
        assert(t@.take(i + 1).drop_last() =~= t@.take(i as int));
        if ('a' <= c && c <= 'z') || ('A' <= c && c <= 'Z') || ('0' <= c && c <= '9') || c == '-' || c == '.' || c
            == '_' || c == '~' {
            out.push(c);
        }
        i = i + 1;
    }
    assert(t@.take(t@.len() as int) =~= t@);
    string_of(out.as_slice())
}

/// A gate password keeps every character that is URL-safe.
pub proof fn sanitized_password_is_url_safe(s: Seq<char>)
    ensures
        forall|i: int| 0 <= i < keep_url_safe(s).len() ==> url_safe_char(#[trigger] keep_url_safe(s)[i]),
        url_safe_all(s) ==> keep_url_safe(s) == s,
    decreases s.len(),
{
    if s.len() > 0 {
        sanitized_password_is_url_safe(s.drop_last());
        let k = keep_url_safe(s.drop_last());
        assert forall|i: int| 0 <= i < keep_url_safe(s).len() implies url_safe_char(#[trigger] keep_url_safe(s)[i]) by {
            if i < k.len() {
                assert(keep_url_safe(s)[i] == k[i]);
            }
        }
        if url_safe_all(s) {
            assert(url_safe_all(s.drop_last()));
            assert(s.drop_last().push(s.last()) =~= s);
        }
    }
}

pub open spec fn url_safe_all(s: Seq<char>) -> bool {
    forall|i: int| 0 <= i < s.len() ==> url_safe_char(#[trigger] s[i])
}

/// Any text with `/s/<password>/` masked as `/s/***/`.
pub open spec fn masked(s: Seq<char>, gate_password: Seq<char>) -> Seq<char> {
    if trim(gate_password).len() == 0 {
        s
    } else {
        replace_all(s, "/s/"@ + trim(gate_password) + "/"@, "/s/***/"@)
    }
}

/// Masks the tunnel password in text meant for logs and the screen.
pub fn mask_gate_url(s: &str, gate_password: &str) -> (r: String)
    ensures
        r@ == masked(s@, gate_password@),
{
    let pw = trimmed(gate_password);
    if pw.as_str().is_empty() {
        return s.to_owned();
    }
    let mut pat: Vec<char> = Vec::new();
    push_str(&mut pat, "/s/");
    push_str(&mut pat, pw.as_str());
    push_str(&mut pat, "/");
    proof {
        reveal_strlit("/s/");
    }
    let rep = chars_of("/s/***/");
    let sc = chars_of(s);
    let out = replace_chars(sc.as_slice(), pat.as_slice(), rep.as_slice());
    string_of(out.as_slice())
}

// ───────────────────────── the exposure probe ─────────────────────────

/// std's `str::parse::<u16>`: an optional `+`, then one or more ASCII digits,
/// with a value that fits.
pub open spec fn digits_value(s: Seq<char>) -> int
    decreases s.len(),
{
    if s.len() == 0 {
        0
    } else {
        digits_value(s.drop_last()) * 10 + (s.last() as int - 48)
    }
}

pub open spec fn all_ascii_digits(s: Seq<char>) -> bool {
    forall|i: int| 0 <= i < s.len() ==> '0' <= #[trigger] s[i] <= '9'
}

/// The value of an unsigned decimal numeral no greater than `max` (std's
/// `str::parse` for unsigned integers whose maximum is `max`).
pub open spec fn parse_within(s: Seq<char>, max: u64) -> Option<u64> {
    let d = if s.len() > 0 && s[0] == '+' {
        s.drop_first()
    } else {
        s
    };
    if d.len() > 0 && all_ascii_digits(d) && digits_value(d) <= max {
        Some(digits_value(d) as u64)
    } else {
        None
    }
}

pub open spec fn parse_u16(s: Seq<char>) -> Option<u16> {
    match parse_within(s, 65535) {
        Some(v) => Some(v as u16),
        None => None,
    }
}

pub open spec fn parse_u32(s: Seq<char>) -> Option<u32> {
    match parse_within(s, 4294967295) {
        Some(v) => Some(v as u32),
        None => None,
    }
}

/// std's `str::parse::<u16>`.
pub fn parse_u16_chars(s: &[char]) -> (r: Option<u16>)
    ensures
        r == parse_u16(s@),
{
    match parse_digits(s, 65535) {
        Some(v) => Some(v as u16),
        None => None,
    }
}

/// std's `str::parse::<u32>`.
pub fn parse_u32_chars(s: &[char]) -> (r: Option<u32>)
    ensures
        r == parse_u32(s@),
{
    match parse_digits(s, 4294967295) {
        Some(v) => Some(v as u32),
        None => None,
    }
}

pub fn parse_digits(s: &[char], max: u64) -> (r: Option<u64>)
    requires
        max <= 4294967295,
    ensures
        r == parse_within(s@, max),
{
    let mut i: usize = 0;
    if s.len() > 0 && s[0] == '+' {
        i = 1;
    }
    let ghost d = if s@.len() > 0 && s@[0] == '+' {
        s@.drop_first()
    } else {
        s@
    };
    assert(d =~= s@.skip(i as int));
    if i >= s.len() {
        return None;
    }
    let mut v: u64 = 0;
    let start = i;
    while i < s.len()
        invariant
            start <= i <= s@.len(),
            d =~= s@.skip(start as int),
            d == (if s@.len() > 0 && s@[0] == '+' {
                s@.drop_first()
            } else {
                s@
            }),
            d.len() > 0,
            all_ascii_digits(s@.subrange(start as int, i as int)),
            v as int == digits_value(s@.subrange(start as int, i as int)),
            v <= max,
            max <= 4294967295,
        decreases s@.len() - i,
    {
        let c = s[i];
        assert(s@.subrange(start as int, i + 1).drop_last() =~= s@.subrange(start as int, i as int));
        if c < '0' || c > '9' {
            assert(d[(i - start) as int] == c);
            assert(!('0' <= d[(i - start) as int] <= '9'));
            assert(!all_ascii_digits(d));
            assert(parse_within(s@, max) is None);
            return None;
        }
        let nv = v * 10 + ((c as u32) - 48) as u64;
        if nv > max {
            proof {
                let p = s@.subrange(start as int, i + 1);
                assert(digits_value(p) == nv as int);
                if all_ascii_digits(d) {
                    assert(p =~= d.take(p.len() as int));
                    lemma_digits_grow(p, d);
                }
            }
            return None;
        }
        v = nv;
        i = i + 1;
    }
    assert(s@.subrange(start as int, i as int) =~= d);
    Some(v)
}

/// A longer run of digits is worth at least as much as its prefix.
proof fn lemma_digits_grow(p: Seq<char>, s: Seq<char>)
    requires
        p.len() <= s.len(),
        p =~= s.take(p.len() as int),
        all_ascii_digits(s),
    ensures
        digits_value(p) <= digits_value(s),
    decreases s.len(),
{
    if s.len() > p.len() {
        lemma_digits_grow(p, s.drop_last());
        assert(s.drop_last().take(p.len() as int) =~= p);
        assert(all_ascii_digits(s.drop_last())) by {
            assert forall|i: int| 0 <= i < s.drop_last().len() implies '0' <= #[trigger] s.drop_last()[i] <= '9' by {
                assert(s.drop_last()[i] == s[i]);
            }
        }
        assert(digits_value(s.drop_last()) >= 0) by {
            lemma_digits_nonneg(s.drop_last());
        }
    } else {
        assert(p =~= s);
    }
}

proof fn lemma_digits_nonneg(s: Seq<char>)
    requires
        all_ascii_digits(s),
    ensures
        digits_value(s) >= 0,
    decreases s.len(),
{
    if s.len() > 0 {
        assert(all_ascii_digits(s.drop_last())) by {
            assert forall|i: int| 0 <= i < s.drop_last().len() implies '0' <= #[trigger] s.drop_last()[i] <= '9' by {
                assert(s.drop_last()[i] == s[i]);
            }
        }
        lemma_digits_nonneg(s.drop_last());
        assert('0' <= s[s.len() - 1] <= '9');
    }
}


/// What follows the last `pat` in `s` (all of `s` when there is none): the
/// first item of std's `rsplit(pat)`.
pub open spec fn after_last(s: Seq<char>, pat: Seq<char>) -> Seq<char> {
    match last_index(s, pat) {
        Some(i) => s.skip(i + pat.len()),
        None => s,
    }
}

/// The HTTP status that curl wrote after `HTTP_CODE=`, 0 when unreadable.
pub open spec fn probe_code(out: Seq<char>) -> u16 {
    match parse_u16(trim(after_last(out, "HTTP_CODE="@))) {
        Some(c) => c,
        None => 0,
    }
}

/// What the probe's output says of the exposure: JSON-RPC came back (open to
/// anyone), the edge refused (401, 403, 302, 407), or nothing certain.
pub open spec fn exposure_of(out: Seq<char>) -> TunnelExposure {
    if contains_seq(out, "jsonrpc"@) {
        TunnelExposure::Exposed
    } else {
        let c = probe_code(out);
        if c == 401 || c == 403 || c == 302 || c == 407 {
            TunnelExposure::EdgeAuth(c)
        } else {
            TunnelExposure::Unknown
        }
    }
}

pub fn classify_exposure(out: &str) -> (r: TunnelExposure)
    ensures
        r == exposure_of(out@),
{
    if str_contains(out, "jsonrpc") {
        return TunnelExposure::Exposed;
    }
    let c = chars_of(out);
    let pat = chars_of("HTTP_CODE=");
    let n = c.len();
    let tail = match rfind_chars(c.as_slice(), pat.as_slice()) {
        Some(i) => {
            proof {
                lemma_last_index_occurs(c@, pat@);
                assert(occurs_at(c@, pat@, i as int));
                assert(i + pat@.len() <= n);
            }
            slice_chars(c.as_slice(), i + pat.len(), n)
        },
        None => slice_chars(c.as_slice(), 0, c.len()),
    };
    assert(tail@ =~= after_last(out@, "HTTP_CODE="@));
    let t = crate::text::trim_chars(tail.as_slice());
    let code = match parse_u16_chars(t.as_slice()) {
        Some(v) => v,
        None => 0,
    };
    if code == 401 || code == 403 || code == 302 || code == 407 {
        TunnelExposure::EdgeAuth(code)
    } else {
        TunnelExposure::Unknown
    }
}

// ───────────────────────── the tunnel command ─────────────────────────

/// The tunnel tab's settings: the binaries found, what is saved in the
/// registry, and the public URL when it is known in advance.
pub struct TunnelSettings {
    pub provider: TunnelProvider,
    pub public_url: String,
    pub cf_bin: String,
    pub cf_token_file: String,
    pub ngrok_bin: String,
    pub ngrok_use_policy: bool,
    pub ngrok_extra: String,
    pub ssh_bin: String,
    pub ssh_target: String,
    pub ssh_remote_port: String,
    pub ssh_key: String,
    pub ssh_extra: String,
}

/// Why no tunnel command can be made.
#[derive(PartialEq, Eq, Structural, Clone, Copy, Debug)]
pub enum TunnelSetupError {
    CloudflaredMissing,
    NgrokMissing,
    SshMissing,
    SshTargetMissing,
}

impl TunnelSetupError {
    /// The message shown for it, in each language.
    pub open spec fn shown(self, lang: Language) -> Seq<char> {
        match (self, lang) {
            (TunnelSetupError::CloudflaredMissing, Language::PtBr) =>
                "cloudflared nao encontrado. Use 'Baixar cloudflared' ou instale e clique em 'Detectar binarios'."@,
            (TunnelSetupError::CloudflaredMissing, Language::English) =>
                "cloudflared not found. Use 'Download cloudflared' or install it and click 'Detect binaries'."@,
            (TunnelSetupError::NgrokMissing, Language::PtBr) =>
                "ngrok nao encontrado. Use 'Baixar ngrok' ou instale e clique em 'Detectar binarios'."@,
            (TunnelSetupError::NgrokMissing, Language::English) =>
                "ngrok not found. Use 'Download ngrok' or install it and click 'Detect binaries'."@,
            (TunnelSetupError::SshMissing, Language::PtBr) => "ssh nao encontrado (Cliente OpenSSH do Windows)."@,
            (TunnelSetupError::SshMissing, Language::English) => "ssh not found (Windows OpenSSH Client)."@,
            (TunnelSetupError::SshTargetMissing, Language::PtBr) =>
                "Informe o destino SSH (ex.: usuario@servidor ou nokey@localhost.run)."@,
            (TunnelSetupError::SshTargetMissing, Language::English) =>
                "Enter the SSH target (e.g. user@server or nokey@localhost.run)."@,
        }
    }

    /// The message shown for it.
    pub fn message(self, lang: Language) -> (r: &'static str)
        ensures
            r@ == self.shown(lang),
    {
        match self {
            TunnelSetupError::CloudflaredMissing => tr(
                lang,
                "cloudflared nao encontrado. Use 'Baixar cloudflared' ou instale e clique em 'Detectar binarios'.",
                "cloudflared not found. Use 'Download cloudflared' or install it and click 'Detect binaries'.",
            ),
            TunnelSetupError::NgrokMissing => tr(
                lang,
                "ngrok nao encontrado. Use 'Baixar ngrok' ou instale e clique em 'Detectar binarios'.",
                "ngrok not found. Use 'Download ngrok' or install it and click 'Detect binaries'.",
            ),
            TunnelSetupError::SshMissing => tr(
                lang,
                "ssh nao encontrado (Cliente OpenSSH do Windows).",
                "ssh not found (Windows OpenSSH Client).",
            ),
            TunnelSetupError::SshTargetMissing => tr(
                lang,
                "Informe o destino SSH (ex.: usuario@servidor ou nokey@localhost.run).",
                "Enter the SSH target (e.g. user@server or nokey@localhost.run).",
            ),
        }
    }
}

/// Why a tunnel is not opened.
#[derive(PartialEq, Eq, Structural, Clone, Copy, Debug)]
pub enum TunnelRefusal {
    /// A tunnel is already starting or running.
    AlreadyActive,
    /// No candidate port of the engine answered MCP on loopback.
    EngineNotAnswering,
    /// A Cloudflare quick tunnel with `~/.cloudflared/config.yaml` present.
    CloudflareConfigPresent,
    /// ngrok has no authtoken (`ngrok config check` failed).
    NgrokNoAuthtoken,
}

impl TunnelRefusal {
    /// The message shown for it, in each language.
    pub open spec fn shown(self, lang: Language) -> Seq<char> {
        match (self, lang) {
            (TunnelRefusal::AlreadyActive, Language::PtBr) =>
                "Ja existe um tunel ativo. Pare-o antes de iniciar outro."@,
            (TunnelRefusal::AlreadyActive, Language::English) =>
                "A tunnel is already active. Stop it before starting another."@,
            (TunnelRefusal::EngineNotAnswering, Language::PtBr) =>
                "O MCP local nao respondeu em 127.0.0.1. Inicie o motor na aba MCP & Rede antes de abrir o tunel."@,
            (TunnelRefusal::EngineNotAnswering, Language::English) =>
                "The local MCP did not answer on 127.0.0.1. Start the engine in the MCP & Network tab before opening the tunnel."@,
            (TunnelRefusal::CloudflareConfigPresent, Language::PtBr) =>
                "O quick tunnel do Cloudflare falha quando existe ~/.cloudflared/config.yaml. Renomeie esse arquivo ou use o tunel nomeado (token-file)."@,
            (TunnelRefusal::CloudflareConfigPresent, Language::English) =>
                "Cloudflare quick tunnel fails when ~/.cloudflared/config.yaml exists. Rename that file or use the named tunnel (token-file)."@,
            (TunnelRefusal::NgrokNoAuthtoken, Language::PtBr) =>
                "ngrok sem authtoken configurado. Rode no seu terminal: ngrok config add-authtoken <SEU_TOKEN> (crie a conta em ngrok.com)."@,
            (TunnelRefusal::NgrokNoAuthtoken, Language::English) =>
                "ngrok has no authtoken configured. Run in your terminal: ngrok config add-authtoken <YOUR_TOKEN> (create the account at ngrok.com)."@,
        }
    }

    /// The message shown for it.
    pub fn message(self, lang: Language) -> (r: &'static str)
        ensures
            r@ == self.shown(lang),
    {
        match self {
            TunnelRefusal::AlreadyActive => tr(
                lang,
                "Ja existe um tunel ativo. Pare-o antes de iniciar outro.",
                "A tunnel is already active. Stop it before starting another.",
            ),
            TunnelRefusal::EngineNotAnswering => tr(
                lang,
                "O MCP local nao respondeu em 127.0.0.1. Inicie o motor na aba MCP & Rede antes de abrir o tunel.",
                "The local MCP did not answer on 127.0.0.1. Start the engine in the MCP & Network tab before opening the tunnel.",
            ),
            TunnelRefusal::CloudflareConfigPresent => tr(
                lang,
                "O quick tunnel do Cloudflare falha quando existe ~/.cloudflared/config.yaml. Renomeie esse arquivo ou use o tunel nomeado (token-file).",
                "Cloudflare quick tunnel fails when ~/.cloudflared/config.yaml exists. Rename that file or use the named tunnel (token-file).",
            ),
            TunnelRefusal::NgrokNoAuthtoken => tr(
                lang,
                "ngrok sem authtoken configurado. Rode no seu terminal: ngrok config add-authtoken <SEU_TOKEN> (crie a conta em ngrok.com).",
                "ngrok has no authtoken configured. Run in your terminal: ngrok config add-authtoken <YOUR_TOKEN> (create the account at ngrok.com).",
            ),
        }
    }
}

/// Whether a tunnel may be opened, and on which engine port: not while one
/// is starting or running; only on the port confirmed to answer MCP; not
/// for a Cloudflare quick tunnel (no token file) while
/// `~/.cloudflared/config.yaml` exists; not for ngrok (when its binary is
/// known) whose `config check` failed. The last two facts matter only for
/// their provider.
pub open spec fn tunnel_precheck_spec(
    status: TunnelStatus,
    confirmed_port: Option<u16>,
    provider: TunnelProvider,
    cf_token_file: Seq<char>,
    cf_config_exists: bool,
    ngrok_bin: Seq<char>,
    ngrok_config_ok: bool,
) -> Result<u16, TunnelRefusal> {
    if status == TunnelStatus::Starting || status == TunnelStatus::Running {
        Err(TunnelRefusal::AlreadyActive)
    } else {
        match confirmed_port {
            None => Err(TunnelRefusal::EngineNotAnswering),
            Some(p) => if provider == TunnelProvider::Cloudflare && trim(cf_token_file).len() == 0 && cf_config_exists {
                Err(TunnelRefusal::CloudflareConfigPresent)
            } else if provider == TunnelProvider::Ngrok && ngrok_bin.len() > 0 && !ngrok_config_ok {
                Err(TunnelRefusal::NgrokNoAuthtoken)
            } else {
                Ok(p)
            },
        }
    }
}

/// The checks made before a tunnel is opened; `Ok` gives the engine port.
pub fn tunnel_precheck(
    status: TunnelStatus,
    confirmed_port: Option<u16>,
    provider: TunnelProvider,
    cf_token_file: &str,
    cf_config_exists: bool,
    ngrok_bin: &str,
    ngrok_config_ok: bool,
) -> (r: Result<u16, TunnelRefusal>)
    ensures
        r == tunnel_precheck_spec(
            status,
            confirmed_port,
            provider,
            cf_token_file@,
            cf_config_exists,
            ngrok_bin@,
            ngrok_config_ok,
        ),
{
    if status == TunnelStatus::Starting || status == TunnelStatus::Running {
        return Err(TunnelRefusal::AlreadyActive);
    }
    let p = match confirmed_port {
        Some(p) => p,
        None => {
            return Err(TunnelRefusal::EngineNotAnswering);
        },
    };
    if provider == TunnelProvider::Cloudflare && trim_str(cf_token_file).len() == 0 && cf_config_exists {
        return Err(TunnelRefusal::CloudflareConfigPresent);
    }
    if provider == TunnelProvider::Ngrok && chars_of(ngrok_bin).len() > 0 && !ngrok_config_ok {
        return Err(TunnelRefusal::NgrokNoAuthtoken);
    }
    Ok(p)
}

/// The command (program and arguments) that opens the tunnel to the local
/// port. `log` is the log file, `policy` the ngrok traffic-policy file when
/// one was written.
pub open spec fn tunnel_command_spec(
    t: TunnelSettings,
    port: u16,
    log: Seq<char>,
    policy: Option<Seq<char>>,
) -> Result<(Seq<char>, Seq<Seq<char>>), TunnelSetupError> {
    match t.provider {
        TunnelProvider::Cloudflare => if t.cf_bin@.len() == 0 {
            Err(TunnelSetupError::CloudflaredMissing)
        } else if trim(t.cf_token_file@).len() == 0 {
            Ok(
                (
                    t.cf_bin@,
                    seq![
                        "--no-autoupdate"@,
                        "--loglevel"@,
                        "info"@,
                        "--logfile"@,
                        log,
                        "tunnel"@,
                        "--url"@,
                        "http://127.0.0.1:"@ + decimal(port as nat),
                    ],
                ),
            )
        } else {
            Ok(
                (
                    t.cf_bin@,
                    seq![
                        "--no-autoupdate"@,
                        "--logfile"@,
                        log,
                        "tunnel"@,
                        "run"@,
                        "--token-file"@,
                        t.cf_token_file@,
                    ],
                ),
            )
        },
        TunnelProvider::Ngrok => if t.ngrok_bin@.len() == 0 {
            Err(TunnelSetupError::NgrokMissing)
        } else {
            Ok(
                (
                    t.ngrok_bin@,
                    seq![
                        "http"@,
                        "127.0.0.1:"@ + decimal(port as nat),
                        "--log"@,
                        log,
                        "--log-format"@,
                        "logfmt"@,
                        "--log-level"@,
                        "info"@,
                    ] + match policy {
                        Some(p) => seq!["--traffic-policy-file"@, p],
                        None => seq![],
                    } + words(t.ngrok_extra@),
                ),
            )
        },
        TunnelProvider::Ssh => if t.ssh_bin@.len() == 0 {
            Err(TunnelSetupError::SshMissing)
        } else if trim(t.ssh_target@).len() == 0 {
            Err(TunnelSetupError::SshTargetMissing)
        } else {
            let rport = if trim(t.ssh_remote_port@).len() == 0 {
                "80"@
            } else {
                trim(t.ssh_remote_port@)
            };
            Ok(
                (
                    t.ssh_bin@,
                    seq![
                        "-N"@,
                        "-T"@,
                        "-E"@,
                        log,
                        "-o"@,
                        "BatchMode=yes"@,
                        "-o"@,
                        "StrictHostKeyChecking=accept-new"@,
                        "-o"@,
                        "ExitOnForwardFailure=yes"@,
                        "-o"@,
                        "ConnectTimeout=10"@,
                        "-o"@,
                        "ServerAliveInterval=30"@,
                        "-o"@,
                        "ServerAliveCountMax=3"@,
                    ] + (if trim(t.ssh_key@).len() > 0 {
                        seq!["-i"@, trim(t.ssh_key@)]
                    } else {
                        seq![]
                    }) + seq!["-R"@, rport + ":127.0.0.1:"@ + decimal(port as nat), trim(t.ssh_target@)] + words(
                        t.ssh_extra@,
                    ),
                ),
            )
        },
    }
}

pub open spec fn opt_view(o: Option<&str>) -> Option<Seq<char>> {
    match o {
        Some(s) => Some(s@),
        None => None,
    }
}

fn arg(v: &mut Vec<String>, s: &str)
    ensures
        string_seqs(final(v)@) == string_seqs(old(v)@).push(s@),
{
    v.push(s.to_owned());
    assert(string_seqs(v@) =~= string_seqs(old(v)@).push(s@));
}

fn args_of(v: &mut Vec<String>, extra: Vec<String>)
    ensures
        string_seqs(final(v)@) == string_seqs(old(v)@) + string_seqs(extra@),
{
    let mut i: usize = 0;
    while i < extra.len()
        invariant
            i <= extra@.len(),
            string_seqs(v@) == string_seqs(old(v)@) + string_seqs(extra@.take(i as int)),
        decreases extra@.len() - i,
    {
        arg(v, extra[i].as_str());
        i = i + 1;
        assert(string_seqs(extra@.take(i as int)) =~= string_seqs(extra@.take(i - 1)).push(extra@[i - 1]@));
        assert(string_seqs(v@) =~= string_seqs(old(v)@) + string_seqs(extra@.take(i as int)));
    }
    assert(extra@.take(extra@.len() as int) =~= extra@);
}

fn port_text(prefix: &str, port: u16) -> (r: String)
    ensures
        r@ == prefix@ + decimal(port as nat),
{
    let mut out: Vec<char> = Vec::new();
    push_str(&mut out, prefix);
    let d = decimal_chars(port as u64);
    push_chars(&mut out, d.as_slice());
    string_of(out.as_slice())
}

fn no_args() -> (v: Vec<String>)
    ensures
        string_seqs(v@) == Seq::<Seq<char>>::empty(),
{
    let v: Vec<String> = Vec::new();
    assert(string_seqs(v@) =~= Seq::<Seq<char>>::empty());
    v
}

/// Builds the tunnel command, or says what is missing.
pub fn tunnel_command(t: &TunnelSettings, port: u16, log: &str, policy: Option<&str>) -> (r: Result<
    (String, Vec<String>),
    TunnelSetupError,
>)
    ensures
        match (r, tunnel_command_spec(*t, port, log@, opt_view(policy))) {
            (Ok((bin, args)), Ok((sbin, sargs))) => bin@ == sbin && string_seqs(args@) == sargs,
            (Err(e), Err(se)) => e == se,
            _ => false,
        },
{
    match t.provider {
        TunnelProvider::Cloudflare => {
            if t.cf_bin.as_str().is_empty() {
                return Err(TunnelSetupError::CloudflaredMissing);
            }
            let mut a = no_args();
            arg(&mut a, "--no-autoupdate");
            if trimmed(t.cf_token_file.as_str()).as_str().is_empty() {
                arg(&mut a, "--loglevel");
                arg(&mut a, "info");
                arg(&mut a, "--logfile");
                arg(&mut a, log);
                arg(&mut a, "tunnel");
                arg(&mut a, "--url");
                arg(&mut a, port_text("http://127.0.0.1:", port).as_str());
                assert(string_seqs(a@) =~= seq![
                    "--no-autoupdate"@,
                    "--loglevel"@,
                    "info"@,
                    "--logfile"@,
                    log@,
                    "tunnel"@,
                    "--url"@,
                    "http://127.0.0.1:"@ + decimal(port as nat),
                ]);
            } else {
                arg(&mut a, "--logfile");
                arg(&mut a, log);
                arg(&mut a, "tunnel");
                arg(&mut a, "run");
                arg(&mut a, "--token-file");
                arg(&mut a, t.cf_token_file.as_str());
                assert(string_seqs(a@) =~= seq![
                    "--no-autoupdate"@,
                    "--logfile"@,
                    log@,
                    "tunnel"@,
                    "run"@,
                    "--token-file"@,
                    t.cf_token_file@,
                ]);
            }
            Ok((t.cf_bin.clone(), a))
        },
        TunnelProvider::Ngrok => {
            if t.ngrok_bin.as_str().is_empty() {
                return Err(TunnelSetupError::NgrokMissing);
            }
            let mut a = no_args();
            arg(&mut a, "http");
            arg(&mut a, port_text("127.0.0.1:", port).as_str());
            arg(&mut a, "--log");
            arg(&mut a, log);
            arg(&mut a, "--log-format");
            arg(&mut a, "logfmt");
            arg(&mut a, "--log-level");
            arg(&mut a, "info");
            let ghost base = string_seqs(a@);
            assert(base =~= seq![
                "http"@,
                "127.0.0.1:"@ + decimal(port as nat),
                "--log"@,
                log@,
                "--log-format"@,
                "logfmt"@,
                "--log-level"@,
                "info"@,
            ]);
            match policy {
                Some(p) => {
                    arg(&mut a, "--traffic-policy-file");
                    arg(&mut a, p);
                    assert(string_seqs(a@) =~= base + seq!["--traffic-policy-file"@, p@]);
                },
                None => {
                    assert(string_seqs(a@) =~= base + Seq::<Seq<char>>::empty());
                },
            }
            let extra = split_words(t.ngrok_extra.as_str());
            args_of(&mut a, extra);
            Ok((t.ngrok_bin.clone(), a))
        },
        TunnelProvider::Ssh => {
            if t.ssh_bin.as_str().is_empty() {
                return Err(TunnelSetupError::SshMissing);
            }
            let target = trimmed(t.ssh_target.as_str());
            if target.as_str().is_empty() {
                return Err(TunnelSetupError::SshTargetMissing);
            }
            let rp = trimmed(t.ssh_remote_port.as_str());
            let rport = if rp.as_str().is_empty() {
                "80".to_owned()
            } else {
                rp
            };
            let mut a = no_args();
            arg(&mut a, "-N");
            arg(&mut a, "-T");
            arg(&mut a, "-E");
            arg(&mut a, log);
            arg(&mut a, "-o");
            arg(&mut a, "BatchMode=yes");
            arg(&mut a, "-o");
            arg(&mut a, "StrictHostKeyChecking=accept-new");
            arg(&mut a, "-o");
            arg(&mut a, "ExitOnForwardFailure=yes");
            arg(&mut a, "-o");
            arg(&mut a, "ConnectTimeout=10");
            arg(&mut a, "-o");
            arg(&mut a, "ServerAliveInterval=30");
            arg(&mut a, "-o");
            arg(&mut a, "ServerAliveCountMax=3");
            let ghost base = string_seqs(a@);
            assert(base =~= seq![
                "-N"@,
                "-T"@,
                "-E"@,
                log@,
                "-o"@,
                "BatchMode=yes"@,
                "-o"@,
                "StrictHostKeyChecking=accept-new"@,
                "-o"@,
                "ExitOnForwardFailure=yes"@,
                "-o"@,
                "ConnectTimeout=10"@,
                "-o"@,
                "ServerAliveInterval=30"@,
                "-o"@,
                "ServerAliveCountMax=3"@,
            ]);
            let key = trimmed(t.ssh_key.as_str());
            if !key.as_str().is_empty() {
                arg(&mut a, "-i");
                arg(&mut a, key.as_str());
                assert(string_seqs(a@) =~= base + seq!["-i"@, key@]);
            } else {
                assert(string_seqs(a@) =~= base + Seq::<Seq<char>>::empty());
            }
            let ghost mid = string_seqs(a@);
            arg(&mut a, "-R");
            let fwd_prefix = concat(rport.as_str(), ":127.0.0.1:");
            arg(&mut a, port_text(fwd_prefix.as_str(), port).as_str());
            arg(&mut a, target.as_str());
            assert(string_seqs(a@) =~= mid + seq!["-R"@, rport@ + ":127.0.0.1:"@ + decimal(port as nat), target@]);
            let extra = split_words(t.ssh_extra.as_str());
            args_of(&mut a, extra);
            Ok((t.ssh_bin.clone(), a))
        },
    }
}

// ───────────────────────── the public URL in the log ─────────────────────────

/// Host suffixes of each provider's public URLs.
pub open spec fn suffixes_of(p: TunnelProvider) -> Seq<Seq<char>> {
    match p {
        TunnelProvider::Cloudflare => seq![".trycloudflare.com"@],
        TunnelProvider::Ngrok => seq![".ngrok-free.app"@, ".ngrok-free.dev"@, ".ngrok.app"@, ".ngrok.io"@],
        TunnelProvider::Ssh => seq![".lhr.life"@, ".serveousercontent.com"@, ".serveo.net"@],
    }
}

pub open spec fn host_char(c: char) -> bool {
    is_alnum(c) || c == '.' || c == '-'
}

/// Where the run of host characters starting at `j` ends.
pub open spec fn host_end(t: Seq<char>, j: int) -> int
    decreases t.len() - j,
{
    if 0 <= j < t.len() && host_char(t[j]) {
        host_end(t, j + 1)
    } else {
        j
    }
}

/// A host longer than one of the suffixes and ending with it.
pub open spec fn host_accepted(h: Seq<char>, sufs: Seq<Seq<char>>) -> bool {
    exists|k: int| 0 <= k < sufs.len() && h.len() > sufs[k].len() && ends_with(h, #[trigger] sufs[k])
}

/// The scan of the log from index `i`: at each `https://`, the host that
/// follows; the last accepted one wins. The scan goes on after the host.
#[verifier::opaque]
pub open spec fn scan_urls(t: Seq<char>, i: int, sufs: Seq<Seq<char>>, found: Option<Seq<char>>) -> Option<Seq<char>>
    decreases t.len() - i,
{
    if i < 0 || i > t.len() {
        found
    } else {
        match first_index(t.skip(i), "https://"@) {
            None => found,
            Some(rel) => {
                let hs = i + rel + 8;
                let end = host_end(t, hs);
                let host = t.subrange(hs, end);
                let next = if host_accepted(host, sufs) {
                    Some("https://"@ + host)
                } else {
                    found
                };
                if hs <= end <= t.len() && end > i {
                    scan_urls(t, end, sufs, next)
                } else {
                    next
                }
            },
        }
    }
}

/// The provider's public URL as the log shows it last.
pub open spec fn public_url_in(text: Seq<char>, p: TunnelProvider) -> Option<Seq<char>> {
    scan_urls(text, 0, suffixes_of(p), None)
}

fn suffix_list(p: TunnelProvider) -> (r: Vec<Vec<char>>)
    ensures
        r@.map_values(|v: Vec<char>| v@) == suffixes_of(p),
{
    let mut r: Vec<Vec<char>> = Vec::new();
    match p {
        TunnelProvider::Cloudflare => {
            r.push(chars_of(".trycloudflare.com"));
        },
        TunnelProvider::Ngrok => {
            r.push(chars_of(".ngrok-free.app"));
            r.push(chars_of(".ngrok-free.dev"));
            r.push(chars_of(".ngrok.app"));
            r.push(chars_of(".ngrok.io"));
        },
        TunnelProvider::Ssh => {
            r.push(chars_of(".lhr.life"));
            r.push(chars_of(".serveousercontent.com"));
            r.push(chars_of(".serveo.net"));
        },
    }
    assert(r@.map_values(|v: Vec<char>| v@) =~= suffixes_of(p));
    r
}

fn accepted(host: &[char], sufs: &Vec<Vec<char>>) -> (r: bool)
    ensures
        r == host_accepted(host@, sufs@.map_values(|v: Vec<char>| v@)),
{
    let ghost sv = sufs@.map_values(|v: Vec<char>| v@);
    let mut k: usize = 0;
    while k < sufs.len()
        invariant
            k <= sufs@.len(),
            sv == sufs@.map_values(|v: Vec<char>| v@),
            forall|j: int| 0 <= j < k ==> !(host@.len() > sv[j].len() && ends_with(host@, #[trigger] sv[j])),
        decreases sufs@.len() - k,
    {
        assert(sv[k as int] == sufs@[k as int]@);
        if host.len() > sufs[k].len() && ends_with_chars(host, sufs[k].as_slice()) {
            return true;
        }
        k = k + 1;
    }
    false
}

fn host_end_from(t: &[char], j: usize) -> (r: usize)
    requires
        j <= t@.len(),
    ensures
        r as int == host_end(t@, j as int),
        j <= r <= t@.len(),
{
    let mut e = j;
    while e < t.len() && (('a' <= t[e] && t[e] <= 'z') || ('A' <= t[e] && t[e] <= 'Z') || ('0' <= t[e] && t[e] <= '9')
        || t[e] == '.' || t[e] == '-')
        invariant
            j <= e <= t@.len(),
            host_end(t@, e as int) == host_end(t@, j as int),
        decreases t@.len() - e,
    {
        e = e + 1;
    }
    e
}

/// Finds the public URL in the tunnel's log text.
pub fn extract_public_url(text: &str, p: TunnelProvider) -> (r: Option<String>)
    ensures
        match r {
            Some(u) => public_url_in(text@, p) == Some(u@),
            None => public_url_in(text@, p) is None,
        },
{
    let t = chars_of(text);
    let sufs = suffix_list(p);
    let pat = chars_of("https://");
    proof {
        reveal_strlit("https://");
    }
    let n = t.len();
    let mut found: Option<Vec<char>> = None;
    let mut i: usize = 0;
    let ghost sv = suffixes_of(p);
    loop
        invariant
            i <= n,
            n == t@.len(),
            t@ == text@,
            pat@ == "https://"@,
            pat@.len() == 8,
            sv == sufs@.map_values(|v: Vec<char>| v@),
            sv == suffixes_of(p),
            scan_urls(t@, i as int, sv, opt_chars(found)) == public_url_in(text@, p),
        decreases n - i,
    {
        let rest = slice_chars(t.as_slice(), i, n);
        assert(rest@ =~= t@.skip(i as int));
        proof {
            lemma_first_index_occurs(rest@, pat@);
        }
        match find_chars(rest.as_slice(), pat.as_slice()) {
            None => {
                proof {
                    lemma_scan_none(t@, i as int, sv, opt_chars(found));
                }
                return match found {
                    Some(u) => Some(string_of(u.as_slice())),
                    None => None,
                };
            },
            Some(rel) => {
                assert(occurs_at(rest@, pat@, rel as int));
                let hs = i + rel + 8;
                let end = host_end_from(t.as_slice(), hs);
                let host = slice_chars(t.as_slice(), hs, end);
                let ghost before = opt_chars(found);
                if accepted(host.as_slice(), &sufs) {
                    let mut u: Vec<char> = Vec::new();
                    push_chars(&mut u, pat.as_slice());
                    push_chars(&mut u, host.as_slice());
                    found = Some(u);
                }
                proof {
                    lemma_scan_step(t@, i as int, sv, before, rel as int);
                }
                i = end;
            },
        }
    }
}

proof fn lemma_scan_none(t: Seq<char>, i: int, sufs: Seq<Seq<char>>, found: Option<Seq<char>>)
    requires
        0 <= i <= t.len(),
        first_index(t.skip(i), "https://"@) is None,
    ensures
        scan_urls(t, i, sufs, found) == found,
{
    reveal(scan_urls);
}

proof fn lemma_scan_step(t: Seq<char>, i: int, sufs: Seq<Seq<char>>, found: Option<Seq<char>>, rel: int)
    requires
        0 <= i <= t.len(),
        first_index(t.skip(i), "https://"@) == Some(rel),
        0 <= rel,
        i + rel + 8 <= host_end(t, i + rel + 8) <= t.len(),
    ensures
        scan_urls(t, i, sufs, found) == scan_urls(
            t,
            host_end(t, i + rel + 8),
            sufs,
            if host_accepted(t.subrange(i + rel + 8, host_end(t, i + rel + 8)), sufs) {
                Some("https://"@ + t.subrange(i + rel + 8, host_end(t, i + rel + 8)))
            } else {
                found
            },
        ),
{
    reveal(scan_urls);
}

pub open spec fn opt_chars(o: Option<Vec<char>>) -> Option<Seq<char>> {
    match o {
        Some(v) => Some(v@),
        None => None,
    }
}

// ───────────────────────── identifiers ─────────────────────────

pub open spec fn token_alphabet() -> Seq<char> {
    "abcdefghijklmnopqrstuvwxyzABCDEFGHIJKLMNOPQRSTUVWXYZ0123456789"@
}

/// One xorshift64 step (shifts 13, 7, 17).
pub open spec fn xorshift(x: u64) -> u64 {
    let a = x ^ (x << 13u64);
    let b = a ^ (a >> 7u64);
    b ^ (b << 17u64)
}

/// The generator's state after `n` steps.
pub open spec fn xorshift_iter(seed: u64, n: nat) -> u64
    decreases n,
{
    if n == 0 {
        seed
    } else {
        xorshift(xorshift_iter(seed, (n - 1) as nat))
    }
}

/// The seed actually used: 0 would stay 0 forever, so it is replaced.
pub open spec fn effective_seed(seed: u64) -> u64 {
    if seed == 0 {
        0x9E3779B97F4A7C15
    } else {
        seed
    }
}

/// The token a seed gives: character `i` picks by the state after `i + 1` steps.
pub open spec fn token_from_seed(seed: u64, len: nat) -> Seq<char> {
    Seq::new(len, |i: int| token_alphabet()[(xorshift_iter(effective_seed(seed), (i + 1) as nat) % 62) as int])
}

/// An alphanumeric identifier from a seed (the run id and gate passwords; it
/// is not meant as key material).
pub fn gen_token(len: usize, seed: u64) -> (r: String)
    ensures
        r@ == token_from_seed(seed, len as nat),
{
    proof {
        reveal_strlit("abcdefghijklmnopqrstuvwxyzABCDEFGHIJKLMNOPQRSTUVWXYZ0123456789");
    }
    let chars = chars_of("abcdefghijklmnopqrstuvwxyzABCDEFGHIJKLMNOPQRSTUVWXYZ0123456789");
    let mut x: u64 = if seed == 0 {
        0x9E3779B97F4A7C15
    } else {
        seed
    };
    let mut out: Vec<char> = Vec::new();
    let mut i: usize = 0;
    while i < len
        invariant
            i <= len,
            chars@ == token_alphabet(),
            chars@.len() == 62,
            x == xorshift_iter(effective_seed(seed), i as nat),
            out@ =~= token_from_seed(seed, len as nat).take(i as int),
        decreases len - i,
    {
        x = x ^ (x << 13u64);
        x = x ^ (x >> 7u64);
        x = x ^ (x << 17u64);
        assert(x == xorshift_iter(effective_seed(seed), (i + 1) as nat));
        out.push(chars[(x % 62) as usize]);
        i = i + 1;
    }
    assert(out@ =~= token_from_seed(seed, len as nat));
    string_of(out.as_slice())
}

/// The registry value name of a tunnel: `tunnel:<slug>:<pid>`.
pub open spec fn registry_name(p: TunnelProvider, pid: u32) -> Seq<char> {
    "tunnel:"@ + slug_of(p) + ":"@ + decimal(pid as nat)
}

/// The registry value of a tunnel: image, creation date, port, run id and
/// mode (`gated` behind the password gate, `direct` otherwise), joined by `|`.
pub open spec fn registry_value(p: TunnelProvider, creation: Seq<char>, port: u16, run_id: Seq<char>, gated: bool) -> Seq<char> {
    image_of(p) + "|"@ + creation + "|"@ + decimal(port as nat) + "|"@ + run_id + "|"@ + (if gated {
        "gated"@
    } else {
        "direct"@
    })
}

pub fn tunnel_registry_name(p: TunnelProvider, pid: u32) -> (r: String)
    ensures
        r@ == registry_name(p, pid),
{
    let mut out: Vec<char> = Vec::new();
    push_str(&mut out, "tunnel:");
    push_str(&mut out, provider_slug(p));
    push_str(&mut out, ":");
    let d = decimal_chars(pid as u64);
    push_chars(&mut out, d.as_slice());
    string_of(out.as_slice())
}

pub fn tunnel_registry_value(p: TunnelProvider, creation: &str, port: u16, run_id: &str, gated: bool) -> (r: String)
    ensures
        r@ == registry_value(p, creation@, port, run_id@, gated),
{
    let mut out: Vec<char> = Vec::new();
    push_str(&mut out, provider_image(p));
    push_str(&mut out, "|");
    push_str(&mut out, creation);
    push_str(&mut out, "|");
    let d = decimal_chars(port as u64);
    push_chars(&mut out, d.as_slice());
    push_str(&mut out, "|");
    push_str(&mut out, run_id);
    push_str(&mut out, "|");
    if gated {
        push_str(&mut out, "gated");
    } else {
        push_str(&mut out, "direct");
    }
    string_of(out.as_slice())
}

/// The ngrok traffic policy that puts HTTP basic auth (user `fz`) in front.
pub open spec fn ngrok_policy(password: Seq<char>) -> Seq<char> {
    "on_http_request:\n  - actions:\n      - type: basic-auth\n        config:\n          realm: FzComputerAI MCP\n          credentials:\n            - \"fz:"@
        + password + "\"\n"@
}

pub fn ngrok_policy_yaml(password: &str) -> (r: String)
    ensures
        r@ == ngrok_policy(password@),
{
    let mut out: Vec<char> = Vec::new();
    push_str(
        &mut out,
        "on_http_request:\n  - actions:\n      - type: basic-auth\n        config:\n          realm: FzComputerAI MCP\n          credentials:\n            - \"fz:",
    );
    push_str(&mut out, password);
    push_str(&mut out, "\"\n");
    string_of(out.as_slice())
}

// ───────────────────────── saved settings ─────────────────────────

/// The settings as plain values.
pub struct TunnelSettingsV {
    pub provider: TunnelProvider,
    pub public_url: Seq<char>,
    pub cf_bin: Seq<char>,
    pub cf_token_file: Seq<char>,
    pub ngrok_bin: Seq<char>,
    pub ngrok_use_policy: bool,
    pub ngrok_extra: Seq<char>,
    pub ssh_bin: Seq<char>,
    pub ssh_target: Seq<char>,
    pub ssh_remote_port: Seq<char>,
    pub ssh_key: Seq<char>,
    pub ssh_extra: Seq<char>,
}

impl View for TunnelSettings {
    type V = TunnelSettingsV;

    open spec fn view(&self) -> TunnelSettingsV {
        TunnelSettingsV {
            provider: self.provider,
            public_url: self.public_url@,
            cf_bin: self.cf_bin@,
            cf_token_file: self.cf_token_file@,
            ngrok_bin: self.ngrok_bin@,
            ngrok_use_policy: self.ngrok_use_policy,
            ngrok_extra: self.ngrok_extra@,
            ssh_bin: self.ssh_bin@,
            ssh_target: self.ssh_target@,
            ssh_remote_port: self.ssh_remote_port@,
            ssh_key: self.ssh_key@,
            ssh_extra: self.ssh_extra@,
        }
    }
}

impl Default for TunnelSettings {
    /// Cloudflare, no binary found yet, the SSH target `nokey@localhost.run`
    /// on remote port 80, nothing else set.
    fn default() -> (r: TunnelSettings)
        ensures
            r@ == (TunnelSettingsV {
                provider: TunnelProvider::Cloudflare,
                public_url: seq![],
                cf_bin: seq![],
                cf_token_file: seq![],
                ngrok_bin: seq![],
                ngrok_use_policy: false,
                ngrok_extra: seq![],
                ssh_bin: seq![],
                ssh_target: "nokey@localhost.run"@,
                ssh_remote_port: "80"@,
                ssh_key: seq![],
                ssh_extra: seq![],
            }),
    {
        TunnelSettings {
            provider: TunnelProvider::Cloudflare,
            public_url: String::new(),
            cf_bin: String::new(),
            cf_token_file: String::new(),
            ngrok_bin: String::new(),
            ngrok_use_policy: false,
            ngrok_extra: String::new(),
            ssh_bin: String::new(),
            ssh_target: "nokey@localhost.run".to_owned(),
            ssh_remote_port: "80".to_owned(),
            ssh_key: String::new(),
            ssh_extra: String::new(),
        }
    }
}

/// The provider a saved name selects (Cloudflare unless `ngrok` or `ssh`).
pub open spec fn provider_named(v: Seq<char>) -> TunnelProvider {
    if v == "ngrok"@ {
        TunnelProvider::Ngrok
    } else if v == "ssh"@ {
        TunnelProvider::Ssh
    } else {
        TunnelProvider::Cloudflare
    }
}

/// One saved setting applied; unknown keys change nothing, an empty SSH
/// target or remote port keeps the current one.
pub open spec fn apply_setting(t: TunnelSettingsV, key: Seq<char>, value: Seq<char>) -> TunnelSettingsV {
    if key == "provider"@ {
        TunnelSettingsV { provider: provider_named(value), ..t }
    } else if key == "cf_token_file"@ {
        TunnelSettingsV { cf_token_file: value, ..t }
    } else if key == "public_url"@ {
        TunnelSettingsV { public_url: value, ..t }
    } else if key == "ngrok_extra"@ {
        TunnelSettingsV { ngrok_extra: value, ..t }
    } else if key == "ngrok_use_policy"@ {
        TunnelSettingsV { ngrok_use_policy: value != "0"@, ..t }
    } else if key == "ssh_target"@ {
        if value.len() > 0 {
            TunnelSettingsV { ssh_target: value, ..t }
        } else {
            t
        }
    } else if key == "ssh_remote_port"@ {
        if value.len() > 0 {
            TunnelSettingsV { ssh_remote_port: value, ..t }
        } else {
            t
        }
    } else if key == "ssh_key"@ {
        TunnelSettingsV { ssh_key: value, ..t }
    } else if key == "ssh_extra"@ {
        TunnelSettingsV { ssh_extra: value, ..t }
    } else {
        t
    }
}

/// The key and value of a `tunnelcfg:<key>  REG_SZ  <value>` line.
pub open spec fn setting_line(line: Seq<char>) -> Option<(Seq<char>, Seq<char>)> {
    let t = trim(line);
    if starts_with(t, "tunnelcfg:"@) {
        let rest = t.skip(10);
        match first_index(rest, "REG_SZ"@) {
            Some(p) => Some((trim(rest.take(p)), trim(rest.skip(p + 6)))),
            None => None,
        }
    } else {
        None
    }
}

/// The settings after reading the lines in order.
pub open spec fn settings_read(t: TunnelSettingsV, lines: Seq<Seq<char>>) -> TunnelSettingsV
    decreases lines.len(),
{
    if lines.len() == 0 {
        t
    } else {
        let before = settings_read(t, lines.drop_last());
        match setting_line(lines.last()) {
            Some((k, v)) => apply_setting(before, k, v),
            None => before,
        }
    }
}

fn same_text(s: &String, lit: &str) -> (r: bool)
    ensures
        r == (s@ == lit@),
{
    s.clone() == lit.to_owned()
}

fn apply_setting_exec(t: &mut TunnelSettings, key: String, value: String)
    ensures
        final(t)@ == apply_setting(old(t)@, key@, value@),
{
    if same_text(&key, "provider") {
        t.provider = if same_text(&value, "ngrok") {
            TunnelProvider::Ngrok
        } else if same_text(&value, "ssh") {
            TunnelProvider::Ssh
        } else {
            TunnelProvider::Cloudflare
        };
    } else if same_text(&key, "cf_token_file") {
        t.cf_token_file = value;
    } else if same_text(&key, "public_url") {
        t.public_url = value;
    } else if same_text(&key, "ngrok_extra") {
        t.ngrok_extra = value;
    } else if same_text(&key, "ngrok_use_policy") {
        t.ngrok_use_policy = !same_text(&value, "0");
    } else if same_text(&key, "ssh_target") {
        if !value.as_str().is_empty() {
            t.ssh_target = value;
        }
    } else if same_text(&key, "ssh_remote_port") {
        if !value.as_str().is_empty() {
            t.ssh_remote_port = value;
        }
    } else if same_text(&key, "ssh_key") {
        t.ssh_key = value;
    } else if same_text(&key, "ssh_extra") {
        t.ssh_extra = value;
    }
}

fn setting_of(line: &str) -> (r: Option<(String, String)>)
    ensures
        match r {
            Some((k, v)) => setting_line(line@) == Some((k@, v@)),
            None => setting_line(line@) is None,
        },
{
    let t = crate::text::trim_str(line);
    let pre = chars_of("tunnelcfg:");
    let pat = chars_of("REG_SZ");
    proof {
        reveal_strlit("tunnelcfg:");
        reveal_strlit("REG_SZ");
    }
    if !crate::text::starts_with_chars(t.as_slice(), pre.as_slice()) {
        return None;
    }
    let n = t.len();
    let rest = slice_chars(t.as_slice(), 10, n);
    assert(rest@ =~= t@.skip(10));
    proof {
        lemma_first_index_occurs(rest@, "REG_SZ"@);
    }
    let rn = rest.len();
    match find_chars(rest.as_slice(), pat.as_slice()) {
        Some(p) => {
            assert(occurs_at(rest@, "REG_SZ"@, p as int));
            let k = slice_chars(rest.as_slice(), 0, p);
            let v = slice_chars(rest.as_slice(), p + 6, rn);
            assert(k@ =~= rest@.take(p as int));
            assert(v@ =~= rest@.skip(p + 6));
            let kt = crate::text::trim_chars(k.as_slice());
            let vt = crate::text::trim_chars(v.as_slice());
            Some((string_of(kt.as_slice()), string_of(vt.as_slice())))
        },
        None => None,
    }
}

/// Reads the saved settings from `reg query HKCU\Software\FzComputerAI` output.
pub fn read_tunnel_cfg(t: &mut TunnelSettings, text: &str)
    ensures
        final(t)@ == settings_read(old(t)@, lines_of(text@)),
{
    let lines = crate::text::text_lines(text);
    let ghost lv = string_seqs(lines@);
    let mut i: usize = 0;
    while i < lines.len()
        invariant
            i <= lines@.len(),
            lv == string_seqs(lines@),
            lv == lines_of(text@),
            t@ == settings_read(old(t)@, lv.take(i as int)),
        decreases lines@.len() - i,
    {
        assert(lv[i as int] == lines@[i as int]@);
        assert(lv.take(i + 1).drop_last() =~= lv.take(i as int));
        assert(lv.take(i + 1).last() == lv[i as int]);
        match setting_of(lines[i].as_str()) {
            Some((k, v)) => {
                apply_setting_exec(t, k, v);
            },
            None => {},
        }
        i = i + 1;
    }
    assert(lv.take(lines@.len() as int) =~= lv);
}

/// The registry values that save the settings (never a secret: the
/// Cloudflare token is saved as the path of its file).
pub open spec fn saved_pairs(t: TunnelSettingsV) -> Seq<(Seq<char>, Seq<char>)> {
    seq![
        ("tunnelcfg:provider"@, slug_of(t.provider)),
        ("tunnelcfg:cf_token_file"@, t.cf_token_file),
        ("tunnelcfg:public_url"@, t.public_url),
        ("tunnelcfg:ngrok_extra"@, t.ngrok_extra),
        ("tunnelcfg:ngrok_use_policy"@, if t.ngrok_use_policy { "1"@ } else { "0"@ }),
        ("tunnelcfg:ssh_target"@, t.ssh_target),
        ("tunnelcfg:ssh_remote_port"@, t.ssh_remote_port),
        ("tunnelcfg:ssh_key"@, t.ssh_key),
        ("tunnelcfg:ssh_extra"@, t.ssh_extra),
    ]
}

pub open spec fn string_pairs(v: Seq<(String, String)>) -> Seq<(Seq<char>, Seq<char>)> {
    v.map_values(|p: (String, String)| (p.0@, p.1@))
}

fn pair(v: &mut Vec<(String, String)>, k: &str, x: &str)
    ensures
        string_pairs(final(v)@) == string_pairs(old(v)@).push((k@, x@)),
{
    v.push((k.to_owned(), x.to_owned()));
    assert(string_pairs(v@) =~= string_pairs(old(v)@).push((k@, x@)));
}

/// The registry values to write when the settings are saved.
pub fn tunnel_cfg_pairs(t: &TunnelSettings) -> (r: Vec<(String, String)>)
    ensures
        string_pairs(r@) == saved_pairs(t@),
{
    let mut v: Vec<(String, String)> = Vec::new();
    assert(string_pairs(v@) =~= Seq::<(Seq<char>, Seq<char>)>::empty());
    pair(&mut v, "tunnelcfg:provider", provider_slug(t.provider));
    pair(&mut v, "tunnelcfg:cf_token_file", t.cf_token_file.as_str());
    pair(&mut v, "tunnelcfg:public_url", t.public_url.as_str());
    pair(&mut v, "tunnelcfg:ngrok_extra", t.ngrok_extra.as_str());
    pair(&mut v, "tunnelcfg:ngrok_use_policy", if t.ngrok_use_policy { "1" } else { "0" });
    pair(&mut v, "tunnelcfg:ssh_target", t.ssh_target.as_str());
    pair(&mut v, "tunnelcfg:ssh_remote_port", t.ssh_remote_port.as_str());
    pair(&mut v, "tunnelcfg:ssh_key", t.ssh_key.as_str());
    pair(&mut v, "tunnelcfg:ssh_extra", t.ssh_extra.as_str());
    assert(string_pairs(v@) =~= saved_pairs(t@));
    v
}

// ───────────────────────── tunnels left by an earlier session ─────────────────────────

/// A tunnel recorded in the registry: value name, process id, and the image,
/// creation date and run id of its value.
pub struct TrackedTunnel {
    pub name: String,
    pub pid: u32,
    pub image: String,
    pub creation: String,
    pub run_id: String,
}

pub open spec fn part(parts: Seq<Seq<char>>, i: int) -> Seq<char> {
    if 0 <= i < parts.len() {
        parts[i]
    } else {
        seq![]
    }
}

/// What a `tunnel:<slug>:<pid>  REG_SZ  image|creation|port|run_id|mode` line records.
pub open spec fn tracked_line(line: Seq<char>) -> Option<(Seq<char>, u32, Seq<char>, Seq<char>, Seq<char>)> {
    let t = trim(line);
    if !starts_with(t, "tunnel:"@) {
        None
    } else {
        match first_index(t, "REG_SZ"@) {
            None => None,
            Some(pos) => {
                let name = trim(t.take(pos));
                let value = trim(t.skip(pos + 6));
                match parse_u32(after_last(name, ":"@)) {
                    None => None,
                    Some(pid) => {
                        let parts = crate::text::split_on(value, "|"@);
                        Some((name, pid, part(parts, 0), part(parts, 1), part(parts, 3)))
                    },
                }
            },
        }
    }
}

pub open spec fn tracked_of(lines: Seq<Seq<char>>) -> Seq<(Seq<char>, u32, Seq<char>, Seq<char>, Seq<char>)>
    decreases lines.len(),
{
    if lines.len() == 0 {
        seq![]
    } else {
        let rest = tracked_of(lines.drop_last());
        match tracked_line(lines.last()) {
            Some(x) => rest.push(x),
            None => rest,
        }
    }
}

pub open spec fn tracked_views(v: Seq<TrackedTunnel>) -> Seq<(Seq<char>, u32, Seq<char>, Seq<char>, Seq<char>)> {
    v.map_values(|x: TrackedTunnel| (x.name@, x.pid, x.image@, x.creation@, x.run_id@))
}

fn piece(parts: &Vec<Vec<char>>, i: usize) -> (r: String)
    ensures
        r@ == part(parts@.map_values(|v: Vec<char>| v@), i as int),
{
    if i < parts.len() {
        string_of(parts[i].as_slice())
    } else {
        String::new()
    }
}

fn tracked_of_line(line: &str) -> (r: Option<TrackedTunnel>)
    ensures
        match r {
            Some(x) => tracked_line(line@) == Some((x.name@, x.pid, x.image@, x.creation@, x.run_id@)),
            None => tracked_line(line@) is None,
        },
{
    let t = crate::text::trim_str(line);
    let pre = chars_of("tunnel:");
    let pat = chars_of("REG_SZ");
    let colon = chars_of(":");
    let bar = chars_of("|");
    proof {
        reveal_strlit("tunnel:");
        reveal_strlit("REG_SZ");
        reveal_strlit(":");
        reveal_strlit("|");
        lemma_first_index_occurs(t@, "REG_SZ"@);
    }
    if !crate::text::starts_with_chars(t.as_slice(), pre.as_slice()) {
        return None;
    }
    let n = t.len();
    let pos = match find_chars(t.as_slice(), pat.as_slice()) {
        Some(p) => p,
        None => {
            return None;
        },
    };
    assert(occurs_at(t@, "REG_SZ"@, pos as int));
    let head = slice_chars(t.as_slice(), 0, pos);
    let tail = slice_chars(t.as_slice(), pos + 6, n);
    assert(head@ =~= t@.take(pos as int));
    assert(tail@ =~= t@.skip(pos + 6));
    let name = crate::text::trim_chars(head.as_slice());
    let value = crate::text::trim_chars(tail.as_slice());
    let nn = name.len();
    let last = match rfind_chars(name.as_slice(), colon.as_slice()) {
        Some(k) => {
            proof {
                lemma_last_index_occurs(name@, colon@);
                assert(occurs_at(name@, colon@, k as int));
            }
            slice_chars(name.as_slice(), k + 1, nn)
        },
        None => slice_chars(name.as_slice(), 0, nn),
    };
    assert(last@ =~= after_last(name@, ":"@));
    let pid = match parse_u32_chars(last.as_slice()) {
        Some(p) => p,
        None => {
            return None;
        },
    };
    let parts = crate::text::split_chars(value.as_slice(), bar.as_slice());
    Some(TrackedTunnel {
        name: string_of(name.as_slice()),
        pid,
        image: piece(&parts, 0),
        creation: piece(&parts, 1),
        run_id: piece(&parts, 3),
    })
}

/// The tunnels recorded in `reg query HKCU\Software\FzComputerAI` output.
pub fn tracked_tunnels(text: &str) -> (r: Vec<TrackedTunnel>)
    ensures
        tracked_views(r@) == tracked_of(lines_of(text@)),
{
    let lines = crate::text::text_lines(text);
    let ghost lv = string_seqs(lines@);
    let mut out: Vec<TrackedTunnel> = Vec::new();
    let mut i: usize = 0;
    while i < lines.len()
        invariant
            i <= lines@.len(),
            lv == string_seqs(lines@),
            lv == lines_of(text@),
            tracked_views(out@) == tracked_of(lv.take(i as int)),
        decreases lines@.len() - i,
    {
        assert(lv[i as int] == lines@[i as int]@);
        assert(lv.take(i + 1).drop_last() =~= lv.take(i as int));
        assert(lv.take(i + 1).last() == lv[i as int]);
        match tracked_of_line(lines[i].as_str()) {
            Some(x) => {
                let ghost prev = tracked_views(out@);
                let ghost xv = (x.name@, x.pid, x.image@, x.creation@, x.run_id@);
                out.push(x);
                assert(tracked_views(out@) =~= prev.push(xv));
            },
            None => {},
        }
        i = i + 1;
    }
    assert(lv.take(lines@.len() as int) =~= lv);
    out
}

/// The PowerShell script that gives a process's creation date
/// (`yyyyMMddHHmmss`), which tells a recycled PID from the tunnel's.
pub open spec fn creation_date_script_text(pid: u32) -> Seq<char> {
    "$p = Get-CimInstance Win32_Process -Filter \"ProcessId="@ + decimal(pid as nat)
        + "\"; if ($p) { $p.CreationDate.ToString('yyyyMMddHHmmss') }"@
}

pub fn creation_date_script(pid: u32) -> (r: String)
    ensures
        r@ == creation_date_script_text(pid),
{
    let mut out: Vec<char> = Vec::new();
    push_str(&mut out, "$p = Get-CimInstance Win32_Process -Filter \"ProcessId=");
    push_chars(&mut out, decimal_chars(pid as u64).as_slice());
    push_str(&mut out, "\"; if ($p) { $p.CreationDate.ToString('yyyyMMddHHmmss') }");
    string_of(out.as_slice())
}

/// The PowerShell script that stops a recorded tunnel only when the process
/// is provably ours: the same PID, the provider's image name, the recorded
/// creation date (when one was recorded), and a command line that holds the
/// run's non-empty marker; it prints `KILLED` or `SKIP`.
pub open spec fn orphan_kill_script_text(pid: u32, image: Seq<char>, creation: Seq<char>, marker: Seq<char>) -> Seq<char> {
    "$ErrorActionPreference='SilentlyContinue'; $tp="@ + decimal(pid as nat)
        + "; $p=Get-CimInstance Win32_Process -Filter \"ProcessId=$tp\"; if ($p -and $p.Name -eq '"@ + image
        + "' -and ('"@ + creation + "' -eq '' -or $p.CreationDate.ToString('yyyyMMddHHmmss') -eq '"@ + creation
        + "') -and '"@ + marker + "' -ne '' -and $p.CommandLine -like ('*"@ + marker
        + "*')) { Stop-Process -Id $tp -Force; Write-Output 'KILLED' } else { Write-Output 'SKIP' }"@
}

pub fn orphan_kill_script(t: &TrackedTunnel) -> (r: String)
    ensures
        r@ == orphan_kill_script_text(t.pid, t.image@, t.creation@, t.run_id@),
{
    let mut out: Vec<char> = Vec::new();
    push_str(&mut out, "$ErrorActionPreference='SilentlyContinue'; $tp=");
    push_chars(&mut out, decimal_chars(t.pid as u64).as_slice());
    push_str(&mut out, "; $p=Get-CimInstance Win32_Process -Filter \"ProcessId=$tp\"; if ($p -and $p.Name -eq '");
    push_str(&mut out, t.image.as_str());
    push_str(&mut out, "' -and ('");
    push_str(&mut out, t.creation.as_str());
    push_str(&mut out, "' -eq '' -or $p.CreationDate.ToString('yyyyMMddHHmmss') -eq '");
    push_str(&mut out, t.creation.as_str());
    push_str(&mut out, "') -and '");
    push_str(&mut out, t.run_id.as_str());
    push_str(&mut out, "' -ne '' -and $p.CommandLine -like ('*");
    push_str(&mut out, t.run_id.as_str());
    push_str(&mut out, "*')) { Stop-Process -Id $tp -Force; Write-Output 'KILLED' } else { Write-Output 'SKIP' }");
    proof {
        assert(out@ =~= orphan_kill_script_text(t.pid, t.image@, t.creation@, t.run_id@));
    }
    string_of(out.as_slice())
}

} // verus!
