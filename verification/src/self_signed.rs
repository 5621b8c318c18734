use vstd::prelude::*;
use vstd::utf8::encode_utf8;
use crate::text::{bytes_of, string_seqs};
use crate::tls::{
    keep_self_signed, parse_x509, pem_contents, pem_contents_of, sans_shown, self_signed_reusable, shown_sans,
    x509_fields_of, SELF_SIGNED_DAYS, CertInfo, cert_shown, DateTimeParts,
};

verus! {

/// The common name of the self-signed certificate.
pub const SELF_SIGNED_COMMON_NAME: &'static str = "FzComputerAI MCP endpoint";

/// The organization of the self-signed certificate.
pub const SELF_SIGNED_ORGANIZATION: &'static str = "FzComputerAI (self-signed, local TLS)";

/// The certificate starts this many seconds before it is made, for clocks
/// that run a little behind.
pub const BACKDATE_SECS: i64 = 3600;

/// Seconds in a day.
pub const DAY_SECS: i64 = 86400;

/// A key usage of the certificate.
#[derive(PartialEq, Eq, Structural, Clone, Copy, Debug)]
pub enum KeyUse {
    DigitalSignature,
    KeyEncipherment,
}

/// An extended key usage of the certificate.
#[derive(PartialEq, Eq, Structural, Clone, Copy, Debug)]
pub enum ExtendedKeyUse {
    ServerAuth,
}

/// Whether the certificate may sign others.
#[derive(PartialEq, Eq, Structural, Clone, Copy, Debug)]
pub enum CaMark {
    /// Marked explicitly as no CA.
    NotCa,
    /// A CA without a path-length limit.
    Ca,
}

/// What a self-signed certificate is made of: its names, its validity period
/// (Unix seconds), its subject, whether it is a CA, and its usages.
pub struct SelfSignedParams {
    pub sans: Vec<String>,
    pub not_before: i64,
    pub not_after: i64,
    pub common_name: String,
    pub organization: String,
    pub ca: CaMark,
    pub key_usages: Vec<KeyUse>,
    pub ext_key_usages: Vec<ExtendedKeyUse>,
}

pub struct SelfSignedParamsV {
    pub sans: Seq<Seq<char>>,
    pub not_before: i64,
    pub not_after: i64,
    pub common_name: Seq<char>,
    pub organization: Seq<char>,
    pub ca: CaMark,
    pub key_usages: Seq<KeyUse>,
    pub ext_key_usages: Seq<ExtendedKeyUse>,
}

impl View for SelfSignedParams {
    type V = SelfSignedParamsV;

    open spec fn view(&self) -> SelfSignedParamsV {
        SelfSignedParamsV {
            sans: string_seqs(self.sans@),
            not_before: self.not_before,
            not_after: self.not_after,
            common_name: self.common_name@,
            organization: self.organization@,
            ca: self.ca,
            key_usages: self.key_usages@,
            ext_key_usages: self.ext_key_usages@,
        }
    }
}

/// The parameters of this program's self-signed certificate: the names, the
/// period, `SELF_SIGNED_COMMON_NAME` / `SELF_SIGNED_ORGANIZATION`, no CA,
/// digital signature and key encipherment, server authentication.
pub open spec fn self_signed_params_spec(sans: Seq<Seq<char>>, not_before: i64, not_after: i64) -> SelfSignedParamsV {
    SelfSignedParamsV {
        sans,
        not_before,
        not_after,
        common_name: SELF_SIGNED_COMMON_NAME@,
        organization: SELF_SIGNED_ORGANIZATION@,
        ca: CaMark::NotCa,
        key_usages: seq![KeyUse::DigitalSignature, KeyUse::KeyEncipherment],
        ext_key_usages: seq![ExtendedKeyUse::ServerAuth],
    }
}

/// Builds the parameters of the self-signed certificate.
pub fn self_signed_params(sans: &Vec<String>, not_before: i64, not_after: i64) -> (r: SelfSignedParams)
    ensures
        r@ == self_signed_params_spec(string_seqs(sans@), not_before, not_after),
{
    let mut key_usages: Vec<KeyUse> = Vec::new();
    key_usages.push(KeyUse::DigitalSignature);
    key_usages.push(KeyUse::KeyEncipherment);
    let mut ext_key_usages: Vec<ExtendedKeyUse> = Vec::new();
    ext_key_usages.push(ExtendedKeyUse::ServerAuth);
    let r = SelfSignedParams {
        sans: copy_strings(sans),
        not_before,
        not_after,
        common_name: SELF_SIGNED_COMMON_NAME.to_string(),
        organization: SELF_SIGNED_ORGANIZATION.to_string(),
        ca: CaMark::NotCa,
        key_usages,
        ext_key_usages,
    };
    assert(r.key_usages@ =~= seq![KeyUse::DigitalSignature, KeyUse::KeyEncipherment]);
    assert(r.ext_key_usages@ =~= seq![ExtendedKeyUse::ServerAuth]);
    r
}

fn copy_strings(v: &Vec<String>) -> (r: Vec<String>)
    ensures
        string_seqs(r@) == string_seqs(v@),
{
    let mut out: Vec<String> = Vec::new();
    let mut i: usize = 0;
    while i < v.len()
        invariant
            i <= v@.len(),
            out@.len() == i,
            forall|k: int| 0 <= k < i ==> #[trigger] out@[k]@ == v@[k]@,
        decreases v@.len() - i,
    {
        out.push(v[i].clone());
        i = i + 1;
    }
    assert(string_seqs(out@) =~= string_seqs(v@));
    out
}

#[verifier::external_type_specification]
#[verifier::external_body]
pub struct ExKeyPair(rcgen::KeyPair);

/// Calls `time::OffsetDateTime::from_unix_timestamp`; `None` outside the
/// range that `time` represents. Nothing is stated of the value.
#[verifier::external_body]
fn unix_time(t: i64) -> Option<time::OffsetDateTime> {
    time::OffsetDateTime::from_unix_timestamp(t).ok()
}

/// Calls `rcgen::KeyPair::generate_for` with ECDSA P-256 / SHA-256: a fresh
/// random key, or `None` when the generator fails. Nothing is stated of it.
#[verifier::external_body]
fn generate_p256_key() -> Option<rcgen::KeyPair> {
    rcgen::KeyPair::generate_for(&rcgen::PKCS_ECDSA_P256_SHA256).ok()
}

#[verifier::external_type_specification]
#[verifier::external_body]
pub struct ExDistinguishedName(rcgen::DistinguishedName);

#[verifier::external_type_specification]
#[verifier::external_body]
pub struct ExIsCa(rcgen::IsCa);

#[verifier::external_type_specification]
#[verifier::external_body]
pub struct ExKeyUsagePurpose(rcgen::KeyUsagePurpose);

/// An `rcgen::DistinguishedName` made with `DistinguishedName::new` and two
/// `push` calls: the common name, then the organization.
#[verifier::external_body]
fn subject_name(common_name: &str, organization: &str) -> rcgen::DistinguishedName {
    let mut dn = rcgen::DistinguishedName::new();
    dn.push(rcgen::DnType::CommonName, common_name);
    dn.push(rcgen::DnType::OrganizationName, organization);
    dn
}

/// The CA mark as `rcgen::IsCa`, one variant for one variant.
#[verifier::external_body]
fn rcgen_is_ca(c: CaMark) -> rcgen::IsCa {
    match c {
        CaMark::NotCa => rcgen::IsCa::ExplicitNoCa,
        CaMark::Ca => rcgen::IsCa::Ca(rcgen::BasicConstraints::Unconstrained),
    }
}

/// A key usage as `rcgen::KeyUsagePurpose`, one variant for one variant.
#[verifier::external_body]
fn rcgen_key_usage(u: &KeyUse) -> rcgen::KeyUsagePurpose {
    match u {
        KeyUse::DigitalSignature => rcgen::KeyUsagePurpose::DigitalSignature,
        KeyUse::KeyEncipherment => rcgen::KeyUsagePurpose::KeyEncipherment,
    }
}

/// Converts the parameters field for field into `rcgen::CertificateParams`
/// (`CertificateParams::new` with the names, the two times, the subject, the
/// CA mark and the usages, one variant for one variant), then calls
/// `CertificateParams::self_signed` with the key and gives the certificate's
/// PEM text. `None` when rcgen refuses a name or signing, or a time is out
/// of range. Nothing is stated of the text: the key is random.
#[verifier::external_body]
fn sign_self(p: &SelfSignedParams, key: &rcgen::KeyPair) -> Option<String> {
    let mut c = rcgen::CertificateParams::new(p.sans.clone()).ok()?;
    c.not_before = unix_time(p.not_before)?;
    c.not_after = unix_time(p.not_after)?;
    c.distinguished_name = subject_name(&p.common_name, &p.organization);
    c.is_ca = rcgen_is_ca(p.ca);
    c.key_usages = p.key_usages.iter().map(rcgen_key_usage).collect();
    c.extended_key_usages = p.ext_key_usages.iter().map(|u| match u { ExtendedKeyUse::ServerAuth => rcgen::ExtendedKeyUsagePurpose::ServerAuth }).collect();
    c.self_signed(key).ok().map(|x| x.pem())
}

/// Calls `rcgen::KeyPair::serialize_pem`. Nothing is stated of the text.
#[verifier::external_body]
fn key_pem(key: &rcgen::KeyPair) -> String {
    key.serialize_pem()
}

/// The validity period of a certificate made at `now`: from an hour before
/// to `SELF_SIGNED_DAYS` days after.
pub open spec fn self_signed_window_spec(now: i64) -> (int, int) {
    (now - BACKDATE_SECS, now + SELF_SIGNED_DAYS * DAY_SECS)
}

/// The validity period for a certificate made at `now` (Unix seconds);
/// `None` only where it does not fit in an `i64`.
pub fn self_signed_window(now: i64) -> (r: Option<(i64, i64)>)
    ensures
        match r {
            Some((a, b)) => (a as int, b as int) == self_signed_window_spec(now),
            None => !(i64::MIN <= self_signed_window_spec(now).0 && self_signed_window_spec(now).1 <= i64::MAX),
        },
{
    if now < i64::MIN + BACKDATE_SECS || now > i64::MAX - SELF_SIGNED_DAYS * DAY_SECS {
        return None;
    }
    Some((now - BACKDATE_SECS, now + SELF_SIGNED_DAYS * DAY_SECS))
}

/// The PEM text reads back, through x509-parser, as a certificate valid from
/// `not_before` to `not_after`, issued by its own subject, whose SANs cover
/// every name of `sans` (compared lower-cased, as on reuse).
pub open spec fn reads_back_as_asked(cert_pem: Seq<char>, sans: Seq<Seq<char>>, not_before: i64, not_after: i64) -> bool {
    match pem_contents_of(encode_utf8(cert_pem)) {
        Some(der) => match x509_fields_of(der) {
            Some(f) => {
                &&& f.not_before.unix == not_before
                &&& f.not_after.unix == not_after
                &&& f.subject == f.issuer
                &&& keep_self_signed(sans_shown(f.sans), false, sans)
            },
            None => false,
        },
        None => false,
    }
}

/// A generated self-signed pair: the certificate and the private key in PEM,
/// and whether the certificate was read back as asked.
pub struct SelfSigned {
    pub cert_pem: String,
    pub key_pem: String,
    /// What the certificate was made from, as handed to rcgen.
    pub params: SelfSignedParams,
    pub reads_back: bool,
}

/// Whether the certificate's PEM reads back as asked.
fn check_reads_back(cert_pem: &String, sans: &Vec<String>, not_before: i64, not_after: i64) -> (r: bool)
    ensures
        r == reads_back_as_asked(cert_pem@, string_seqs(sans@), not_before, not_after),
{
    let bytes = bytes_of(cert_pem.as_str());
    let der = match pem_contents(bytes.as_slice()) {
        Some(d) => d,
        None => {
            return false;
        },
    };
    let f = match parse_x509(der.as_slice()) {
        Some(f) => f,
        None => {
            return false;
        },
    };
    let have = shown_sans(&f.sans);
    f.not_before.unix == not_before && f.not_after.unix == not_after && f.subject == f.issuer
        && self_signed_reusable(&have, false, sans)
}

/// Makes the self-signed certificate for the names, valid from
/// `not_before` to `not_after` (Unix seconds): a fresh ECDSA P-256 key and
/// the parameters of `self_signed_params_spec`, which are handed to rcgen
/// and returned. `None` when key generation or signing fails (rcgen refuses
/// a name, a time is out of range); otherwise the pair, with whether the
/// certificate reads back as asked.
pub fn self_signed_pem(sans: &Vec<String>, not_before: i64, not_after: i64) -> (r: Option<SelfSigned>)
    ensures
        r matches Some(s) ==> {
            &&& s.params@ == self_signed_params_spec(string_seqs(sans@), not_before, not_after)
            &&& s.reads_back == reads_back_as_asked(s.cert_pem@, string_seqs(sans@), not_before, not_after)
        },
{
    let params = self_signed_params(sans, not_before, not_after);
    let key = match generate_p256_key() {
        Some(k) => k,
        None => {
            return None;
        },
    };
    let cert_pem = match sign_self(&params, &key) {
        Some(c) => c,
        None => {
            return None;
        },
    };
    let reads_back = check_reads_back(&cert_pem, sans, not_before, not_after);
    Some(SelfSigned { cert_pem, key_pem: key_pem(&key), params, reads_back })
}

/// Makes the self-signed certificate at `now` (Unix seconds), valid from an
/// hour before to `SELF_SIGNED_DAYS` days after; `None` where that period
/// does not fit or the generation fails.
pub fn self_signed_now(sans: &Vec<String>, now: i64) -> (r: Option<SelfSigned>)
    ensures
        r matches Some(s) ==> {
            &&& s.params@ == self_signed_params_spec(
                string_seqs(sans@),
                self_signed_window_spec(now).0 as i64,
                self_signed_window_spec(now).1 as i64,
            )
            &&& s.reads_back == reads_back_as_asked(
                s.cert_pem@,
                string_seqs(sans@),
                self_signed_window_spec(now).0 as i64,
                self_signed_window_spec(now).1 as i64,
            )
        },
        !(i64::MIN <= self_signed_window_spec(now).0 && self_signed_window_spec(now).1 <= i64::MAX) ==> r is None,
{
    match self_signed_window(now) {
        Some((a, b)) => self_signed_pem(sans, a, b),
        None => None,
    }
}

/// Whether a new self-signed certificate is made: when asked to, when there
/// is none (or it cannot be read), and when the one there is due for renewal
/// or does not cover every wanted name; `existing` is its SANs and whether
/// it is due.
pub fn self_signed_needed(force: bool, existing: Option<(&Vec<String>, bool)>, wanted: &Vec<String>) -> (r: bool)
    ensures
        r == (force || match existing {
            None => true,
            Some((have, due)) => !keep_self_signed(string_seqs(have@), due, string_seqs(wanted@)),
        }),
{
    if force {
        return true;
    }
    match existing {
        None => true,
        Some((have, due)) => !self_signed_reusable(have, due, wanted),
    }
}


/// A certificate made here is not made again: once its PEM reads back as
/// asked for `sans`, the certificate shown from its file (at any clock
/// reading) covers every one of those names, so while it is not due for
/// renewal `self_signed_needed` keeps it for them.
pub proof fn made_certificate_is_kept(
    cert_pem: Seq<char>,
    sans: Seq<Seq<char>>,
    not_before: i64,
    not_after: i64,
    c: CertInfo,
    now: DateTimeParts,
)
    requires
        reads_back_as_asked(cert_pem, sans, not_before, not_after),
        match pem_contents_of(encode_utf8(cert_pem)) {
            Some(der) => match x509_fields_of(der) {
                Some(f) => cert_shown(c, f, der, now),
                None => false,
            },
            None => false,
        },
    ensures
        keep_self_signed(string_seqs(c.sans@), false, sans),
{
}

} // verus!
