use vstd::prelude::*;
use crate::text::{push_str, string_of};
use crate::tls::{domain_check_spec, domain_check, DomainError};
use crate::tunnel::{tr, Language};

verus! {

/// An authorization's status, as the CA reports it.
#[derive(PartialEq, Eq, Structural, Clone, Copy, Debug)]
pub enum AuthzStatus {
    Pending,
    Valid,
    /// Invalid, revoked, expired or deactivated.
    Other,
}

/// The order's status after polling for validation.
#[derive(PartialEq, Eq, Structural, Clone, Copy, Debug)]
pub enum OrderStatus {
    Ready,
    /// Pending, processing, valid or invalid.
    Other,
}

/// Why an issuance stopped.
#[derive(PartialEq, Eq, Structural, Clone, Copy, Debug)]
pub enum AcmeFailure {
    /// The domain is empty or holds `/` or a space.
    InvalidDomain,
    /// The domain is an IP address.
    IpAddress,
    /// A call to the CA, the responder or the files failed; its own error says why.
    Outside,
    /// An authorization neither pending nor valid.
    UnexpectedAuthorization,
    /// The CA offered no HTTP-01 challenge.
    NoHttp01,
    /// The order did not become ready: the CA could not validate.
    ValidationFailed,
}

/// Where an issuance stands.
#[derive(PartialEq, Eq, Structural, Clone, Copy, Debug)]
pub enum AcmeState {
    /// The ACME account is being loaded or created.
    Account,
    /// The order for the domain is being created.
    CreatingOrder,
    /// The order's authorizations are walked; `responder_up` once the HTTP-01
    /// responder listens.
    Authorizing { responder_up: bool },
    /// A challenge is being answered and marked ready.
    Serving,
    /// The order is polled until the CA decides.
    Validating,
    /// The order is finalized (the CSR is made by the client).
    Finalizing,
    /// The certificate chain is fetched.
    Fetching,
    /// The previous pair is backed up and the new one written.
    Saving,
    Done,
    Failed,
}

/// What the host saw after the last action.
#[derive(PartialEq, Eq, Structural, Clone, Copy, Debug)]
pub enum AcmeInput {
    AccountReady { ok: bool },
    OrderCreated { ok: bool },
    /// The next authorization: its status and whether it offers HTTP-01.
    Authorization { status: AuthzStatus, http01: bool },
    /// Fetching the next authorization failed.
    AuthorizationFailed,
    /// There are no more authorizations.
    NoMoreAuthorizations,
    /// The challenge is published (and the responder up) and marked ready.
    ChallengeServed { ok: bool },
    /// Polling ended: whether it worked, and the order's status.
    OrderPolled { ok: bool, status: OrderStatus },
    Finalized { ok: bool },
    CertificateFetched { ok: bool },
    Saved { ok: bool },
}

/// What the host does next.
#[derive(PartialEq, Eq, Structural, Clone, Copy, Debug)]
pub enum AcmeAction {
    /// Create the directory, then load the saved account or create one.
    OpenAccount,
    CreateOrder,
    NextAuthorization,
    /// Publish the challenge's key authorization (starting the responder on
    /// port 80 when `start_responder`) and mark the challenge ready.
    ServeChallenge { start_responder: bool },
    /// Poll the order until the CA decides (then stop the responder).
    PollOrder,
    Finalize,
    FetchCertificate,
    /// Back up the previous pair, then write the new key and certificate.
    BackUpAndSave,
    /// The certificate is issued and saved.
    Finish,
    Fail(AcmeFailure),
}

/// The first step: the domain is checked before anything is created or sent.
pub open spec fn acme_start_spec(domain: Seq<char>, is_ip: bool) -> (AcmeState, AcmeAction) {
    match domain_check_spec(domain, is_ip) {
        Some(DomainError::Invalid) => (AcmeState::Failed, AcmeAction::Fail(AcmeFailure::InvalidDomain)),
        Some(DomainError::IpAddress) => (AcmeState::Failed, AcmeAction::Fail(AcmeFailure::IpAddress)),
        None => (AcmeState::Account, AcmeAction::OpenAccount),
    }
}

pub fn acme_start(domain: &str, is_ip: bool) -> (r: (AcmeState, AcmeAction))
    ensures
        r == acme_start_spec(domain@, is_ip),
{
    match domain_check(domain, is_ip) {
        Some(DomainError::Invalid) => (AcmeState::Failed, AcmeAction::Fail(AcmeFailure::InvalidDomain)),
        Some(DomainError::IpAddress) => (AcmeState::Failed, AcmeAction::Fail(AcmeFailure::IpAddress)),
        None => (AcmeState::Account, AcmeAction::OpenAccount),
    }
}

/// A failed outside step ends the issuance.
pub open spec fn outside_failed() -> (AcmeState, AcmeAction) {
    (AcmeState::Failed, AcmeAction::Fail(AcmeFailure::Outside))
}

/// The next state and action of an issuance, for each state and input.
pub open spec fn acme_step_spec(s: AcmeState, e: AcmeInput) -> (AcmeState, AcmeAction) {
    match (s, e) {
        (AcmeState::Account, AcmeInput::AccountReady { ok }) => if ok {
            (AcmeState::CreatingOrder, AcmeAction::CreateOrder)
        } else {
            outside_failed()
        },
        (AcmeState::CreatingOrder, AcmeInput::OrderCreated { ok }) => if ok {
            (AcmeState::Authorizing { responder_up: false }, AcmeAction::NextAuthorization)
        } else {
            outside_failed()
        },
        (AcmeState::Authorizing { responder_up }, AcmeInput::Authorization { status, http01 }) => match status {
            AuthzStatus::Valid => (AcmeState::Authorizing { responder_up }, AcmeAction::NextAuthorization),
            AuthzStatus::Other => (AcmeState::Failed, AcmeAction::Fail(AcmeFailure::UnexpectedAuthorization)),
            AuthzStatus::Pending => if http01 {
                (AcmeState::Serving, AcmeAction::ServeChallenge { start_responder: !responder_up })
            } else {
                (AcmeState::Failed, AcmeAction::Fail(AcmeFailure::NoHttp01))
            },
        },
        (AcmeState::Authorizing { .. }, AcmeInput::AuthorizationFailed) => outside_failed(),
        (AcmeState::Authorizing { .. }, AcmeInput::NoMoreAuthorizations) => (
            AcmeState::Validating,
            AcmeAction::PollOrder,
        ),
        (AcmeState::Serving, AcmeInput::ChallengeServed { ok }) => if ok {
            (AcmeState::Authorizing { responder_up: true }, AcmeAction::NextAuthorization)
        } else {
            outside_failed()
        },
        (AcmeState::Validating, AcmeInput::OrderPolled { ok, status }) => if !ok {
            outside_failed()
        } else if status == OrderStatus::Ready {
            (AcmeState::Finalizing, AcmeAction::Finalize)
        } else {
            (AcmeState::Failed, AcmeAction::Fail(AcmeFailure::ValidationFailed))
        },
        (AcmeState::Finalizing, AcmeInput::Finalized { ok }) => if ok {
            (AcmeState::Fetching, AcmeAction::FetchCertificate)
        } else {
            outside_failed()
        },
        (AcmeState::Fetching, AcmeInput::CertificateFetched { ok }) => if ok {
            (AcmeState::Saving, AcmeAction::BackUpAndSave)
        } else {
            outside_failed()
        },
        (AcmeState::Saving, AcmeInput::Saved { ok }) => if ok {
            (AcmeState::Done, AcmeAction::Finish)
        } else {
            outside_failed()
        },
        (_, _) => outside_failed(),
    }
}

/// One step of an issuance.
pub fn acme_step(s: AcmeState, e: AcmeInput) -> (r: (AcmeState, AcmeAction))
    ensures
        r == acme_step_spec(s, e),
{
    match (s, e) {
        (AcmeState::Account, AcmeInput::AccountReady { ok }) => if ok {
            (AcmeState::CreatingOrder, AcmeAction::CreateOrder)
        } else {
            (AcmeState::Failed, AcmeAction::Fail(AcmeFailure::Outside))
        },
        (AcmeState::CreatingOrder, AcmeInput::OrderCreated { ok }) => if ok {
            (AcmeState::Authorizing { responder_up: false }, AcmeAction::NextAuthorization)
        } else {
            (AcmeState::Failed, AcmeAction::Fail(AcmeFailure::Outside))
        },
        (AcmeState::Authorizing { responder_up }, AcmeInput::Authorization { status, http01 }) => match status {
            AuthzStatus::Valid => (AcmeState::Authorizing { responder_up }, AcmeAction::NextAuthorization),
            AuthzStatus::Other => (AcmeState::Failed, AcmeAction::Fail(AcmeFailure::UnexpectedAuthorization)),
            AuthzStatus::Pending => if http01 {
                (AcmeState::Serving, AcmeAction::ServeChallenge { start_responder: !responder_up })
            } else {
                (AcmeState::Failed, AcmeAction::Fail(AcmeFailure::NoHttp01))
            },
        },
        (AcmeState::Authorizing { .. }, AcmeInput::AuthorizationFailed) => (
            AcmeState::Failed,
            AcmeAction::Fail(AcmeFailure::Outside),
        ),
        (AcmeState::Authorizing { .. }, AcmeInput::NoMoreAuthorizations) => (
            AcmeState::Validating,
            AcmeAction::PollOrder,
        ),
        (AcmeState::Serving, AcmeInput::ChallengeServed { ok }) => if ok {
            (AcmeState::Authorizing { responder_up: true }, AcmeAction::NextAuthorization)
        } else {
            (AcmeState::Failed, AcmeAction::Fail(AcmeFailure::Outside))
        },
        (AcmeState::Validating, AcmeInput::OrderPolled { ok, status }) => if !ok {
            (AcmeState::Failed, AcmeAction::Fail(AcmeFailure::Outside))
        } else if status == OrderStatus::Ready {
            (AcmeState::Finalizing, AcmeAction::Finalize)
        } else {
            (AcmeState::Failed, AcmeAction::Fail(AcmeFailure::ValidationFailed))
        },
        (AcmeState::Finalizing, AcmeInput::Finalized { ok }) => if ok {
            (AcmeState::Fetching, AcmeAction::FetchCertificate)
        } else {
            (AcmeState::Failed, AcmeAction::Fail(AcmeFailure::Outside))
        },
        (AcmeState::Fetching, AcmeInput::CertificateFetched { ok }) => if ok {
            (AcmeState::Saving, AcmeAction::BackUpAndSave)
        } else {
            (AcmeState::Failed, AcmeAction::Fail(AcmeFailure::Outside))
        },
        (AcmeState::Saving, AcmeInput::Saved { ok }) => if ok {
            (AcmeState::Done, AcmeAction::Finish)
        } else {
            (AcmeState::Failed, AcmeAction::Fail(AcmeFailure::Outside))
        },
        (_, _) => (AcmeState::Failed, AcmeAction::Fail(AcmeFailure::Outside)),
    }
}

/// A refused domain is refused before anything: no directory, account or
/// request to the CA follows the first step.
pub proof fn refused_domain_contacts_nothing(domain: Seq<char>, is_ip: bool)
    ensures
        domain_check_spec(domain, is_ip) is Some ==> acme_start_spec(domain, is_ip).1 is Fail,
        domain_check_spec(domain, is_ip) is None ==> acme_start_spec(domain, is_ip) == (
            AcmeState::Account,
            AcmeAction::OpenAccount,
        ),
{
}

/// The certificate is finalized only after the order was polled ready, and
/// saved (after the backup) only once the chain was fetched; after a
/// failure nothing more is done.
pub proof fn saved_only_after_validation(s: AcmeState, e: AcmeInput)
    ensures
        acme_step_spec(s, e).1 == AcmeAction::Finalize ==> s == AcmeState::Validating && e == (AcmeInput::OrderPolled {
            ok: true,
            status: OrderStatus::Ready,
        }),
        acme_step_spec(s, e).1 == AcmeAction::BackUpAndSave ==> s == AcmeState::Fetching && e == (
        AcmeInput::CertificateFetched { ok: true }),
        s == AcmeState::Failed ==> acme_step_spec(s, e).1 is Fail,
{
}

impl AcmeFailure {
    /// The failure's text for the domain, in each language; an outside
    /// failure is described by its own error instead.
    pub open spec fn shown(self, domain: Seq<char>, lang: Language) -> Seq<char> {
        match self {
            AcmeFailure::InvalidDomain => DomainError::Invalid.shown(domain, lang),
            AcmeFailure::IpAddress => DomainError::IpAddress.shown(domain, lang),
            AcmeFailure::Outside => match lang {
                Language::PtBr => "falha na comunicação ACME"@,
                Language::English => "ACME exchange failed"@,
            },
            AcmeFailure::UnexpectedAuthorization => match lang {
                Language::PtBr => "autorização em estado inesperado"@,
                Language::English => "authorization in an unexpected state"@,
            },
            AcmeFailure::NoHttp01 => match lang {
                Language::PtBr => "a CA não ofereceu desafio HTTP-01"@,
                Language::English => "the CA offered no HTTP-01 challenge"@,
            },
            AcmeFailure::ValidationFailed => match lang {
                Language::PtBr => "validação falhou. Causas comuns: o DNS de "@ + domain
                    + " não aponta para o IP público desta máquina, ou a porta 80 não está encaminhada/aberta até aqui."@,
                Language::English => "validation failed: does the DNS of "@ + domain
                    + " point to this machine's public IP, and is port 80 forwarded to it?"@,
            },
        }
    }

    pub fn message(self, domain: &str, lang: Language) -> (r: String)
        ensures
            r@ == self.shown(domain@, lang),
    {
        match self {
            AcmeFailure::InvalidDomain => DomainError::Invalid.message(domain, lang),
            AcmeFailure::IpAddress => DomainError::IpAddress.message(domain, lang),
            AcmeFailure::Outside => tr(lang, "falha na comunicação ACME", "ACME exchange failed").to_string(),
            AcmeFailure::UnexpectedAuthorization => tr(
                lang,
                "autorização em estado inesperado",
                "authorization in an unexpected state",
            ).to_string(),
            AcmeFailure::NoHttp01 => tr(
                lang,
                "a CA não ofereceu desafio HTTP-01",
                "the CA offered no HTTP-01 challenge",
            ).to_string(),
            AcmeFailure::ValidationFailed => {
                let mut out: Vec<char> = Vec::new();
                push_str(
                    &mut out,
                    tr(lang, "validação falhou. Causas comuns: o DNS de ", "validation failed: does the DNS of "),
                );
                push_str(&mut out, domain);
                push_str(
                    &mut out,
                    tr(
                        lang,
                        " não aponta para o IP público desta máquina, ou a porta 80 não está encaminhada/aberta até aqui.",
                        " point to this machine's public IP, and is port 80 forwarded to it?",
                    ),
                );
                string_of(out.as_slice())
            },
        }
    }
}

} // verus!
