use fzcomputerai::acme::{acme_start, acme_step, AcmeAction, AcmeFailure, AcmeInput, AcmeState, AuthzStatus, OrderStatus};
use fzcomputerai::daemon::{daemon_start, daemon_step, DaemonAction, DaemonEvent};
use fzcomputerai::mcp_tools::{
    mcp_tool_catalog, runs_without_params, tool_call_message, tool_launch_failed_message, tool_matches,
    tool_needs_params_message,
};
use fzcomputerai::oauth::OAuthServer;
use fzcomputerai::portproxy::{
    forwarding_exists, portproxy_badge, portproxy_start, portproxy_step, PortproxyAction, PortproxyBadge,
    PortproxyEvent, PortproxyState,
};
use fzcomputerai::self_signed::{self_signed_params, CaMark, ExtendedKeyUse, KeyUse, SELF_SIGNED_COMMON_NAME};
use fzcomputerai::tls::{fingerprint, DomainError};
use fzcomputerai::tunnel::{creation_date_script, orphan_kill_script, tracked_tunnels, Language};

#[test]
fn catalog_has_38_tools_in_8_categories() {
    let c = mcp_tool_catalog();
    assert_eq!(c.len(), 8);
    assert_eq!(c.iter().map(|k| k.tools.len()).sum::<usize>(), 38);
    assert_eq!(c[0].name_en, "Vision & Screenshot");
    assert_eq!(c[0].tools[0].name, "screenshot");
    assert_eq!(c[7].tools[5].name, "check_for_update");
    assert_eq!(c[1].rgb, (76, 175, 80));
}

#[test]
fn tool_filter_matches_name_or_description() {
    assert!(tool_matches("", "click", "Clique", "Click"));
    assert!(tool_matches("CLI", "click", "x", "y"));
    assert!(tool_matches("tela", "screenshot", "Captura imagem base64 da TELA", "Capture"));
    assert!(tool_matches("screen", "x", "a", "Capture base64 Screen image"));
    assert!(!tool_matches("zzz", "click", "Clique", "Click"));
    // The name is not lower-cased, only the filter.
    assert!(!tool_matches("x", "X", "a", "b"));
}

#[test]
fn parameterless_tools_and_their_messages() {
    assert!(runs_without_params("screenshot"));
    assert!(runs_without_params("get_recording"));
    assert!(!runs_without_params("click"));
    assert_eq!(tool_call_message("list_apps", "  a\nb \n", "err", Some(0)), "[list_apps] OK:\na\nb");
    assert_eq!(tool_call_message("t", "", " boom ", Some(2)), "[t] stderr:\nboom");
    assert_eq!(tool_call_message("t", " ", "", Some(-1)), "[t]: exit Some(-1) (sem saida)");
    assert_eq!(tool_call_message("t", "", "", None), "[t]: exit None (sem saida)");
    assert_eq!(
        tool_launch_failed_message("screenshot"),
        "ERRO: nao foi possivel executar 'cua-driver call screenshot' (esta no PATH?)."
    );
    assert_eq!(
        tool_needs_params_message("click", Language::English),
        "[click] This tool requires parameters. Use via MCP JSON-RPC or CLI:\n\ncua-driver call 'click' --help\n\nOr send via POST http://<ip>:8000/mcp with JSON-RPC."
    );
}

#[test]
fn portproxy_badge_has_three_states() {
    assert_eq!(portproxy_badge(true, true), PortproxyBadge::Working);
    assert_eq!(portproxy_badge(true, false), PortproxyBadge::NoEffect);
    assert_eq!(portproxy_badge(false, true), PortproxyBadge::NoRule);
    assert_eq!(PortproxyBadge::NoEffect.label(Language::PtBr), "REGRA SEM EFEITO");
    assert!(forwarding_exists(true, true, false));
    assert!(!forwarding_exists(false, true, true));
    assert!(forwarding_exists(false, false, true));
}

#[test]
fn portproxy_uses_netsh_only_when_the_bind_fails() {
    let (s, a) = portproxy_start();
    assert_eq!(a, PortproxyAction::BindLan);
    assert_eq!(portproxy_step(s, PortproxyEvent::LanBound { ok: true }), (PortproxyState::Done, PortproxyAction::LanForwarding));
    let (s, a) = portproxy_step(s, PortproxyEvent::LanBound { ok: false });
    assert_eq!(a, PortproxyAction::ConfirmPort);
    assert_eq!(
        portproxy_step(s, PortproxyEvent::ConfirmedPort { port: None }).1,
        PortproxyAction::NoConfirmedPort
    );
    let (s, a) = portproxy_step(s, PortproxyEvent::ConfirmedPort { port: Some(8000) });
    assert_eq!(a, PortproxyAction::ListRule);
    let (s2, a2) = portproxy_step(s, PortproxyEvent::RuleListed { present: false });
    assert_eq!(a2, PortproxyAction::CheckListener);
    assert_eq!(
        portproxy_step(s2, PortproxyEvent::ListenerSeen { present: true }).1,
        PortproxyAction::ListenerInTheWay
    );
    let (s3, a3) = portproxy_step(s2, PortproxyEvent::ListenerSeen { present: false });
    assert_eq!(a3, PortproxyAction::AddRule { connect: 8000 });
    let (s4, a4) = portproxy_step(s3, PortproxyEvent::Added { ok: false });
    assert_eq!(a4, PortproxyAction::AddElevated { connect: 8000 });
    let (s5, a5) = portproxy_step(s4, PortproxyEvent::Added { ok: false });
    assert_eq!(a5, PortproxyAction::ListRule);
    assert_eq!(portproxy_step(s5, PortproxyEvent::RuleListed { present: false }).1, PortproxyAction::NotApplied);
    assert_eq!(
        portproxy_step(s5, PortproxyEvent::RuleListed { present: true }).1,
        PortproxyAction::RecordRule { connect: 8000 }
    );
    // A rule already there is only confirmed.
    let (s6, a6) = portproxy_step(s, PortproxyEvent::RuleListed { present: true });
    assert_eq!((s6, a6), (PortproxyState::Verifying { connect: 8000 }, PortproxyAction::ListRule));
}

#[test]
fn acme_refuses_ip_and_bad_domains_first() {
    assert_eq!(acme_start("192.168.0.10", true).1, AcmeAction::Fail(AcmeFailure::IpAddress));
    assert_eq!(acme_start("", false).1, AcmeAction::Fail(AcmeFailure::InvalidDomain));
    assert_eq!(acme_start("a/b", false).1, AcmeAction::Fail(AcmeFailure::InvalidDomain));
    assert_eq!(acme_start("fz.example.com", false), (AcmeState::Account, AcmeAction::OpenAccount));
    assert!(AcmeFailure::IpAddress.message("192.168.0.10", Language::PtBr).contains("endereço IP"));
    assert_eq!(DomainError::Invalid.message(" a b ", Language::PtBr), "domínio inválido: ' a b '");
}

#[test]
fn acme_issues_after_validation() {
    let (s, _) = acme_start("fz.example.com", false);
    let (s, a) = acme_step(s, AcmeInput::AccountReady { ok: true });
    assert_eq!(a, AcmeAction::CreateOrder);
    let (s, a) = acme_step(s, AcmeInput::OrderCreated { ok: true });
    assert_eq!(a, AcmeAction::NextAuthorization);
    let (s, a) = acme_step(s, AcmeInput::Authorization { status: AuthzStatus::Pending, http01: true });
    assert_eq!(a, AcmeAction::ServeChallenge { start_responder: true });
    let (s, a) = acme_step(s, AcmeInput::ChallengeServed { ok: true });
    assert_eq!(a, AcmeAction::NextAuthorization);
    let (s2, a2) = acme_step(s, AcmeInput::Authorization { status: AuthzStatus::Pending, http01: true });
    assert_eq!(a2, AcmeAction::ServeChallenge { start_responder: false });
    let _ = s2;
    assert_eq!(
        acme_step(s, AcmeInput::Authorization { status: AuthzStatus::Pending, http01: false }).1,
        AcmeAction::Fail(AcmeFailure::NoHttp01)
    );
    assert_eq!(
        acme_step(s, AcmeInput::Authorization { status: AuthzStatus::Other, http01: true }).1,
        AcmeAction::Fail(AcmeFailure::UnexpectedAuthorization)
    );
    let (s, a) = acme_step(s, AcmeInput::NoMoreAuthorizations);
    assert_eq!(a, AcmeAction::PollOrder);
    assert_eq!(
        acme_step(s, AcmeInput::OrderPolled { ok: true, status: OrderStatus::Other }).1,
        AcmeAction::Fail(AcmeFailure::ValidationFailed)
    );
    let (s, a) = acme_step(s, AcmeInput::OrderPolled { ok: true, status: OrderStatus::Ready });
    assert_eq!(a, AcmeAction::Finalize);
    let (s, a) = acme_step(s, AcmeInput::Finalized { ok: true });
    assert_eq!(a, AcmeAction::FetchCertificate);
    let (s, a) = acme_step(s, AcmeInput::CertificateFetched { ok: true });
    assert_eq!(a, AcmeAction::BackUpAndSave);
    let (s, a) = acme_step(s, AcmeInput::Saved { ok: true });
    assert_eq!((s, a), (AcmeState::Done, AcmeAction::Finish));
}

#[test]
fn running_engine_message_in_both_languages() {
    let (_, a) = daemon_step(daemon_start(), DaemonEvent::Probed { active: true });
    assert_eq!(a.message(Language::PtBr), Some("O motor ja esta em execucao — endpoint respondendo."));
    assert_eq!(a.message(Language::English), Some("The engine is already running — endpoint responding."));
    assert_eq!(DaemonAction::StopOld.message(Language::English), None);
}

#[test]
fn self_signed_parameters_are_fixed() {
    let p = self_signed_params(&vec!["localhost".to_string()], 10, 20);
    assert_eq!(p.sans, vec!["localhost".to_string()]);
    assert_eq!((p.not_before, p.not_after), (10, 20));
    assert_eq!(p.common_name, SELF_SIGNED_COMMON_NAME);
    assert_eq!(p.organization, "FzComputerAI (self-signed, local TLS)");
    assert_eq!(p.ca, CaMark::NotCa);
    assert_eq!(p.key_usages, vec![KeyUse::DigitalSignature, KeyUse::KeyEncipherment]);
    assert_eq!(p.ext_key_usages, vec![ExtendedKeyUse::ServerAuth]);
}

#[test]
fn password_set_means_has_password_and_fingerprint_is_95() {
    let mut srv = OAuthServer::new();
    assert!(!srv.has_password());
    srv.set_password("  segredo-forte ");
    assert!(srv.has_password());
    assert_eq!(fingerprint(b"abc").len(), 95);
}

#[test]
fn orphan_tunnel_is_stopped_only_when_provably_ours() {
    let text = "HKEY_CURRENT_USER\\Software\\FzComputerAI\r\n    tunnel:cloudflare:4242    REG_SZ    cloudflared.exe|20240101120000|8000|abc123|direct\r\n";
    let t = tracked_tunnels(text);
    assert_eq!(t.len(), 1);
    assert_eq!(t[0].pid, 4242);
    let s = orphan_kill_script(&t[0]);
    assert!(s.starts_with("$ErrorActionPreference='SilentlyContinue'; $tp=4242; "));
    assert!(s.contains("$p.Name -eq 'cloudflared.exe'"));
    assert!(s.contains("-eq '20240101120000')"));
    assert!(s.contains("'abc123' -ne '' -and $p.CommandLine -like ('*abc123*')"));
    assert!(s.ends_with("{ Stop-Process -Id $tp -Force; Write-Output 'KILLED' } else { Write-Output 'SKIP' }"));
    assert_eq!(
        creation_date_script(7),
        "$p = Get-CimInstance Win32_Process -Filter \"ProcessId=7\"; if ($p) { $p.CreationDate.ToString('yyyyMMddHHmmss') }"
    );
}
