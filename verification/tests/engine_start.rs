use fzcomputerai::daemon::{daemon_start, daemon_step, DaemonAction, DaemonEvent, DaemonState};
use fzcomputerai::form::{url_decode, url_encode};
use fzcomputerai::gui_update::gui_update_script;
use fzcomputerai::network::endpoint_active;
use fzcomputerai::self_signed::{self_signed_needed, self_signed_now, self_signed_window};
use fzcomputerai::tls::{inspect_cert_pem, DateTimeParts, SELF_SIGNED_DAYS};
use fzcomputerai::tunnel::{tunnel_precheck, Language, TunnelProvider, TunnelRefusal, TunnelSetupError, TunnelStatus};

#[test]
fn start_leaves_an_answering_engine_alone() {
    let (s, a) = daemon_step(daemon_start(), DaemonEvent::Probed { active: true });
    assert_eq!(s, DaemonState::Running);
    assert_eq!(a, DaemonAction::LeaveRunning);
    for e in [
        DaemonEvent::Probed { active: false },
        DaemonEvent::OldProcess { alive: true },
        DaemonEvent::Spawned { ok: true },
    ] {
        let (s2, a2) = daemon_step(s, e);
        assert_eq!(s2, DaemonState::Running);
        assert_eq!(a2, DaemonAction::Up);
    }
}

#[test]
fn start_stops_waits_spawns_and_retries() {
    let (mut s, a) = daemon_step(daemon_start(), DaemonEvent::Probed { active: false });
    assert_eq!(a, DaemonAction::StopOld);
    // The old process stays alive for all twenty looks.
    for n in 1..20 {
        let (s2, a2) = daemon_step(s, DaemonEvent::OldProcess { alive: true });
        assert_eq!(a2, DaemonAction::WaitOld { ms: 300 }, "look {n}");
        s = s2;
    }
    let (s2, a2) = daemon_step(s, DaemonEvent::OldProcess { alive: true });
    assert_eq!(a2, DaemonAction::Spawn { attempt: 1, after_ms: 900 });
    s = s2;
    for attempt in 1u8..=3 {
        let (s2, a2) = daemon_step(s, DaemonEvent::Spawned { ok: true });
        assert_eq!(a2, DaemonAction::Probe { after_ms: 400 });
        s = s2;
        for _ in 0..9 {
            let (s2, a2) = daemon_step(s, DaemonEvent::Probed { active: false });
            assert_eq!(a2, DaemonAction::Probe { after_ms: 400 });
            s = s2;
        }
        let (s2, a2) = daemon_step(s, DaemonEvent::Probed { active: false });
        if attempt < 3 {
            assert_eq!(
                a2,
                DaemonAction::StopAndRespawn { attempt: attempt + 1, after_ms: attempt as u64 * 3000 }
            );
        } else {
            assert_eq!(a2, DaemonAction::Kick { probe_after_ms: 400 });
        }
        s = s2;
    }
    for _ in 0..5 {
        let (s2, a2) = daemon_step(s, DaemonEvent::Probed { active: false });
        assert_eq!(a2, DaemonAction::Probe { after_ms: 400 });
        s = s2;
    }
    let (s2, a2) = daemon_step(s, DaemonEvent::Probed { active: false });
    assert_eq!(s2, DaemonState::Failed);
    assert_eq!(a2, DaemonAction::GiveUp);
}

#[test]
fn start_succeeds_when_the_port_opens() {
    let (s, _) = daemon_step(daemon_start(), DaemonEvent::Probed { active: false });
    let (s, a) = daemon_step(s, DaemonEvent::OldProcess { alive: false });
    assert_eq!(a, DaemonAction::Spawn { attempt: 1, after_ms: 600 });
    let (s, _) = daemon_step(s, DaemonEvent::Spawned { ok: true });
    let (s, a) = daemon_step(s, DaemonEvent::Probed { active: true });
    assert_eq!(s, DaemonState::Running);
    assert_eq!(a, DaemonAction::Up);
}

#[test]
fn failed_launch_falls_back_to_the_scheduled_task() {
    let (s, _) = daemon_step(daemon_start(), DaemonEvent::Probed { active: false });
    let (s, _) = daemon_step(s, DaemonEvent::OldProcess { alive: false });
    let (s, a) = daemon_step(s, DaemonEvent::Spawned { ok: false });
    assert_eq!(s, DaemonState::Kicking { polls: 0 });
    assert_eq!(a, DaemonAction::Kick { probe_after_ms: 400 });
}

#[test]
fn endpoint_counts_as_active_when_either_probe_answers() {
    assert!(endpoint_active(true, false));
    assert!(endpoint_active(false, true));
    assert!(endpoint_active(true, true));
    assert!(!endpoint_active(false, false));
}

#[test]
fn update_script_checks_the_hash_before_the_ready_flag() {
    let s = gui_update_script(r"C:\Temp\it's", "v1.2.3");
    assert!(s.starts_with("$ErrorActionPreference='Stop'; $d = 'C:\\Temp\\it''s'; "));
    assert!(s.contains(
        "Invoke-WebRequest -Uri 'https://github.com/RLuf/fzcomputerai/releases/download/v1.2.3/fzcomputerai-setup-windows-x64.exe' -OutFile $t -UseBasicParsing; "
    ));
    let check = s.find("if ($expected -ne $actual) { throw").unwrap();
    let ready = s.find("New-Item -ItemType File -Force -Path (Join-Path $d 'ready.flag') | Out-Null").unwrap();
    assert!(check < ready);
    assert_eq!(s.matches("New-Item -ItemType File").count(), 1);
    assert!(s.ends_with(
        " } catch { Set-Content -Path (Join-Path $d 'error.flag') -Value $_.Exception.Message; Remove-Item $t -Force -ErrorAction SilentlyContinue }"
    ));
    assert!(s.contains("-split '\\s+')[0].ToLower(); "));
}

#[test]
fn self_signed_window_is_an_hour_back_and_825_days_on() {
    assert_eq!(self_signed_window(1_700_000_000), Some((1_700_000_000 - 3600, 1_700_000_000 + 825 * 86400)));
    assert_eq!(SELF_SIGNED_DAYS, 825);
    assert_eq!(self_signed_window(i64::MAX), None);
    assert_eq!(self_signed_window(i64::MIN), None);
}

#[test]
fn self_signed_certificate_reads_back_with_its_names() {
    let sans = vec!["localhost".to_string(), "127.0.0.1".to_string(), "meupc".to_string()];
    let now = 1_700_000_000;
    let made = self_signed_now(&sans, now).unwrap();
    assert!(made.reads_back);
    assert!(made.key_pem.contains("PRIVATE KEY"));
    let at = DateTimeParts { unix: now, nanos: 0, year: 2023, month: 11, day: 14, hour: 22, minute: 13 };
    let info = inspect_cert_pem(made.cert_pem.as_bytes(), &at).unwrap();
    assert_eq!(info.sans, sans);
    assert!(info.self_signed);
    assert_eq!(info.days_left, 825);
    assert!(info.subject.contains("FzComputerAI MCP endpoint"));
}

#[test]
fn self_signed_is_renewed_only_when_needed() {
    let have = vec!["LocalHost".to_string(), "127.0.0.1".to_string()];
    let wanted = vec!["localhost".to_string()];
    assert!(!self_signed_needed(false, Some((&have, false)), &wanted));
    assert!(self_signed_needed(true, Some((&have, false)), &wanted));
    assert!(self_signed_needed(false, Some((&have, true)), &wanted));
    assert!(self_signed_needed(false, None, &wanted));
    assert!(self_signed_needed(false, Some((&have, false)), &vec!["192.168.0.9".to_string()]));
}

#[test]
fn url_decode_gives_back_any_encoded_text() {
    for s in ["", "a b&c=d+e", "ação", "100% 😀", "https://x.example/cb?a=1"] {
        assert_eq!(url_decode(&url_encode(s)), s);
    }
}

#[test]
fn setup_error_messages_in_both_languages() {
    assert_eq!(
        TunnelSetupError::SshMissing.message(Language::English),
        "ssh not found (Windows OpenSSH Client)."
    );
    assert_eq!(
        TunnelSetupError::SshMissing.message(Language::PtBr),
        "ssh nao encontrado (Cliente OpenSSH do Windows)."
    );
}

#[test]
fn tunnel_prechecks_refuse_in_order() {
    assert_eq!(
        tunnel_precheck(TunnelStatus::Running, Some(8000), TunnelProvider::Ssh, "", false, "", true),
        Err(TunnelRefusal::AlreadyActive)
    );
    assert_eq!(
        tunnel_precheck(TunnelStatus::Starting, None, TunnelProvider::Ssh, "", false, "", true),
        Err(TunnelRefusal::AlreadyActive)
    );
    assert_eq!(
        tunnel_precheck(TunnelStatus::Stopped, None, TunnelProvider::Ssh, "", false, "", true),
        Err(TunnelRefusal::EngineNotAnswering)
    );
    assert_eq!(
        tunnel_precheck(TunnelStatus::Error, Some(8000), TunnelProvider::Cloudflare, "  ", true, "", true),
        Err(TunnelRefusal::CloudflareConfigPresent)
    );
    assert_eq!(tunnel_precheck(TunnelStatus::Stopped, Some(8000), TunnelProvider::Cloudflare, "t.json", true, "", true), Ok(8000));
    assert_eq!(
        tunnel_precheck(TunnelStatus::Stopped, Some(8001), TunnelProvider::Ngrok, "", true, "ngrok.exe", false),
        Err(TunnelRefusal::NgrokNoAuthtoken)
    );
    assert_eq!(tunnel_precheck(TunnelStatus::Stopped, Some(8001), TunnelProvider::Ngrok, "", true, "", false), Ok(8001));
    assert_eq!(
        TunnelRefusal::EngineNotAnswering.message(Language::English),
        "The local MCP did not answer on 127.0.0.1. Start the engine in the MCP & Network tab before opening the tunnel."
    );
}
