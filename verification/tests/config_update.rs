use fzcomputerai::config::{ini_get, ini_set, reg_token, reg_user_env, reg_value};
use fzcomputerai::update::{
    check_release, driver_info, installer_command, log_append, ps_quote, version_newer, ReleaseCheck, LOG_MAX,
};

#[test]
fn ini_value_is_read() {
    let text = "# comment\r\n; other = 1\r\n  lang = en  \r\nport=8000\r\nlang=pt\r\n";
    assert_eq!(ini_get(text, "lang"), Some("en".to_string()));
    assert_eq!(ini_get(text, "port"), Some("8000".to_string()));
    assert_eq!(ini_get(text, "other"), None);
    assert_eq!(ini_get(text, "missing"), None);
    assert_eq!(ini_get("", "lang"), None);
}

#[test]
fn ini_value_is_written() {
    assert_eq!(ini_set("", "lang", "en"), "# FzComputerAI - preferencias do MODO PORTATIL\r\nlang=en\r\n");
    assert_eq!(ini_set("a=1\nlang = pt\n", "lang", "en"), "a=1\r\nlang=en\r\n");
    assert_eq!(ini_set("a=1", "b", "2"), "a=1\r\nb=2\r\n");
    let t = ini_set("# x\r\nport=1\r\n", "port", "8443");
    assert_eq!(ini_get(&t, "port"), Some("8443".to_string()));
    let t = ini_set(&t, "lang", "en");
    assert_eq!(ini_get(&t, "lang"), Some("en".to_string()));
    assert_eq!(ini_get(&t, "port"), Some("8443".to_string()));
}

#[test]
fn registry_values_are_read() {
    let text = "\r\nHKEY_CURRENT_USER\\Environment\r\n    CUA_DRIVER_RS_MCP_HTTP_TOKEN    REG_SZ    \r\n    CUA_DRIVER_RS_MCP_HTTP_TOKEN    REG_SZ    abc123  \r\n";
    assert_eq!(reg_value(text, "CUA_DRIVER_RS_MCP_HTTP_TOKEN"), Some("".to_string()));
    assert_eq!(reg_token(text, "CUA_DRIVER_RS_MCP_HTTP_TOKEN"), Some("abc123".to_string()));
    assert_eq!(reg_value(text, "OTHER"), None);
    assert_eq!(reg_token("", "X"), None);
    assert_eq!(reg_user_env(text, "CUA_DRIVER_RS_MCP_HTTP_TOKEN"), Some("abc123".to_string()));
    let two = "    P    REG_SZ    8001\r\n    P    REG_SZ    8002\r\n";
    assert_eq!(reg_user_env(two, "P"), Some("8001".to_string()));
    assert_eq!(reg_token(two, "P"), Some("8002".to_string()));
}

#[test]
fn versions_compare_by_segment() {
    assert!(version_newer("0.16.1", "0.16.0"));
    assert!(version_newer("1.0", "0.99.99"));
    assert!(version_newer("0.10.0", "0.9.9"));
    assert!(!version_newer("0.16.0", "0.16.0"));
    assert!(!version_newer("0.15.9", "0.16.0"));
    assert!(version_newer("2.0.0-beta", "1.9.9"));
    assert!(!version_newer("abc", "0.0.0"));
}

#[test]
fn release_check_never_downgrades() {
    assert_eq!(check_release("v0.17.0", "0.16.2"), ReleaseCheck::Newer);
    assert_eq!(check_release("v0.16.2", "0.16.2"), ReleaseCheck::UpToDate);
    assert_eq!(check_release("v0.15.0", "0.16.2"), ReleaseCheck::Older);
    assert_eq!(check_release("", "0.16.2"), ReleaseCheck::UpToDate);
}

#[test]
fn engine_report_is_read() {
    let d = driver_info(" {\"current_version\":\"0.16.0\",\"latest_version\":\"0.17.0\",\"update_available\":true,\"release_notes_url\":\"https://x\"} ")
        .unwrap();
    assert_eq!(d.current_version, "0.16.0");
    assert_eq!(d.latest_version, "0.17.0");
    assert!(d.update_available);
    assert_eq!(d.release_notes_url, "https://x");
    assert!(d.error.is_none());
    let d = driver_info("{\"error\":\"offline\"}").unwrap();
    assert_eq!(d.error, Some("offline".to_string()));
    assert!(!d.update_available);
    assert!(driver_info("not json").is_none());
}

#[test]
fn installer_command_forms() {
    assert_eq!(ps_quote("C:\\it's"), "C:\\it''s");
    assert_eq!(
        installer_command(true, "0.16.2", Some("C:\\app's\\install.ps1")),
        "& 'C:\\app''s\\install.ps1' -Release 0.16.2 -NoAutoStart"
    );
    assert_eq!(
        installer_command(false, "", None),
        "& { try { $s = Join-Path $env:TEMP 'cua-driver-install.ps1'; irm https://cua.ai/driver/install.ps1 -OutFile $s; & $s } catch { throw } }"
    );
    assert_eq!(
        installer_command(true, "1.0;rm", Some("p.ps1")),
        "& { try { $s = Join-Path $env:TEMP 'cua-driver-install.ps1'; irm https://cua.ai/driver/install.ps1 -OutFile $s; & $s -NoAutoStart } catch { & 'p.ps1' -NoAutoStart } }"
    );
}

#[test]
fn console_keeps_last_bytes() {
    let mut log = String::new();
    log_append(&mut log, "  first  ");
    assert_eq!(log, "first");
    log_append(&mut log, "   ");
    assert_eq!(log, "first");
    log_append(&mut log, "second");
    assert_eq!(log, "first\n\nsecond");
    let big = "é".repeat(LOG_MAX);
    log_append(&mut log, &big);
    assert!(log.len() <= LOG_MAX);
    assert!(log.len() >= LOG_MAX - 1);
    assert!(log.chars().all(|c| c == 'é'));
}
