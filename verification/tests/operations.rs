use one_router::adapter::http::{
    build_checked_request, build_request, keeps_header, refresh_credentials, response_mode, translate_answer_bytes,
    ResponseMode, ANTHROPIC_VERSION,
};
use one_router::adapter::upstream_url::{
    bare_host_of, derive_models_url, is_private_host, parse_upstream_url,
    validate_upstream_url, HostAddr, MAX_URL_BYTES,
};
use one_router::admin::access::{bearer_ok, let_in, proxy_allowed, Admission};
use one_router::admin::login::{
    changed_password, judge_attempt, login, login_reply, AdminUser, LoginVerdict,
};
use one_router::admin::password::{hash_password, verify_password};
use one_router::admin::rate_limit::{
    cooldown_for, is_locked_out, record_failure, record_success, LoginAttempts, MAX_LOCKOUT,
};
use one_router::admin::session::{
    build_clear_cookie, build_set_cookie, cookie_name, extract_cookie, hash_token, is_https,
    is_valid, new_session, renewed_expiry, set_cookie_at, SessionRow, ABSOLUTE_LIFETIME,
    SESSION_TTL,
};
use one_router::admin::settings::{
    changed_secret, mask_secret, may_change_auth_mode, shared_secret_response,
};
use one_router::admin::transfer::{export, imported_body};
use one_router::codex::refresh::refresh_due;
use one_router::commandcode::browser_login::{AuthCallback, LoginError};
use one_router::config::{
    auth_mode_parts, bool_text, choose_secret, generate_secret, number_setting, resolve_auth_mode,
    settings_from, sqlite_path_setting, RawSettings,
    secret_file_path, stored_bool, AuthModeOrigin, AuthModeSource, SecretError, SecretOrigin,
    SecretSource, Sidecar,
};
use one_router::error::{AppError, RefreshError};
use one_router::json::{parse_json, parse_json_bytes, Json};
use one_router::logging::{redact, sanitize_path_component, Tee};
use one_router::model::{
    ConfigSnapshot, Credentials, PoolMember, PoolStrategy, PoolWithMembers, Provider, ProviderKind,
    WireFormat,
};
use one_router::onboarding::{
    access_change, build_oauth_row, build_passthrough_row, candidate_models, format_menu_header,
    free_first, key_or_default, known_free_model_ids, mask_secret_for_cli, member_for, model_after_probe, next_priority,
    open_access_confirmed, parse_code_and_state, pool_for, provider_templates,
    replacement_candidates, runs_wizard, slugify, unique_default_name, AccessChange, ProbeOutcome,
    ProbeRun, ProbeStep, CANDIDATE_MODELS, PENDING_MODEL, CheckAction, CheckEvent, CheckStage,
    KeyStep, ModelCheck, key_after_login,
};
use one_router::providers::{
    already_exists, apply_patch, credential_configured, format_to_check, key_to_store, login_status_body, mask,
    model_to_probe, models_failure, models_from, models_list, models_query, parse_models_body, probe_body, probe_report,
    require_kind, state_body, LoginStatus, Probe, ProviderPatch,
};
use one_router::runtime::ProviderRuntimeState;
use one_router::stats::overall;
use serde_json::Value;
use sha2::{Digest, Sha256};

fn j(text: &str) -> Json {
    Json::from_value(serde_json::from_str(text).unwrap())
}

fn val(text: &str) -> Value {
    serde_json::from_str(text).unwrap()
}

const HOUR: i64 = 3_600_000_000;

// ---- passwords and attempts ----------------------------------------------

#[test]
fn hash_and_verify_round_trip() {
    let hash = hash_password("correct horse").unwrap();
    assert!(verify_password(&hash, "correct horse"));
}

#[test]
fn verify_rejects_wrong_password() {
    let hash = hash_password("correct horse").unwrap();
    assert!(!verify_password(&hash, "wrong"));
}

#[test]
fn hash_is_randomized_per_call() {
    let first = hash_password("correct horse").unwrap();
    let second = hash_password("correct horse").unwrap();
    assert_ne!(first, second);
}

#[test]
fn verify_rejects_malformed_hash_string_without_panicking() {
    assert!(!verify_password("not-a-real-hash", "x"));
}

#[test]
fn is_locked_out_false_before_threshold() {
    let mut map = LoginAttempts::new();
    let now = 5_000;
    for _ in 0..4 {
        record_failure(&mut map, "127.0.0.1", now);
    }
    assert!(!is_locked_out(&map, "127.0.0.1", now));
    assert_eq!(map.get("127.0.0.1").unwrap().failures, 4);
}

#[test]
fn is_locked_out_true_once_threshold_exceeded() {
    let mut map = LoginAttempts::new();
    let now = 5_000;
    for _ in 0..6 {
        record_failure(&mut map, "127.0.0.1", now);
    }
    assert!(is_locked_out(&map, "127.0.0.1", now));
}

#[test]
fn lockout_duration_escalates_and_caps_at_five_minutes() {
    assert_eq!(cooldown_for(1), 2);
    assert_eq!(cooldown_for(2), 4);
    assert_eq!(cooldown_for(3), 8);
    assert_eq!(cooldown_for(99), MAX_LOCKOUT);
    assert_eq!(MAX_LOCKOUT, 300);
}

#[test]
fn record_success_resets_failures_and_clears_lockout() {
    let mut map = LoginAttempts::new();
    let now = 5_000;
    for _ in 0..6 {
        record_failure(&mut map, "127.0.0.1", now);
    }
    assert!(is_locked_out(&map, "127.0.0.1", now));

    record_success(&mut map, "127.0.0.1");

    let state = map.get("127.0.0.1").unwrap();
    assert_eq!(state.failures, 0);
    assert!(state.locked_until.is_none());
}

#[test]
fn different_ips_tracked_independently() {
    let mut map = LoginAttempts::new();
    let now = 5_000;
    for _ in 0..6 {
        record_failure(&mut map, "127.0.0.1", now);
    }
    assert!(is_locked_out(&map, "127.0.0.1", now));
    assert!(!is_locked_out(&map, "127.0.0.2", now));
}

#[test]
fn the_fifth_failure_starts_a_lockout() {
    let mut map = LoginAttempts::new();
    for n in 1..=5 {
        record_failure(&mut map, "ip", 0);
        assert_eq!(is_locked_out(&map, "ip", 0), n >= 5);
    }
    assert_eq!(map.get("ip").unwrap().locked_until, Some(2_000));
    assert!(!is_locked_out(&map, "ip", 2_000));
}

#[test]
fn a_lockout_counts_from_the_last_failure() {
    let mut map = LoginAttempts::new();
    for now in [0, 7_000, 7_500, 100_000] {
        record_failure(&mut map, "ip", now);
        assert!(!is_locked_out(&map, "ip", now));
    }
    record_failure(&mut map, "ip", 3_600_000);
    assert!(is_locked_out(&map, "ip", 3_601_999));
    assert!(!is_locked_out(&map, "ip", 3_602_000));
}

#[test]
fn one_template_needs_no_secret() {
    assert_eq!(known_free_model_ids(), vec!["deepseek-v4-flash-free"]);
    let templates = provider_templates("m");
    assert_eq!((templates[1].label, templates[1].upstream_model), ("Anthropic", "m"));
    assert_eq!(templates.len(), 8);
}

fn admin() -> Option<AdminUser> {
    Some(AdminUser { username: "root".into(), password_hash: hash_password("pw").unwrap() })
}

#[test]
fn logins_are_judged_and_counted() {
    let mut map = LoginAttempts::new();
    let user = admin();
    assert_eq!(login(&mut map, "ip", &user, "root", "pw", 0), LoginVerdict::Welcome);
    assert_eq!(login(&mut map, "ip", &user, "root", "px", 0), LoginVerdict::Rejected);
    assert_eq!(login(&mut map, "ip", &user, "toor", "pw", 0), LoginVerdict::Rejected);
    assert_eq!(login(&mut map, "ip", &None, "root", "pw", 0), LoginVerdict::Rejected);
    assert_eq!(map.get("ip").unwrap().failures, 3);
    for _ in 0..2 {
        judge_attempt(&mut map, "ip", false, 0);
    }
    assert_eq!(judge_attempt(&mut map, "ip", true, 0), LoginVerdict::LockedOut);
    assert_eq!(login_reply(LoginVerdict::LockedOut).0, 429);
    assert_eq!(login_reply(LoginVerdict::Rejected).0, 401);
    assert_eq!(login_reply(LoginVerdict::Welcome).0, 200);
}

#[test]
fn password_changes_need_the_old_one_and_a_new_one() {
    let user = admin();
    let hash = changed_password(&user, "pw", "long enough").unwrap();
    assert!(verify_password(&hash, "long enough"));
    assert!(matches!(
        changed_password(&user, "no", "long enough"),
        Err(AppError::Unauthorized)
    ));
    assert!(matches!(changed_password(&user, "pw", "  "), Err(AppError::BadRequest(_))));
    assert!(changed_password(&None, "pw", "long enough").is_err());
}

// ---- sessions ------------------------------------------------------------

#[test]
fn cookie_uses_host_prefix_and_secure_only_when_forwarded_proto_is_https() {
    let expires = chrono::Utc::now().timestamp_micros() + HOUR;

    assert!(is_https(Some("https")));
    assert!(!is_https(None));
    assert_eq!(cookie_name(true), "__Host-admin_session");
    assert_eq!(cookie_name(false), "admin_session");

    let secure = build_set_cookie("tok123", expires, true);
    assert!(secure.starts_with("__Host-admin_session=tok123"));
    assert!(secure.contains("; Secure"));

    let insecure = build_set_cookie("tok123", expires, false);
    assert!(insecure.starts_with("admin_session=tok123"));
    assert!(!insecure.contains("; Secure"));
}

#[test]
fn extract_cookie_parses_named_cookie_out_of_multiple() {
    let header = "foo=bar; admin_session=tok123; theme=dark";
    assert_eq!(extract_cookie(Some(header), false).as_deref(), Some("tok123"));
    assert_eq!(extract_cookie(Some(header), true), None);
    assert_eq!(extract_cookie(None, false), None);
}

#[test]
fn a_cookie_gives_back_its_token() {
    let cookie = set_cookie_at("tok", 5 * HOUR, 2 * HOUR, false);
    assert!(cookie.contains("Max-Age=10800"));
    assert!(cookie.contains("HttpOnly"));
    let pair = cookie.split(';').next().unwrap();
    assert_eq!(extract_cookie(Some(pair), false).as_deref(), Some("tok"));
    assert!(set_cookie_at("tok", HOUR, 2 * HOUR, false).contains("Max-Age=0"));
    assert!(build_clear_cookie(true).contains("Max-Age=0"));
}

#[test]
fn create_session_issues_lookupable_token() {
    let made = new_session(HOUR);
    assert_eq!(made.raw_token.len(), 64);
    assert_eq!(made.row.expires_at, HOUR + SESSION_TTL);
    let digest: String = Sha256::digest(made.raw_token.as_bytes())
        .iter()
        .map(|b| format!("{b:02x}"))
        .collect();
    assert_eq!(made.row.token_hash, digest);
    assert_eq!(hash_token(&made.raw_token), digest);
    assert!(is_valid(&made.row, HOUR));
    assert!(!is_valid(&made.row, HOUR + SESSION_TTL));
    assert_ne!(new_session(HOUR).raw_token, made.raw_token);
}

#[test]
fn sessions_are_renewed_within_their_lifetime() {
    let now = 1000 * HOUR;
    assert_eq!(renewed_expiry(now, now, now + 23 * HOUR), None);
    assert_eq!(
        renewed_expiry(now, now - 20 * HOUR, now + HOUR),
        Some(now + SESSION_TTL)
    );
    let created = now - 165 * HOUR;
    assert_eq!(
        renewed_expiry(now, created, now + HOUR / 60),
        Some(created + ABSOLUTE_LIFETIME)
    );
}

fn row(created_at: i64, expires_at: i64) -> Option<SessionRow> {
    Some(SessionRow { token_hash: "h".into(), created_at, expires_at })
}

#[test]
fn the_admin_interface_asks_for_a_session_or_the_secret() {
    let now = 1000 * HOUR;
    match let_in(row(now - 20 * HOUR, now + HOUR), None, "s", now) {
        Admission::Session { session, renewed } => {
            assert_eq!(session.token_hash, "h");
            assert_eq!(renewed, Some(now + SESSION_TTL));
        }
        _ => panic!("expected a session"),
    }
    assert!(matches!(
        let_in(row(now, now + 24 * HOUR), None, "s", now),
        Admission::Session { renewed: None, .. }
    ));
    assert!(matches!(let_in(row(now - HOUR, now), None, "s", now), Admission::Refused));
    assert!(matches!(
        let_in(row(now - HOUR, now), Some("Bearer s"), "s", now),
        Admission::Secret
    ));
    assert!(matches!(let_in(None, Some("Bearer t"), "s", now), Admission::Refused));
}

// ---- secrets -------------------------------------------------------------

#[test]
fn secret_file_path_handles_bare_relative_filename() {
    assert_eq!(secret_file_path("1router.db"), ".router_secret");
}

#[test]
fn secret_file_sits_next_to_the_database() {
    for path in ["/a/b/r.db", "sub/r.db", "/r.db", "r.db", "a/./r.db", "a//r.db", "/a/b/"] {
        let expected = match std::path::Path::new(path).parent() {
            Some(dir) if !dir.as_os_str().is_empty() => dir.join(".router_secret"),
            _ => std::path::PathBuf::from(".router_secret"),
        };
        assert_eq!(std::path::Path::new(&secret_file_path(path)), expected.as_path(), "{path}");
    }
}

#[test]
fn generated_secret_is_64_hex_chars_and_unique() {
    let a = generate_secret();
    let b = generate_secret();
    assert_eq!(a.len(), 64);
    assert!(a.chars().all(|c| c.is_ascii_hexdigit()));
    assert_ne!(a, b);
}

#[test]
fn secrets_come_from_the_environment_first() {
    assert!(matches!(
        choose_secret(Some("from-env".into()), Sidecar::Found("from-file".into())),
        Ok(SecretSource::Env(s)) if s == "from-env"
    ));
    assert!(matches!(
        choose_secret(None, Sidecar::Found("  from-file\n".into())),
        Ok(SecretSource::SidecarFile(s)) if s == "from-file"
    ));
    assert!(matches!(choose_secret(None, Sidecar::Missing), Ok(SecretSource::BootstrapNeeded)));
    assert!(matches!(
        choose_secret(None, Sidecar::Found(" \n".into())),
        Err(SecretError::EmptyFile)
    ));
    assert!(matches!(choose_secret(None, Sidecar::Unreadable), Err(SecretError::UnreadableFile)));
    assert_eq!(SecretSource::Env("x".into()).into_secret().as_deref(), Some("x"));
    assert_eq!(SecretSource::BootstrapNeeded.into_secret(), None);
    assert_eq!(
        SecretOrigin::from_source(&SecretSource::SidecarFile("x".into())),
        Some(SecretOrigin::SidecarFile)
    );
}

#[test]
fn auth_modes_are_settled_in_order() {
    let env = SecretSource::Env("x".into());
    assert_eq!(resolve_auth_mode(&env, Some(false), Some(true)), AuthModeSource::Env(false));
    let mode = resolve_auth_mode(&SecretSource::BootstrapNeeded, None, Some(true));
    assert_eq!(auth_mode_parts(mode), (true, AuthModeOrigin::Db));
    assert_eq!(stored_bool("true"), Some(true));
    assert_eq!(stored_bool("false"), Some(false));
    assert_eq!(stored_bool("maybe"), None);
    assert_eq!(bool_text(true), "true");
    assert_eq!(number_setting(Some("12"), 3), 12);
    assert_eq!(number_setting(Some("x"), 3), 3);
    assert_eq!(number_setting(None, 3), 3);
}

#[test]
fn masked_secrets_show_only_their_end() {
    assert!(mask_secret("sk-abcdefgh").ends_with("efgh"));
    assert!(!mask_secret("sk-abcdefgh").contains("abcd"));
    assert_eq!(mask_secret("sk-abcdefgh"), "***efgh");
    assert_eq!(mask_secret(""), "***");
    assert_eq!(mask_secret_for_cli("sk-abcdefgh"), mask_secret("sk-abcdefgh"));
    let shown = shared_secret_response("s3cret", true, SecretOrigin::Env);
    assert_eq!(shown.shared_secret, "s3cret");
    assert!(!shown.masked);
    let hidden = shared_secret_response("s3cret", false, SecretOrigin::Env);
    assert!(hidden.masked);
    assert_ne!(hidden.shared_secret, "s3cret");
}

#[test]
fn settings_of_the_environment_are_fixed() {
    assert!(changed_secret(SecretOrigin::Env, "new-secret").is_err());
    assert_eq!(changed_secret(SecretOrigin::SidecarFile, " new-secret ").unwrap(), "new-secret");
    assert!(changed_secret(SecretOrigin::SidecarFile, "  ").is_err());
    assert!(may_change_auth_mode(AuthModeOrigin::Env).is_err());
    assert!(may_change_auth_mode(AuthModeOrigin::Db).is_ok());
    assert!(may_change_auth_mode(AuthModeOrigin::Default).is_ok());
}

#[test]
fn bearer_tokens_must_match() {
    assert!(bearer_ok(Some("Bearer s"), "s"));
    assert!(!bearer_ok(Some("Bearer t"), "s"));
    assert!(!bearer_ok(Some("s"), "s"));
    assert!(!bearer_ok(None, "s"));
    assert!(proxy_allowed(false, None, "s"));
    assert!(!proxy_allowed(true, None, "s"));
    assert!(proxy_allowed(true, Some("Bearer s"), "s"));
}

// ---- logs ----------------------------------------------------------------

#[test]
fn redact_masks_secret_occurrences() {
    let out = redact("sk-abc123", "authorization: Bearer sk-abc123 done");
    assert!(!out.contains("sk-abc123"));
    assert!(out.contains("***"));
}

#[test]
fn redact_empty_secret_is_noop() {
    assert_eq!(redact("", "hello"), "hello");
}

#[test]
fn path_components_cannot_leave_their_directory() {
    for raw in ["../../evil", "", ".", "..", "a/b", "a\\b", "ok-1_2"] {
        let name = sanitize_path_component(raw);
        assert!(!name.is_empty(), "{raw}");
        assert!(!name.contains('/') && !name.contains('\\'), "{raw}");
        assert!(name != "." && name != "..", "{raw}");
    }
    assert_eq!(sanitize_path_component("p1"), "p1");
}

#[test]
fn tees_report_once() {
    let mut tee = Tee::new();
    tee.push(b"a");
    tee.push(b"b");
    let (bytes, complete) = tee.finish(true).unwrap();
    assert_eq!(bytes, b"ab");
    assert!(complete);
    assert!(tee.finish(false).is_none());
    let mut broken = Tee::new();
    broken.push(b"x");
    assert_eq!(broken.finish(false), Some((b"x".to_vec(), false)));
}

// ---- setting up ----------------------------------------------------------

fn member(priority: i64) -> PoolMember {
    PoolMember {
        pool_id: "p".into(),
        provider_id: "x".into(),
        priority,
        model_override: None,
        dataset_logging_override: None,
    }
}

fn provider(id: &str, wire: WireFormat) -> Provider {
    Provider {
        id: id.into(),
        name: id.into(),
        wire_format: wire,
        kind: ProviderKind::Passthrough,
        base_url: Some("https://x/v1/chat/completions".into()),
        api_key: Some("k".into()),
        upstream_model: "m".into(),
        dataset_logging: false,
        created_at: 0,
        updated_at: 0,
    }
}

#[test]
fn menu_header_shows_listener_counts_and_access_mode() {
    assert_eq!(
        format_menu_header("0.0.0.0:8080", "1router.db", 2, 3, false),
        "  listening on 0.0.0.0:8080   db: 1router.db\n  2 providers · 3 pools · /v1 access: open (no API key)",
    );
}

#[test]
fn slugify_lowercases_and_hyphenates_punctuation() {
    assert_eq!(slugify("OpenAI"), "openai");
    assert_eq!(slugify("DeepSeek (OpenAI-compatible)"), "deepseek-openai-compatible");
    assert_eq!(slugify("Gemini (OpenAI-compatible)"), "gemini-openai-compatible");
}

#[test]
fn unique_default_name_reuses_the_base_when_free() {
    assert_eq!(unique_default_name("openai", &vec![]).as_deref(), Some("openai"));
}

#[test]
fn unique_default_name_appends_a_counter_on_collision() {
    let mut taken = vec!["openai".to_string()];
    assert_eq!(unique_default_name("openai", &taken).as_deref(), Some("openai-2"));
    taken.push("openai-2".into());
    assert_eq!(unique_default_name("openai", &taken).as_deref(), Some("openai-3"));
}

#[test]
fn next_priority_is_one_for_an_empty_pool() {
    assert_eq!(next_priority(&[]), 1);
}

#[test]
fn next_priority_is_max_plus_one_not_len_plus_one() {
    assert_eq!(next_priority(&[member(1), member(10)]), 11);
}

#[test]
fn provider_templates_include_both_opencode_entries() {
    let templates = provider_templates("m");
    let labels: Vec<&str> = templates.iter().map(|p| p.label).collect();
    assert!(labels.contains(&"OpenCode (OpenAI-compatible)"));
    assert!(labels.contains(&"OpenCode (Anthropic-compatible)"));

    let openai_tmpl = templates
        .iter()
        .find(|p| p.label == "OpenCode (OpenAI-compatible)")
        .unwrap();
    assert_eq!(openai_tmpl.wire_format, WireFormat::OpenAi);
    assert_eq!(openai_tmpl.base_url, "https://opencode.ai/zen/go/v1/chat/completions");
    assert_eq!(openai_tmpl.upstream_model, "kimi-k2.7-code");

    let anthropic_tmpl = templates
        .iter()
        .find(|p| p.label == "OpenCode (Anthropic-compatible)")
        .unwrap();
    assert_eq!(anthropic_tmpl.wire_format, WireFormat::Anthropic);
    assert_eq!(anthropic_tmpl.base_url, "https://opencode.ai/zen/go/v1/messages");
    assert_eq!(anthropic_tmpl.upstream_model, "qwen3.7-max");
    assert_eq!(openai_tmpl.api_key, None);
    assert_eq!(anthropic_tmpl.api_key, None);
}

#[test]
fn opencode_free_template_defaults_to_the_public_key() {
    let templates = provider_templates("m");
    let tmpl = templates.iter().find(|p| p.label == "OpenCode Free").unwrap();
    assert_eq!(tmpl.wire_format, WireFormat::OpenAi);
    assert_eq!(tmpl.base_url, "https://opencode.ai/zen/v1/chat/completions");
    assert_eq!(tmpl.upstream_model, "deepseek-v4-flash-free");
    assert_eq!(tmpl.api_key, Some("public"));
}

#[test]
fn gemini_template_uses_the_openai_compat_shim() {
    let templates = provider_templates("m");
    let tmpl = templates.iter().find(|p| p.label == "Gemini (OpenAI-compatible)").unwrap();
    assert_eq!(tmpl.wire_format, WireFormat::OpenAi);
    assert_eq!(
        tmpl.base_url,
        "https://generativelanguage.googleapis.com/v1beta/openai/chat/completions"
    );
    assert_eq!(tmpl.upstream_model, "gemini-2.5-flash");
    assert_eq!(tmpl.api_key, None);
}

#[test]
fn next_priority_ignores_ordering_of_input() {
    assert_eq!(next_priority(&[member(10), member(1)]), 11);
}

#[test]
fn parses_full_redirect_url() {
    let (c, s) = parse_code_and_state(
        "  http://localhost:1455/auth/callback?code=abc123&state=st-9&scope=openid\n",
    )
    .unwrap();
    assert_eq!(c, "abc123");
    assert_eq!(s, "st-9");
}

#[test]
fn parses_bare_query_fragment() {
    let (c, s) = parse_code_and_state("code=abc123&state=st-9").unwrap();
    assert_eq!(c, "abc123");
    assert_eq!(s, "st-9");
}

#[test]
fn parse_errors_when_code_or_state_missing() {
    assert!(parse_code_and_state("state=only").is_err());
    assert!(parse_code_and_state("code=only").is_err());
    assert!(parse_code_and_state("total garbage").is_err());
}

fn probe(models: &[&str], answers: &[Result<(u16, String), String>]) -> (ProbeOutcome, Vec<String>) {
    let mut tried = Vec::new();
    let (mut run, mut step) =
        ProbeRun::new(models.iter().map(|m| m.to_string()).collect()).begin();
    loop {
        match step {
            ProbeStep::Try(model) => {
                let answer = answers[tried.len()].clone();
                tried.push(model);
                let next = run.tried(answer);
                run = next.0;
                step = next.1;
            }
            ProbeStep::Over(outcome) => return (outcome, tried),
        }
    }
}

#[test]
fn probe_stops_at_first_success_and_skips_the_rest() {
    let (out, tried) =
        probe(&["a", "b", "c"], &[Ok((400, "nope".into())), Ok((200, "{}".into()))]);
    assert!(matches!(out, ProbeOutcome::Found(ref m) if m == "b"));
    assert_eq!(tried, vec!["a", "b"]);
}

#[test]
fn probe_reports_every_failure_when_none_succeed() {
    let (out, _) = probe(&["a", "b"], &[Ok((404, "no a".into())), Ok((404, "no b".into()))]);
    match out {
        ProbeOutcome::AllFailed(fs) => {
            assert_eq!(fs.len(), 2);
            assert_eq!(fs[0], ("a".into(), 404, "no a".into()));
            assert_eq!(fs[1], ("b".into(), 404, "no b".into()));
        }
        ProbeOutcome::Found(m) => panic!("unexpected success: {m}"),
    }
}

#[test]
fn probe_treats_transport_error_as_a_failed_attempt_and_continues() {
    let (out, _) =
        probe(&["a", "b"], &[Err("connection reset".into()), Ok((200, "{}".into()))]);
    assert!(matches!(out, ProbeOutcome::Found(ref m) if m == "b"));
}

#[test]
fn probe_outcomes_settle_the_model() {
    assert_eq!(
        model_after_probe(&ProbeOutcome::Found("gpt-5.4".into()), PENDING_MODEL),
        "gpt-5.4"
    );
    let failed = ProbeOutcome::AllFailed(vec![("gpt-5.4".into(), 400, "nope".into())]);
    assert_eq!(model_after_probe(&failed, PENDING_MODEL), PENDING_MODEL);
    assert!(matches!(probe(&[], &[]).0, ProbeOutcome::AllFailed(f) if f.is_empty()));
}

#[test]
fn free_first_orders_known_free_then_named_free_then_the_rest() {
    let ranked = free_first(vec![
        "anthropic-fable-5".into(),
        "anthropic-opus-5".into(),
        "deepseek-v4-flash-free".into(),
        "gpt-5.4".into(),
        "x-preview-f-free".into(),
    ]);
    assert_eq!(
        ranked,
        vec![
            "deepseek-v4-flash-free",
            "x-preview-f-free",
            "anthropic-fable-5",
            "anthropic-opus-5",
            "gpt-5.4",
        ]
    );
}

#[test]
fn free_first_is_a_no_op_when_nothing_matches() {
    let ranked = free_first(vec!["gpt-5.4".into(), "anthropic-sonnet-5".into()]);
    assert_eq!(ranked, vec!["gpt-5.4", "anthropic-sonnet-5"]);
}

#[test]
fn replacements_leave_out_the_typed_model() {
    let ranked = replacement_candidates(
        vec!["a".into(), "typed".into(), "x-FREE".into()],
        "typed",
    );
    assert_eq!(ranked, vec!["x-FREE", "a"]);
}

#[test]
fn confirm_upstream_model_accepts_a_typed_model_that_probes_clean() {
    let (mut check, action) = ModelCheck::begin("gpt-5.4");
    assert!(matches!(action, CheckAction::Probe(m) if m == ["gpt-5.4"]));
    let action = check.step(CheckEvent::Probed(ProbeOutcome::Found("gpt-5.4".into())));
    assert!(matches!(action, CheckAction::Use(m) if m == "gpt-5.4"));
}

fn all_failed() -> CheckEvent {
    CheckEvent::Probed(ProbeOutcome::AllFailed(vec![("x".into(), 404, "model not found".into())]))
}

#[test]
fn confirm_upstream_model_falls_back_to_a_live_catalog_model_when_typed_one_fails() {
    let (mut check, _) = ModelCheck::begin("stale-model");
    assert!(matches!(check.step(all_failed()), CheckAction::FetchList));
    let listed = vec!["live-model-a".into(), "stale-model".into(), "live-model-b".into()];
    match check.step(CheckEvent::Listed(Some(listed))) {
        CheckAction::Probe(m) => assert_eq!(m, vec!["live-model-a", "live-model-b"]),
        _ => panic!("expected a probe"),
    }
    let action = check.step(CheckEvent::Probed(ProbeOutcome::Found("live-model-b".into())));
    assert!(matches!(action, CheckAction::Use(m) if m == "live-model-b"));
}

#[test]
fn the_operator_has_the_last_word_on_a_model() {
    let (mut check, _) = ModelCheck::begin("m");
    check.step(all_failed());
    assert!(matches!(check.step(CheckEvent::Listed(Some(vec!["m".into()]))), CheckAction::Ask));
    assert_eq!(check.stage, CheckStage::Asking);
    let action = check.step(CheckEvent::Answered(" other ".into()));
    assert!(matches!(action, CheckAction::Use(m) if m == "other"));
    let (mut check, _) = ModelCheck::begin("m");
    check.step(all_failed());
    assert!(matches!(check.step(CheckEvent::Listed(None)), CheckAction::Ask));
}

#[test]
fn browser_logins_give_a_key_or_ask_for_a_paste() {
    let callback = || AuthCallback {
        api_key: "k".into(),
        state: "s".into(),
        user_id: "u".into(),
        user_name: "n".into(),
        key_name: "c".into(),
    };
    assert!(matches!(key_after_login("s", Ok(callback())), KeyStep::Key(k) if k == "k"));
    assert!(matches!(key_after_login("t", Ok(callback())), KeyStep::Failed(_)));
    assert!(matches!(key_after_login("s", Err(LoginError::Timeout)), KeyStep::Paste));
    assert!(matches!(
        key_after_login("s", Err(LoginError::Denied("no".into()))),
        KeyStep::Failed(m) if m == "Command Code login denied: no"
    ));
}

#[test]
fn candidate_list_matches_the_e2e_test() {
    assert_eq!(
        CANDIDATE_MODELS,
        ["gpt-5.4", "gpt-5-codex", "gpt-5.1-codex", "gpt-5", "codex-mini-latest"]
    );
    assert_eq!(candidate_models(), CANDIDATE_MODELS);
}

#[test]
fn passthrough_row_uses_the_name_as_id_and_keeps_kind_passthrough() {
    let p = build_passthrough_row(
        "my-openai",
        WireFormat::OpenAi,
        "https://api.example.com/v1/chat/completions",
        "sk-abc",
        "gpt-4o-mini",
        7,
    );
    assert_eq!(p.id, "my-openai");
    assert_eq!(p.name, "my-openai");
    assert_eq!(p.kind, ProviderKind::Passthrough);
    assert_eq!(p.base_url.as_deref(), Some("https://api.example.com/v1/chat/completions"));
    assert_eq!(p.api_key.as_deref(), Some("sk-abc"));
    assert_eq!(p.upstream_model, "gpt-4o-mini");
    let o = build_oauth_row("cx", ProviderKind::OauthCodex, 7);
    assert_eq!(o.upstream_model, PENDING_MODEL);
    assert_eq!(o.api_key, None);
}

#[test]
fn new_members_come_last() {
    let p = provider("p1", WireFormat::Anthropic);
    let pool = pool_for("anth", &p, 3).unwrap();
    assert_eq!(pool.id, "anth");
    assert_eq!(pool.created_at, 3);
    assert_eq!(pool.wire_format, WireFormat::Anthropic);
    assert_eq!(pool.strategy, PoolStrategy::Priority);
    let m = member_for("anth", &p, &[member(10)], Some("x".into()));
    assert_eq!(m.priority, 11);
    assert_eq!(m.provider_id, "p1");
    assert_eq!(m.model_override.as_deref(), Some("x"));
}

#[test]
fn pools_need_an_id_that_can_stand_in_a_path() {
    let p = provider("p1", WireFormat::OpenAi);
    assert!(matches!(
        pool_for("  ", &p, 1),
        Err(AppError::BadRequest(m)) if m == "id must not be empty"
    ));
    assert!(matches!(
        pool_for("a/b", &p, 1),
        Err(AppError::BadRequest(m)) if m == "id must not contain '/'"
    ));
    assert!(pool_for("a b", &p, 1).is_ok());
}

fn nothing_said() -> RawSettings {
    RawSettings {
        listen_addr: None,
        sqlite_path: None,
        seed_path: None,
        connect_timeout: None,
        ttfb_timeout: None,
        idle_timeout: None,
        max_body_bytes: None,
        drain_timeout: None,
    }
}

#[test]
fn from_env_reads_required_and_defaults() {
    let c = settings_from(RawSettings {
        listen_addr: Some("127.0.0.1:9999".into()),
        sqlite_path: Some("/tmp/x.db".into()),
        ..nothing_said()
    });
    let secret = choose_secret(Some("s3cret".into()), Sidecar::Missing).unwrap().into_secret();
    assert_eq!(c.listen_addr, "127.0.0.1:9999");
    assert_eq!(c.sqlite_path, "/tmp/x.db");
    assert_eq!(secret.as_deref(), Some("s3cret"));
    assert!(c.seed_path.is_none());
    assert_eq!(c.connect_timeout, 10);
    assert_eq!(c.max_body_bytes, 10 * 1024 * 1024);
}

#[test]
fn settings_have_defaults() {
    let c = settings_from(nothing_said());
    assert_eq!(c.listen_addr, "0.0.0.0:8080");
    assert_eq!(c.sqlite_path, "1router.db");
    assert_eq!(sqlite_path_setting(None), "1router.db");
    assert_eq!((c.connect_timeout, c.ttfb_timeout, c.idle_timeout), (10, 60, 120));
    assert_eq!(c.drain_timeout, 30);
    let c = settings_from(RawSettings {
        ttfb_timeout: Some("7".into()),
        drain_timeout: Some("soon".into()),
        seed_path: Some("seed.json".into()),
        ..nothing_said()
    });
    assert_eq!(c.ttfb_timeout, 7);
    assert_eq!(c.drain_timeout, 30);
    assert_eq!(c.seed_path.as_deref(), Some("seed.json"));
}

#[test]
fn model_lists_are_read_from_bytes() {
    assert_eq!(models_from(br#"{"data":[{"id":"a"},{"id":"b"}]}"#).unwrap(), vec!["a", "b"]);
    assert!(models_from(b"{}").unwrap_err().starts_with("response had no recognizable"));
    assert!(models_from(b"<html>").unwrap_err().starts_with("could not parse response as JSON: "));
}

#[test]
fn menus_decide_by_what_was_typed() {
    assert_eq!(key_or_default("", Some("public")), "public");
    assert_eq!(key_or_default("k", Some("public")), "k");
    assert!(open_access_confirmed(true, true, ""));
    assert!(!open_access_confirmed(true, false, ""));
    assert!(!open_access_confirmed(false, true, "no"));
    assert_eq!(access_change(true, true, Some(0)), AccessChange::Fixed);
    assert!(!runs_wizard(true, true, true));
    assert!(!runs_wizard(false, false, true));
    assert!(runs_wizard(false, true, true));
    assert!(!runs_wizard(false, true, false));
}

// ---- providers -----------------------------------------------------------

#[test]
fn derive_models_url_swaps_the_known_endpoint_suffixes() {
    assert_eq!(
        derive_models_url("https://api.openai.com/v1/chat/completions"),
        "https://api.openai.com/v1/models"
    );
    assert_eq!(
        derive_models_url("https://api.anthropic.com/v1/messages"),
        "https://api.anthropic.com/v1/models"
    );
}

#[test]
fn derive_models_url_falls_back_to_swapping_the_last_segment() {
    assert_eq!(
        derive_models_url("https://mirror.example.com/api/completion"),
        "https://mirror.example.com/api/models"
    );
}

#[test]
fn the_models_stand_beside_the_last_segment() {
    for (path, expected) in [
        ("", "/models"),
        ("/", "/models"),
        ("/a", "/models"),
        ("/a/", "/models"),
        ("/a/b", "/a/models"),
        ("/a/b/", "/a/models"),
        ("/a//", "/a/models"),
        ("//a", "/models"),
        ("///a", "///models"),
    ] {
        assert_eq!(
            derive_models_url(&format!("https://h.example.com{path}")),
            format!("https://h.example.com{expected}")
        );
    }
    let long = "a".repeat(MAX_URL_BYTES);
    assert_eq!(derive_models_url(&format!("http://h/{long}")), format!("http://h/{long}/models"));
    assert_eq!(
        derive_models_url(&format!("http://h/{long}/messages")),
        format!("http://h/{long}/models")
    );
    assert_eq!(
        derive_models_url("https://h.example.com/a%20b/v1/ask/?key=1#top"),
        "https://h.example.com/a%20b/v1/models#top"
    );
    assert_eq!(derive_models_url("https://h.example.com//ask"), "https://h.example.com/models");
    assert_eq!(derive_models_url("mailto:someone?subject=x"), "mailto:someone");
    assert_eq!(derive_models_url("no url"), "no url/models");
}

#[test]
fn derive_models_url_handles_a_base_url_with_no_path_at_all() {
    assert_eq!(derive_models_url("http://127.0.0.1:1"), "http://127.0.0.1:1/models");
    assert_eq!(derive_models_url("https://api.example.com"), "https://api.example.com/models");
}

#[test]
fn parse_models_payload_ignores_extra_fields() {
    let body = j(r#"{"object":"list","data":[{"id":"cc-1","name":"CC One","context_length":200000}]}"#);
    assert_eq!(parse_models_body(&body).unwrap(), vec!["cc-1"]);
}

#[test]
fn model_lists_without_data_are_refused() {
    assert!(parse_models_body(&j("{}")).is_err());
    assert!(models_failure(500, "down").contains("500"));
    let list = models_list(
        &vec!["pool".to_string()],
        &vec![("p".to_string(), vec!["m1".to_string(), "m2".to_string()])],
    )
    .to_value();
    assert_eq!(list["object"], "list");
    let ids: Vec<&str> =
        list["data"].as_array().unwrap().iter().map(|m| m["id"].as_str().unwrap()).collect();
    assert_eq!(ids, vec!["pool", "p/m1", "p/m2"]);
}

#[test]
fn patches_change_only_what_they_give() {
    let p = provider("p1", WireFormat::OpenAi);
    let patch = ProviderPatch {
        api_key: Some(None),
        upstream_model: Some("n".into()),
        ..Default::default()
    };
    let out = apply_patch(&p, &patch, 0, 9).unwrap();
    assert_eq!(out.api_key, None);
    assert_eq!(out.upstream_model, "n");
    assert_eq!(out.base_url, p.base_url);
    assert_eq!(out.updated_at, 9);
    let format = ProviderPatch { wire_format: Some(WireFormat::Anthropic), ..Default::default() };
    assert_eq!(format_to_check(&p, &format), Some(WireFormat::Anthropic));
    assert_eq!(format_to_check(&p, &patch), None);
    assert!(apply_patch(&p, &format, 1, 9).is_err());
    assert!(apply_patch(&p, &format, 0, 9).is_ok());
}

#[test]
fn listings_hide_keys() {
    let p = provider("p1", WireFormat::OpenAi);
    assert!(credential_configured(&p, false));
    let shown = mask(&p, true, "t0", "t1").to_value();
    assert_eq!(shown["id"], "p1");
    assert_eq!(shown["api_key"], "***k");
    assert_eq!(shown["created_at"], "t0");
}

#[test]
fn states_and_probes_are_reported() {
    let mut s = ProviderRuntimeState::default();
    s.record_retryable(60, 1_000);
    let body = state_body("p1", Some(s), 31_000).to_value();
    assert_eq!(body["provider_id"], "p1");
    assert_eq!(model_to_probe(Some("x"), "own"), "x");
    assert_eq!(model_to_probe(None, "own"), "own");
    assert_eq!(probe_body("m", "hi").to_value()["model"], "m");
    let good = probe_report(&Probe::Answered { status: 200, text: "{}".into() }).to_value();
    let bad = probe_report(&Probe::Unreachable { error: "gone".into() }).to_value();
    assert_eq!(good["ok"], true);
    assert_eq!(bad["ok"], false);
}

#[test]
fn logins_are_for_their_own_kind() {
    assert!(require_kind(ProviderKind::OauthCodex, ProviderKind::OauthCodex).is_ok());
    assert!(require_kind(ProviderKind::Passthrough, ProviderKind::OauthCodex).is_err());
    assert_eq!(key_to_store(" k ", None).unwrap(), "k");
    assert_eq!(key_to_store("", Some("disk".into())).unwrap(), "disk");
    assert!(key_to_store(" ", None).is_err());
    assert_eq!(login_status_body(Some(&LoginStatus::Pending)).0.to_value()["status"], "pending");
    assert!(!login_status_body(Some(&LoginStatus::Pending)).1);
    assert!(login_status_body(Some(&LoginStatus::Error("x".into()))).1);
}

#[test]
fn live_models_are_asked_for_with_the_providers_key() {
    let q = models_query(&provider("p", WireFormat::OpenAi)).unwrap();
    assert_eq!(q.url, "https://x/v1/models");
    assert_eq!(q.bearer.as_deref(), Some("k"));
    assert!(q.headers.is_empty());
    let mut p = provider("p", WireFormat::Anthropic);
    p.base_url = Some("https://mirror.example.com/api/completion?x=1".into());
    let q = models_query(&p).unwrap();
    assert_eq!(q.url, "https://mirror.example.com/api/models");
    assert_eq!(q.bearer, None);
    assert_eq!(q.headers[0], ("x-api-key".to_string(), "k".to_string()));
    p.base_url = None;
    assert_eq!(models_query(&p).err().as_deref(), Some("provider has no base_url"));
    assert!(matches!(already_exists("n"), AppError::Conflict(m) if m == "provider name 'n' already exists"));
}

#[test]
fn exports_hold_everything() {
    let p = provider("p1", WireFormat::OpenAi);
    let snapshot = ConfigSnapshot {
        pools: vec![
            PoolWithMembers { pool: pool_for("a", &p, 1).unwrap(), members: vec![member(1), member(2)] },
            PoolWithMembers { pool: pool_for("b", &p, 2).unwrap(), members: vec![member(3)] },
        ],
        providers: vec![p],
    };
    let dump = export(&snapshot);
    assert_eq!(dump.providers[0].api_key.as_deref(), Some("k"));
    let pools: Vec<&str> = dump.pools.iter().map(|p| p.id.as_str()).collect();
    assert_eq!(pools, vec!["a", "b"]);
    let priorities: Vec<i64> = dump.members.iter().map(|m| m.priority).collect();
    assert_eq!(priorities, vec![1, 2, 3]);
    assert_eq!(
        imported_body(&dump).to_value(),
        val(r#"{"imported":{"providers":1,"pools":2,"members":3}}"#)
    );
    assert_eq!(
        overall(5, 3).to_value(),
        val(r#"{"total":5,"successes":3,"failures":2}"#)
    );
}

// ---- requests to providers -----------------------------------------------

fn creds() -> Credentials {
    Credentials { api_key: Some("sk-xyz".into()), ..Default::default() }
}

fn serving(wire: WireFormat) -> Provider {
    let mut p = provider("p1", wire);
    p.base_url = Some("https://api.example.com/v1/chat/completions".into());
    p.upstream_model = "real-model".into();
    p
}

#[test]
fn build_request_rewrites_model_and_sets_auth() {
    let req = build_request(
        &serving(WireFormat::OpenAi),
        WireFormat::OpenAi,
        br#"{"model":"gpt-4o","messages":[]}"#,
        &creds(),
    )
    .unwrap()
    .unwrap();
    assert_eq!(req.bearer.as_deref(), Some("sk-xyz"));
    assert_eq!(req.body.to_value()["model"], "real-model");
}

#[test]
fn build_request_uses_anthropic_headers_for_anthropic_wire_format() {
    let req = build_request(
        &serving(WireFormat::Anthropic),
        WireFormat::Anthropic,
        br#"{"model":"anthropic","messages":[]}"#,
        &creds(),
    )
    .unwrap()
    .unwrap();
    assert!(req.bearer.is_none());
    assert!(req.headers.contains(&("x-api-key".to_string(), "sk-xyz".to_string())));
    assert!(req
        .headers
        .contains(&("anthropic-version".to_string(), ANTHROPIC_VERSION.to_string())));
}

#[test]
fn build_request_translates_anthropic_client_to_openai_provider() {
    let sent = build_request(
        &serving(WireFormat::OpenAi),
        WireFormat::Anthropic,
        br#"{"model":"anthropic-x","system":"be nice","messages":[{"role":"user","content":"hi"}]}"#,
        &creds(),
    )
    .unwrap()
    .unwrap()
    .body
    .to_value();
    assert_eq!(sent["model"], "real-model");
    assert_eq!(sent["messages"][0]["role"], "system");
    assert_eq!(sent["messages"][0]["content"], "be nice");
    assert_eq!(sent["messages"][1]["content"], "hi");
}

#[test]
fn build_request_translates_openai_client_to_anthropic_provider() {
    let sent = build_request(
        &serving(WireFormat::Anthropic),
        WireFormat::OpenAi,
        br#"{"model":"gpt-4o","messages":[{"role":"user","content":"hi"}]}"#,
        &creds(),
    )
    .unwrap()
    .unwrap()
    .body
    .to_value();
    assert_eq!(sent["model"], "real-model");
    assert_eq!(sent["messages"][0]["content"], "hi");
    assert!(sent.get("max_tokens").is_some(), "Anthropic requires max_tokens");
}

#[test]
fn transform_response_translates_openai_json_to_claude_when_client_is_anthropic() {
    let out = translate_answer_bytes(
        WireFormat::Anthropic,
        br#"{"id":"resp_1","model":"real-model","choices":[{"message":{"role":"assistant","content":"hello"},"finish_reason":"stop"}]}"#,
    )
    .unwrap()
    .to_value();
    assert_eq!(out["type"], "message");
    assert_eq!(out["content"][0]["text"], "hello");
}

#[test]
fn transform_response_translates_claude_json_to_openai_when_client_is_openai() {
    let out = translate_answer_bytes(
        WireFormat::OpenAi,
        br#"{"id":"msg_1","model":"real-model","stop_reason":"end_turn","content":[{"type":"text","text":"hello"}]}"#,
    )
    .unwrap()
    .to_value();
    assert_eq!(out["object"], "chat.completion");
    assert_eq!(out["choices"][0]["message"]["content"], "hello");
}

#[test]
fn answers_are_translated_only_between_formats() {
    assert!(matches!(
        response_mode(WireFormat::OpenAi, WireFormat::OpenAi, true),
        ResponseMode::Raw
    ));
    assert!(matches!(
        response_mode(WireFormat::Anthropic, WireFormat::OpenAi, true),
        ResponseMode::StreamToClaude
    ));
    assert!(matches!(
        response_mode(WireFormat::OpenAi, WireFormat::Anthropic, false),
        ResponseMode::JsonToOpenAi
    ));
    assert!(keeps_header("content-type"));
    assert!(!keeps_header("Content-Length"));
    assert!(!keeps_header("transfer-encoding"));
    assert!(matches!(refresh_credentials(), Err(RefreshError::Transient(_))));
    assert!(translate_answer_bytes(WireFormat::OpenAi, b"<html>").is_err());
}

#[test]
fn upstream_hosts_must_be_public() {
    assert!(is_private_host("localhost", HostAddr::Name));
    assert!(!is_private_host("api.openai.com", HostAddr::Name));
    assert!(is_private_host("127.0.0.1", HostAddr::V4(127, 0, 0, 1)));
    assert!(is_private_host("10.1.2.3", HostAddr::V4(10, 1, 2, 3)));
    assert!(is_private_host("169.254.1.1", HostAddr::V4(169, 254, 1, 1)));
    assert!(!is_private_host("8.8.8.8", HostAddr::V4(8, 8, 8, 8)));
    assert!(is_private_host("::1", HostAddr::V6 { first: 0, loopback: true, unspecified: false }));
    assert!(is_private_host("[LocalHost]", HostAddr::Name));
    assert_eq!(bare_host_of("[::1]"), "::1");
    assert_eq!(bare_host_of("a[b]c"), "a[b]c");
    assert_eq!(bare_host_of("[]"), "");
}

fn refusal(raw: &str, addr: HostAddr, allow: bool) -> Option<String> {
    let url = match parse_upstream_url(raw) {
        Ok(url) => url,
        Err(AppError::Internal(m)) => return Some(m),
        Err(_) => panic!("unexpected error"),
    };
    match validate_upstream_url(&url, addr, allow) {
        Ok(()) => None,
        Err(AppError::Internal(m)) => Some(m),
        Err(_) => panic!("unexpected error"),
    }
}

#[test]
fn blocks_private_upstream_by_default() {
    let mut p = serving(WireFormat::OpenAi);
    let body = br#"{"model":"gpt-4o","messages":[]}"#;
    p.base_url = Some("http://127.0.0.1:8080/v1/chat/completions".into());
    let err = build_checked_request(&p, body, &creds(), HostAddr::V4(127, 0, 0, 1), false);
    assert!(matches!(err, Err(AppError::Internal(_))));
    let req = build_checked_request(&p, body, &creds(), HostAddr::V4(127, 0, 0, 1), true).unwrap();
    assert_eq!(req.url, "http://127.0.0.1:8080/v1/chat/completions");
    assert_eq!(req.bearer.as_deref(), Some("sk-xyz"));
    assert_eq!(req.body.to_value()["model"], "real-model");
    let local = HostAddr::V4(127, 0, 0, 1);
    let raw = "http://127.0.0.1:8080/v1/chat/completions";
    assert!(refusal(raw, local, false).is_some());
    assert_eq!(refusal(raw, local, true), None);
    assert_eq!(
        refusal("https://127.0.0.1/v1", local, false).as_deref(),
        Some("private-network upstream URL blocked")
    );
    assert_eq!(refusal("https://api.openai.com/v1", HostAddr::Name, false), None);
    assert_eq!(
        refusal("ftp://api.openai.com/v1", HostAddr::Name, true).as_deref(),
        Some("upstream URL must use https unless explicitly allowed")
    );
    assert_eq!(
        refusal("no url", HostAddr::Name, true).as_deref(),
        Some("invalid upstream URL")
    );
    let url = parse_upstream_url("HTTPS://API.openai.com").unwrap();
    assert_eq!(url.scheme, "https");
    assert_eq!(url.host.as_deref(), Some("api.openai.com"));
    assert_eq!(url.text, "https://api.openai.com/");
}

#[test]
fn http_needs_refresh_is_false() {
    assert!(!refresh_due(ProviderKind::Passthrough, &creds(), 0));
}

#[test]
fn passthrough_needs_refresh_is_false() {
    let past = Credentials { access_expires_at: Some(-1), ..creds() };
    assert!(!refresh_due(ProviderKind::Passthrough, &past, 0));
}

#[test]
fn wire_format_can_be_flipped_when_not_in_any_pool() {
    let patch = ProviderPatch { wire_format: Some(WireFormat::Anthropic), ..Default::default() };
    let p = apply_patch(&provider("p1", WireFormat::OpenAi), &patch, 0, 1).unwrap();
    assert_eq!(p.wire_format, WireFormat::Anthropic);
}

#[test]
fn wire_format_flip_is_rejected_while_in_a_mismatched_pool() {
    let patch = ProviderPatch { wire_format: Some(WireFormat::Anthropic), ..Default::default() };
    match apply_patch(&provider("p1", WireFormat::OpenAi), &patch, 2, 1) {
        Err(AppError::BadRequest(m)) => assert_eq!(
            m,
            "provider 'p1' is a member of 2 pool(s) that don't speak wire_format 'Anthropic' - remove it from those pools first"
        ),
        _ => panic!("expected a bad request"),
    }
}

#[test]
fn codex_wire_format_flip_is_allowed_while_in_a_mismatched_pool() {
    let patch = ProviderPatch { wire_format: Some(WireFormat::Anthropic), ..Default::default() };
    let mut p = provider("cx", WireFormat::OpenAi);
    p.kind = ProviderKind::OauthCodex;
    assert!(apply_patch(&p, &patch, 1, 1).is_ok());
}

#[test]
fn commandcode_wire_format_flip_is_allowed_while_in_a_mismatched_pool() {
    let patch = ProviderPatch { wire_format: Some(WireFormat::Anthropic), ..Default::default() };
    let mut p = provider("cc", WireFormat::OpenAi);
    p.kind = ProviderKind::OauthCommandCode;
    assert!(apply_patch(&p, &patch, 1, 1).is_ok());
}

// ---- values --------------------------------------------------------------

#[test]
fn values_survive_parsing_and_printing() {
    let text = r#"{"a":[1,-2,1.5,"x\né",true,null],"b":{"c":{}}}"#;
    let parsed = parse_json(text).unwrap();
    assert_eq!(parsed.to_value(), val(text));
    assert_eq!(val(&parsed.print()), val(text));
    assert!(parse_json("{").is_none());
    assert_eq!(parse_json_bytes(text.as_bytes()).unwrap().to_value(), val(text));
    assert!(parse_json_bytes(&[0xff]).is_err());
}

#[test]
fn numbers_keep_their_sign_and_size() {
    assert_eq!(Json::signed(-7).to_value(), -7);
    assert_eq!(Json::unsigned(u64::MAX).to_value(), u64::MAX);
    assert_eq!(Json::signed(-7).as_i64(), Some(-7));
    assert_eq!(Json::signed(-7).as_u64(), None);
    assert_eq!(Json::unsigned(u64::MAX).as_i64(), None);
    assert_eq!(j("1.5").as_i64(), None);
    assert_eq!(j("12").copy().as_u64(), Some(12));
}
