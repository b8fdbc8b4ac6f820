use one_router::backoff::{classify, cooldown_for, reset_after_from_header};
use one_router::error::{validate_path_id, wire_error, AppError, ErrorClass};
use one_router::flow::{
    client_wants_stream, debug_headers, missing_model, model_from_body, unknown_model, Action, Candidate, Event,
    ProxyRun,
};
use one_router::model::{
    ConfigSnapshot, Credentials, OAuthState, Pool, PoolMember, PoolStrategy, PoolWithMembers,
    Provider, ProviderKind, WireFormat,
};
use one_router::json::Json;
use one_router::pools::{already_exists, direct_pools, patched_strategy, stored_override, PoolPatch};
use one_router::runtime::{
    mark_provider_misconfigured, reset_provider_to_healthy, runtime_key, runtime_key_prefix,
    worst_provider_state, ProviderRuntimeState, ProviderStatus, RuntimeTable,
};
use one_router::select::{
    dataset_logging_enabled, normalize_sticky_limit, rotate_members, select, RotationState,
    RotationTable, Selection,
};

// ---- choosing providers --------------------------------------------------

fn prov(id: &str) -> Provider {
    Provider {
        id: id.into(),
        name: id.into(),
        wire_format: WireFormat::OpenAi,
        kind: ProviderKind::Passthrough,
        base_url: Some("u".into()),
        api_key: Some("k".into()),
        upstream_model: "m".into(),
        dataset_logging: false,
        created_at: 0,
        updated_at: 0,
    }
}

fn member(provider: &str, priority: i64) -> PoolMember {
    PoolMember {
        pool_id: "gpt-4o".into(),
        provider_id: provider.into(),
        priority,
        model_override: None,
        dataset_logging_override: None,
    }
}

fn snap() -> ConfigSnapshot {
    snap_with_strategy(PoolStrategy::Priority, None)
}

fn snap_with_strategy(strategy: PoolStrategy, sticky_limit: Option<i64>) -> ConfigSnapshot {
    ConfigSnapshot {
        providers: vec![prov("a"), prov("b")],
        pools: vec![PoolWithMembers {
            pool: Pool {
                id: "gpt-4o".into(),
                wire_format: WireFormat::OpenAi,
                created_at: 0,
                strategy,
                sticky_limit,
            },
            members: vec![member("b", 20), member("a", 10)],
        }],
    }
}

fn ids(sel: &Selection) -> Vec<String> {
    sel.providers.iter().map(|(p, _, _)| p.id.clone()).collect()
}

#[test]
fn orders_by_priority_ascending() {
    let s = snap();
    let mut rotation = RotationTable::new();
    let sel = select(&s, "gpt-4o", WireFormat::OpenAi, &mut rotation).unwrap();
    assert_eq!(ids(&sel), vec!["a", "b"]);
}

#[test]
fn model_override_replaces_provider_upstream_model() {
    let mut s = snap();
    s.pools[0].members.push(PoolMember {
        pool_id: "gpt-4o".into(),
        provider_id: "a".into(),
        priority: 10,
        model_override: Some("gpt-5.6-sol".into()),
        dataset_logging_override: None,
    });
    s.pools[0].members.retain(|m| m.provider_id != "a" || m.model_override.is_some());

    let sel = select(&s, "gpt-4o", WireFormat::OpenAi, &mut RotationTable::new()).unwrap();
    let (_, model, _) = sel.providers.iter().find(|(p, _, _)| p.id == "a").unwrap();
    assert_eq!(model, "gpt-5.6-sol");

    let (_, model_b, _) = sel.providers.iter().find(|(p, _, _)| p.id == "b").unwrap();
    assert_eq!(model_b, "m", "falls back to the provider's own upstream_model when unset");
}

#[test]
fn wrong_wire_format_returns_none() {
    assert!(select(&snap(), "gpt-4o", WireFormat::Anthropic, &mut RotationTable::new()).is_none());
}

#[test]
fn missing_pool_returns_none() {
    assert!(select(&snap(), "nope", WireFormat::OpenAi, &mut RotationTable::new()).is_none());
}

#[test]
fn direct_provider_slash_model_routes_to_that_provider_with_that_model() {
    let s = snap();
    let sel = select(&s, "a/some-other-model", WireFormat::OpenAi, &mut RotationTable::new()).unwrap();
    assert!(sel.pool.is_none());
    assert_eq!(sel.providers.len(), 1);
    let (provider, model, _) = &sel.providers[0];
    assert_eq!(provider.id, "a");
    assert_eq!(model, "some-other-model");
}

#[test]
fn direct_provider_addressing_only_splits_on_the_first_slash() {
    let s = snap();
    let sel =
        select(&s, "a/meta-llama/Llama-3-70b", WireFormat::OpenAi, &mut RotationTable::new()).unwrap();
    let (provider, model, _) = &sel.providers[0];
    assert_eq!(provider.id, "a");
    assert_eq!(model, "meta-llama/Llama-3-70b");
}

#[test]
fn direct_provider_addressing_is_only_a_fallback_a_real_pool_still_wins() {
    let s = snap();
    let sel = select(&s, "gpt-4o", WireFormat::OpenAi, &mut RotationTable::new()).unwrap();
    assert!(sel.pool.is_some());
}

#[test]
fn direct_provider_addressing_rejects_an_unknown_provider() {
    assert!(select(&snap(), "nope/some-model", WireFormat::OpenAi, &mut RotationTable::new()).is_none());
}

#[test]
fn direct_provider_addressing_translates_a_wire_format_mismatch() {
    let s = snap();
    let sel = select(&s, "a/some-model", WireFormat::Anthropic, &mut RotationTable::new()).unwrap();
    assert_eq!(sel.providers[0].0.id, "a");
}

#[test]
fn direct_codex_provider_addressing_supports_both_wire_formats() {
    let mut s = snap();
    s.providers[0].kind = ProviderKind::OauthCodex;
    for wire in [WireFormat::OpenAi, WireFormat::Anthropic] {
        let sel = select(&s, "a/gpt-5-codex", wire, &mut RotationTable::new()).unwrap();
        assert_eq!(sel.providers[0].0.id, "a");
        assert_eq!(sel.providers[0].1, "gpt-5-codex");
    }
}

#[test]
fn priority_strategy_never_rotates() {
    let s = snap();
    let mut rotation = RotationTable::new();
    for _ in 0..5 {
        let sel = select(&s, "gpt-4o", WireFormat::OpenAi, &mut rotation).unwrap();
        assert_eq!(ids(&sel), vec!["a", "b"]);
    }
}

#[test]
fn round_robin_rotates_start_index_on_each_call() {
    let s = snap_with_strategy(PoolStrategy::RoundRobin, None);
    let mut rotation = RotationTable::new();

    let sel1 = select(&s, "gpt-4o", WireFormat::OpenAi, &mut rotation).unwrap();
    assert_eq!(ids(&sel1), vec!["a", "b"], "first call: priority order unchanged, cursor starts at 0");

    let sel2 = select(&s, "gpt-4o", WireFormat::OpenAi, &mut rotation).unwrap();
    assert_eq!(ids(&sel2), vec!["b", "a"], "second call: rotated head");

    let sel3 = select(&s, "gpt-4o", WireFormat::OpenAi, &mut rotation).unwrap();
    assert_eq!(ids(&sel3), vec!["a", "b"], "third call: wraps back around");
}

#[test]
fn round_robin_respects_sticky_limit() {
    let s = snap_with_strategy(PoolStrategy::RoundRobin, Some(3));
    let mut rotation = RotationTable::new();

    let sel1 = select(&s, "gpt-4o", WireFormat::OpenAi, &mut rotation).unwrap();
    let sel2 = select(&s, "gpt-4o", WireFormat::OpenAi, &mut rotation).unwrap();
    let sel3 = select(&s, "gpt-4o", WireFormat::OpenAi, &mut rotation).unwrap();
    assert_eq!(ids(&sel1), vec!["a", "b"]);
    assert_eq!(ids(&sel2), vec!["a", "b"], "same head for 3 consecutive calls (sticky_limit)");
    assert_eq!(ids(&sel3), vec!["a", "b"]);

    let sel4 = select(&s, "gpt-4o", WireFormat::OpenAi, &mut rotation).unwrap();
    assert_eq!(ids(&sel4), vec!["b", "a"], "4th call rotates to the next member");
}

#[test]
fn round_robin_cursor_wraps_when_member_removed() {
    let s = snap_with_strategy(PoolStrategy::RoundRobin, None);
    let mut rotation = RotationTable::new();
    rotation.insert("gpt-4o", RotationState { index: 47, consecutive_uses: 0 });

    let sel = select(&s, "gpt-4o", WireFormat::OpenAi, &mut rotation).unwrap();
    assert_eq!(sel.providers.len(), 2, "full member list still returned");
    let got = ids(&sel);
    assert!(got.contains(&"a".to_string()) && got.contains(&"b".to_string()));
}

#[test]
fn round_robin_is_a_no_op_for_a_single_member_pool() {
    let mut s = snap_with_strategy(PoolStrategy::RoundRobin, None);
    s.pools[0].members.retain(|m| m.provider_id == "a");
    let mut rotation = RotationTable::new();

    for _ in 0..3 {
        let sel = select(&s, "gpt-4o", WireFormat::OpenAi, &mut rotation).unwrap();
        assert_eq!(sel.providers.len(), 1);
        assert_eq!(sel.providers[0].0.id, "a");
    }
}

#[test]
fn dataset_logging_enabled_prefers_member_override_over_provider_default() {
    let mut p = prov("x");
    p.dataset_logging = false;
    assert!(dataset_logging_enabled(&p, Some(true)));
    p.dataset_logging = true;
    assert!(!dataset_logging_enabled(&p, Some(false)));
    p.dataset_logging = true;
    assert!(dataset_logging_enabled(&p, None));
}

#[test]
fn select_carries_the_member_override_for_a_pool_routed_call() {
    let mut s = snap();
    s.pools[0].members[0].dataset_logging_override = Some(true);
    let sel = select(&s, "gpt-4o", WireFormat::OpenAi, &mut RotationTable::new()).unwrap();
    let (_, _, member_override) = sel.providers.iter().find(|(p, _, _)| p.id == "b").unwrap();
    assert_eq!(*member_override, Some(true));
}

#[test]
fn select_direct_provider_always_yields_no_override() {
    let mut s = snap();
    s.providers[0].dataset_logging = true;
    let sel = select(&s, "a/some-model", WireFormat::OpenAi, &mut RotationTable::new()).unwrap();
    assert_eq!(sel.providers[0].2, None);
}

#[test]
fn members_without_a_provider_are_passed_over() {
    let mut s = snap();
    s.providers.remove(0);
    let sel = select(&s, "gpt-4o", WireFormat::OpenAi, &mut RotationTable::new()).unwrap();
    assert_eq!(ids(&sel), vec!["b"]);
}

#[test]
fn equal_priorities_keep_their_order() {
    let mut s = snap();
    s.pools[0].members = vec![member("b", 1), member("a", 1), member("a", 0)];
    let sel = select(&s, "gpt-4o", WireFormat::OpenAi, &mut RotationTable::new()).unwrap();
    assert_eq!(ids(&sel), vec!["a", "b", "a"]);
}

#[test]
fn sticky_limits_are_at_least_one() {
    assert_eq!(normalize_sticky_limit(None), 1);
    assert_eq!(normalize_sticky_limit(Some(0)), 1);
    assert_eq!(normalize_sticky_limit(Some(-3)), 1);
    assert_eq!(normalize_sticky_limit(Some(4)), 4);
}

#[test]
fn huge_sticky_limits_stay_huge() {
    assert_eq!(normalize_sticky_limit(Some(u32::MAX as i64)), u32::MAX);
    assert_eq!(normalize_sticky_limit(Some(0x1_0000_0000)), u32::MAX);
    assert_eq!(normalize_sticky_limit(Some(0x1_0000_0001)), u32::MAX);
    assert_eq!(normalize_sticky_limit(Some(i64::MAX)), u32::MAX);
}

#[test]
fn a_turn_changes_only_the_head() {
    let mut state = RotationState { index: 1, consecutive_uses: 0 };
    let members = vec![member("a", 1), member("b", 2), member("c", 3)];
    let turned = rotate_members(members, &mut state, 1);
    let ids: Vec<&str> = turned.iter().map(|m| m.provider_id.as_str()).collect();
    assert_eq!(ids, vec!["b", "a", "c"]);
    let members = vec![member("a", 1), member("b", 2), member("c", 3)];
    let turned = rotate_members(members, &mut state, 1);
    let ids: Vec<&str> = turned.iter().map(|m| m.provider_id.as_str()).collect();
    assert_eq!(ids, vec!["c", "a", "b"]);
    assert_eq!(state.index, 0);
}

#[test]
fn rotation_takes_every_member_in_turn() {
    let mut state = RotationState { index: 0, consecutive_uses: 0 };
    let mut heads = Vec::new();
    for _ in 0..7 {
        let rotated =
            rotate_members(vec![member("a", 1), member("b", 2), member("c", 3)], &mut state, 2);
        assert_eq!(rotated.len(), 3);
        heads.push(rotated[0].provider_id.clone());
    }
    assert_eq!(heads, vec!["a", "a", "b", "b", "c", "c", "a"]);
}

#[test]
fn unassigned_providers_get_direct_pools() {
    let mut s = snap();
    s.providers.push(prov("codex-luna"));
    s.providers.push(prov("gpt-4o"));
    let mut other = prov("taken");
    other.wire_format = WireFormat::Anthropic;
    s.providers.push(other);
    s.pools.push(PoolWithMembers {
        pool: Pool {
            id: "taken".into(),
            wire_format: WireFormat::OpenAi,
            created_at: 0,
            strategy: PoolStrategy::Priority,
            sticky_limit: None,
        },
        members: vec![],
    });
    let (pools, members) = direct_pools(&s);
    assert_eq!(pools.len(), 1);
    assert_eq!(pools[0].id, "codex-luna");
    assert_eq!(pools[0].strategy, PoolStrategy::Priority);
    let placed: Vec<(&str, &str, i64)> = members
        .iter()
        .map(|m| (m.pool_id.as_str(), m.provider_id.as_str(), m.priority))
        .collect();
    assert_eq!(placed, vec![("codex-luna", "codex-luna", 1), ("gpt-4o", "gpt-4o", 1)]);
}

#[test]
fn taken_pool_ids_are_a_conflict() {
    match already_exists("gpt-4o") {
        AppError::Conflict(m) => assert_eq!(m, "pool 'gpt-4o' already exists"),
        _ => panic!("expected a conflict"),
    }
}

#[test]
fn a_pool_of_that_name_decides_even_with_a_slash() {
    let mut s = snap();
    s.pools[0].pool.id = "a/x".into();
    let mut rotation = RotationTable::new();
    let sel = select(&s, "a/x", WireFormat::OpenAi, &mut rotation).unwrap();
    assert!(sel.pool.is_some());
    assert!(select(&s, "a/x", WireFormat::Anthropic, &mut rotation).is_none());
}

// ---- states --------------------------------------------------------------

#[test]
fn different_models_get_different_keys() {
    assert_ne!(runtime_key("p1", "model-a"), runtime_key("p1", "model-b"));
}

#[test]
fn key_starts_with_its_provider_prefix() {
    let key = runtime_key("p1", "model-a");
    assert!(key.starts_with(&runtime_key_prefix("p1")));
    assert!(!key.starts_with(&runtime_key_prefix("p")));
}

const NOW: u64 = 1_000_000;

#[test]
fn default_state_is_healthy_and_available() {
    let s = ProviderRuntimeState::default();
    assert_eq!(s.backoff_level, 0);
    assert!(matches!(s.status, ProviderStatus::Healthy));
    assert!(s.is_available(NOW));
}

#[test]
fn retryable_bumps_level_and_cools_down() {
    let mut s = ProviderRuntimeState::default();
    s.record_retryable(60, NOW);
    assert_eq!(s.backoff_level, 1);
    assert!(matches!(s.status, ProviderStatus::Cooling));
    assert!(!s.is_available(NOW));
    assert!(s.is_available(NOW + 61_000));
    assert!(!s.is_available(NOW + 59_999));
    assert!(s.is_available(NOW + 60_000));
}

#[test]
fn success_clears_state() {
    let mut s = ProviderRuntimeState::default();
    s.record_retryable(60, NOW);
    s.record_success();
    assert_eq!(s.backoff_level, 0);
    assert!(matches!(s.status, ProviderStatus::Healthy));
    assert!(s.is_available(NOW));
}

#[test]
fn misconfigured_is_never_available() {
    let mut s = ProviderRuntimeState::default();
    s.mark_misconfigured();
    assert!(matches!(s.status, ProviderStatus::Misconfigured));
    assert!(!s.is_available(NOW + 999_999_000));
}

#[test]
fn misconfigured_is_skipped() {
    let mut st = ProviderRuntimeState::default();
    st.mark_misconfigured();
    assert!(!st.is_available(NOW));
    assert!(matches!(st.status, ProviderStatus::Misconfigured));
}

#[test]
fn backoff_level_stops_at_its_maximum() {
    let mut s = ProviderRuntimeState::default();
    for _ in 0..300 {
        s.record_retryable(1, NOW);
    }
    assert_eq!(s.backoff_level, 255);
}

#[test]
fn resetting_a_provider_leaves_the_others_alone() {
    let mut table = RuntimeTable::new();
    mark_provider_misconfigured(&mut table, "p");
    assert!(worst_provider_state(&table, "p").is_none(), "nothing is known of its models yet");
    for (provider, model) in [("p", "m1"), ("p", "m2"), ("p1", "m1")] {
        table.entry(&runtime_key(provider, model));
    }
    mark_provider_misconfigured(&mut table, "p");
    let status = |t: &RuntimeTable, p: &str, m: &str| t.get(&runtime_key(p, m)).unwrap().status;
    assert_eq!(status(&table, "p", "m1"), ProviderStatus::Misconfigured);
    assert_eq!(status(&table, "p", "m2"), ProviderStatus::Misconfigured);
    assert_eq!(status(&table, "p1", "m1"), ProviderStatus::Healthy);
    reset_provider_to_healthy(&mut table, "p");
    assert_eq!(status(&table, "p", "m1"), ProviderStatus::Healthy);
    assert!(table.get(&runtime_key("q", "m1")).is_none());
}

#[test]
fn the_worst_state_of_a_provider_speaks_for_it() {
    let mut table = RuntimeTable::new();
    let mut cooling = ProviderRuntimeState::default();
    cooling.record_retryable(2, NOW);
    table.set(&runtime_key("p", "m1"), ProviderRuntimeState::default());
    table.set(&runtime_key("p", "m2"), cooling);
    assert_eq!(worst_provider_state(&table, "p").unwrap().status, ProviderStatus::Cooling);
    let mut bad = ProviderRuntimeState::default();
    bad.mark_misconfigured();
    table.set(&runtime_key("p", "m3"), bad);
    assert_eq!(worst_provider_state(&table, "p").unwrap().status, ProviderStatus::Misconfigured);
    assert!(worst_provider_state(&table, "other").is_none());
}

// ---- answers by status ---------------------------------------------------

#[test]
fn cooldown_formula_and_cap() {
    assert_eq!(cooldown_for(1), 2);
    assert_eq!(cooldown_for(2), 4);
    assert_eq!(cooldown_for(3), 8);
    assert_eq!(cooldown_for(15), 300);
    assert_eq!(cooldown_for(99), 300);
    assert_eq!(cooldown_for(0), 2);
}

#[test]
fn classify_success_and_client_errors() {
    assert_eq!(classify(200, None), ErrorClass::Success);
    assert_eq!(classify(401, None), ErrorClass::AuthExpired);
    assert_eq!(classify(400, None), ErrorClass::NonRetryable);
}

#[test]
fn classify_retryable() {
    assert!(matches!(classify(429, None), ErrorClass::Retryable { .. }));
    assert!(matches!(classify(500, None), ErrorClass::Retryable { .. }));
    assert!(matches!(classify(408, None), ErrorClass::Retryable { .. }));
    assert_eq!(classify(429, Some("7")), ErrorClass::Retryable { retry_after: Some(7) });
}

#[test]
fn retry_after_header_seconds_is_parsed_and_capped() {
    assert_eq!(reset_after_from_header(Some("120")), Some(120));
    assert_eq!(reset_after_from_header(Some("999999")), Some(1800));
    assert_eq!(reset_after_from_header(Some(" 5 ")), Some(5));
    assert_eq!(reset_after_from_header(Some("Wed, 21 Oct 2026 07:28:00 GMT")), None);
    assert_eq!(reset_after_from_header(None), None);
}

#[test]
fn app_error_maps_to_status_codes() {
    assert_eq!(AppError::NotFound.status(), 404);
    assert_eq!(AppError::Unauthorized.status(), 401);
    assert_eq!(AppError::BadRequest("x".into()).status(), 400);
    assert_eq!(AppError::Conflict("x".into()).status(), 409);
    assert_eq!(AppError::Internal("x".into()).status(), 500);
    assert_eq!(AppError::PayloadTooLarge("x".into()).status(), 413);
    assert_eq!(AppError::Upstream("x".into()).status(), 502);
    assert_eq!(AppError::Db("x".into()).status(), 500);
}

#[test]
fn validate_path_id_rejects_empty_or_slash_containing_ids() {
    assert!(validate_path_id("codex-sol").is_ok());
    assert!(validate_path_id("").is_err());
    assert!(validate_path_id("   ").is_err());
    assert!(validate_path_id("a/b").is_err());
}

#[test]
fn openai_shape() {
    let j = wire_error(WireFormat::OpenAi, "nope").to_value();
    assert_eq!(j["error"]["message"], "nope");
    assert_eq!(j["error"]["type"], "invalid_request_error");
}

#[test]
fn anthropic_shape() {
    let j = wire_error(WireFormat::Anthropic, "down").to_value();
    assert_eq!(j["type"], "error");
    assert_eq!(j["error"]["message"], "down");
}

// ---- one request ---------------------------------------------------------

fn run(providers: &[&str]) -> ProxyRun {
    ProxyRun::new(
        "pool".into(),
        providers
            .iter()
            .map(|p| Candidate {
                provider_id: p.to_string(),
                model: "m".into(),
                kind: ProviderKind::Passthrough,
            })
            .collect(),
    )
}

fn answered(status: u16) -> Event {
    Event::Answered { status, retry_after: None, latency_ms: 12, has_refresh_token: false }
}

#[test]
fn failing_providers_rest_and_the_next_one_is_asked() {
    let mut table = RuntimeTable::new();
    let mut r = run(&["a", "b"]);
    assert_eq!(r.step(&mut table, Event::Begin, NOW).0, Action::Send);
    let (action, _) = r.step(&mut table, answered(503), NOW);
    assert_eq!(action, Action::ReadBody);
    let (action, log) = r.step(&mut table, Event::Body { text: "busy".into() }, NOW);
    assert_eq!(action, Action::Send);
    assert!(log.is_none() || !log.unwrap().success);
    let a = table.get(&runtime_key("a", "m")).unwrap();
    assert_eq!(a.status, ProviderStatus::Cooling);
    assert_eq!(a.backoff_level, 1);
    assert!(a.is_available(NOW + 2_000));
    let (action, log) = r.step(&mut table, answered(200), NOW);
    assert_eq!(action, Action::Relay);
    let log = log.unwrap();
    assert_eq!(log.provider_id.as_deref(), Some("b"));
    assert_eq!(log.status_code, Some(200));
    assert!(log.success);
    assert_eq!(r.tried, vec!["a", "b"]);

    let mut next = run(&["a", "b"]);
    assert_eq!(next.step(&mut table, Event::Begin, NOW).0, Action::Send);
    assert_eq!(next.tried, vec!["b"], "a resting provider is not asked");
}

#[test]
fn nobody_left_means_giving_up() {
    let mut table = RuntimeTable::new();
    let mut r = run(&["a"]);
    r.step(&mut table, Event::Begin, NOW);
    let (action, log) =
        r.step(&mut table, Event::SendFailed { error: "refused".into(), latency_ms: 3 }, NOW);
    assert_eq!(action, Action::GiveUp);
    assert!(!log.unwrap().success);
    let (status, body) = r.failure(WireFormat::OpenAi);
    assert_eq!(status, 503);
    let body = body.to_value();
    assert_eq!(body["error"]["message"], "upstream request error: refused");

    let mut empty = run(&[]);
    assert_eq!(empty.step(&mut table, Event::Begin, NOW).0, Action::GiveUp);
    assert_eq!(
        empty.failure(WireFormat::Anthropic).1.to_value()["error"]["message"],
        "no provider produced a response"
    );
}

#[test]
fn the_last_backoff_level_rests_longest() {
    let mut table = RuntimeTable::new();
    let mut r = run(&["a"]);
    r.step(&mut table, Event::Begin, NOW);
    let key = runtime_key("a", "m");
    let worn = ProviderRuntimeState { backoff_level: 255, ..Default::default() };
    table.set(&key, worn);
    r.step(&mut table, Event::SendFailed { error: "refused".into(), latency_ms: 3 }, NOW);
    let s = table.get(&key).unwrap();
    assert_eq!(s.backoff_level, 255);
    assert_eq!(s.unavailable_until, Some(NOW + 300_000));
}

#[test]
fn providers_are_asked_in_order_up_to_the_first_that_ends_it() {
    for (statuses, expected, asked) in [
        ([500, 200, 200], Action::Relay, 2),
        ([429, 404, 400], Action::Passthrough, 3),
        ([401, 200, 200], Action::Passthrough, 1),
        ([500, 503, 429], Action::GiveUp, 3),
    ] {
        let ids = ["a", "b", "c"];
        let mut table = RuntimeTable::new();
        let mut r = run(&ids);
        let mut action = r.step(&mut table, Event::Begin, NOW).0;
        while matches!(action, Action::Send | Action::ReadBody) {
            let event = match action {
                Action::Send => answered(statuses[r.current]),
                _ => Event::Body { text: "down".into() },
            };
            action = r.step(&mut table, event, NOW).0;
        }
        assert_eq!(action, expected);
        assert_eq!(r.tried, ids[..asked]);
        let last = table.get(&runtime_key(ids[asked - 1], "m")).unwrap();
        match action {
            Action::Relay => assert_eq!(last, ProviderRuntimeState::default()),
            Action::Passthrough => assert_eq!(last.status, ProviderStatus::Misconfigured),
            _ => assert_eq!(last.status, ProviderStatus::Cooling),
        }
        assert_eq!(debug_headers(&r.tried, "", "").tried, ids[..asked].join(","));
    }
}

#[test]
fn client_errors_are_passed_on() {
    let mut table = RuntimeTable::new();
    let mut r = run(&["a", "b"]);
    r.step(&mut table, Event::Begin, NOW);
    let (action, log) = r.step(&mut table, answered(400), NOW);
    assert_eq!(action, Action::Passthrough);
    assert_eq!(log.unwrap().status_code, Some(400));
    assert_eq!(r.tried, vec!["a"]);
}

#[test]
fn expired_keys_make_a_provider_misconfigured() {
    let mut table = RuntimeTable::new();
    let mut r = run(&["a", "b"]);
    r.step(&mut table, Event::Begin, NOW);
    let (action, log) = r.step(&mut table, answered(401), NOW);
    assert_eq!(action, Action::Passthrough);
    assert!(!log.unwrap().success);
    assert_eq!(
        table.get(&runtime_key("a", "m")).unwrap().status,
        ProviderStatus::Misconfigured
    );
}

#[test]
fn an_expired_login_is_renewed_once() {
    let mut table = RuntimeTable::new();
    let mut r = ProxyRun::new(
        "pool".into(),
        vec![Candidate {
            provider_id: "cx".into(),
            model: "m".into(),
            kind: ProviderKind::OauthCodex,
        }],
    );
    r.step(&mut table, Event::Begin, NOW);
    let (action, _) = r.step(
        &mut table,
        Event::Answered { status: 401, retry_after: None, latency_ms: 1, has_refresh_token: true },
        NOW,
    );
    assert_eq!(action, Action::Refresh);
    assert_eq!(r.step(&mut table, Event::Refreshed, NOW).0, Action::Retry);
    let (action, log) =
        r.step(&mut table, Event::RetryAnswered { status: 200, latency_ms: 9 }, NOW);
    assert_eq!(action, Action::RelayRetry);
    assert!(log.unwrap().success);
    assert_eq!(table.get(&runtime_key("cx", "m")).unwrap().status, ProviderStatus::Healthy);
}

#[test]
fn bodies_say_model_and_streaming() {
    assert_eq!(model_from_body(br#"{"model":"m1"}"#).as_deref(), Some("m1"));
    assert_eq!(model_from_body(br#"{"model":1}"#), None);
    assert_eq!(model_from_body(b"x"), None);
    assert!(client_wants_stream(br#"{"stream":true}"#));
    assert!(!client_wants_stream(br#"{"stream":"yes"}"#));
    assert!(!client_wants_stream(b"x"));
}

#[test]
fn debug_headers_stand_on_one_line() {
    let h = debug_headers(&vec!["a".into(), "b".into()], "b", "line\r\none\ttwo");
    assert_eq!(h.tried, "a,b");
    assert_eq!(h.provider, "b");
    assert_eq!(h.error, "line  one\ttwo");
    let long = debug_headers(&vec![], "", &"\u{e9}".repeat(300));
    assert_eq!(long.tried, "");
    assert_eq!(long.error.chars().count(), 200);
}

#[test]
fn unknown_models_are_named() {
    let (status, j) = unknown_model(WireFormat::OpenAi, "zz");
    assert_eq!(status, 400);
    let j = j.to_value();
    assert_eq!(j["error"]["message"], "unknown model or pool 'zz'");
    let (status, j) = missing_model(WireFormat::Anthropic);
    assert_eq!(status, 400);
    let j = j.to_value();
    assert_eq!(j["error"]["message"], "missing 'model' field");
}

// ---- words and settings --------------------------------------------------

#[test]
fn wire_format_serializes_as_lowercase_text() {
    assert_eq!(WireFormat::OpenAi.as_str(), "openai");
    assert_eq!(WireFormat::Anthropic.as_str(), "anthropic");
    let w = WireFormat::from_word("anthropic").unwrap();
    assert!(matches!(w, WireFormat::Anthropic));
    assert!(WireFormat::from_word("OpenAI").is_none());
}

#[test]
fn provider_kind_serializes_with_snake_case() {
    assert_eq!(ProviderKind::OauthCodex.as_str(), "oauth_codex");
    assert_eq!(ProviderKind::OauthCommandCode.as_str(), "oauth_command_code");
    assert_eq!(ProviderKind::Passthrough.as_str(), "passthrough");
    let command_code = ProviderKind::from_word("oauth_command_code").unwrap();
    assert_eq!(command_code, ProviderKind::OauthCommandCode);
}

#[test]
fn pool_strategy_serializes_as_snake_case() {
    assert_eq!(PoolStrategy::Priority.as_str(), "priority");
    assert_eq!(PoolStrategy::RoundRobin.as_str(), "round_robin");
    let s = PoolStrategy::from_word("round_robin").unwrap();
    assert_eq!(s, PoolStrategy::RoundRobin);
}

#[test]
fn pool_strategy_defaults_to_priority() {
    assert_eq!(PoolStrategy::default(), PoolStrategy::Priority);
}

#[test]
fn provider_and_pool_member_carry_dataset_logging_fields() {
    let p = Provider {
        id: "p1".into(),
        name: "P1".into(),
        wire_format: WireFormat::OpenAi,
        kind: ProviderKind::Passthrough,
        base_url: Some("u".into()),
        api_key: Some("k".into()),
        upstream_model: "m".into(),
        dataset_logging: true,
        created_at: 0,
        updated_at: 0,
    };
    assert!(p.dataset_logging);

    let m = PoolMember {
        pool_id: "pool1".into(),
        provider_id: "p1".into(),
        priority: 1,
        model_override: None,
        dataset_logging_override: Some(false),
    };
    assert_eq!(m.dataset_logging_override, Some(false));
}

#[test]
fn pool_patches_change_what_they_give() {
    let pool = snap_with_strategy(PoolStrategy::RoundRobin, Some(2)).pools.remove(0).pool;
    let (s, l) = patched_strategy(&pool, &PoolPatch { strategy: None, sticky_limit: Some(5) });
    assert_eq!((s, l), (PoolStrategy::RoundRobin, Some(5)));
    let (s, l) =
        patched_strategy(&pool, &PoolPatch { strategy: Some(PoolStrategy::Priority), sticky_limit: None });
    assert_eq!((s, l), (PoolStrategy::Priority, Some(2)));
    assert_eq!(stored_override(&Some(String::new())), None);
    assert_eq!(stored_override(&Some("x".into())).as_deref(), Some("x"));
}

#[test]
fn credentials_come_from_the_provider_and_its_login() {
    let c = Credentials::from_provider_and_oauth(&prov("a"), None);
    assert_eq!(c.api_key.as_deref(), Some("k"));
    assert_eq!(c.access_token, None);
    let c = Credentials::from_provider_and_oauth(
        &prov("a"),
        Some(OAuthState {
            provider_id: "a".into(),
            access_token: Some("at".into()),
            refresh_token: Some("rt".into()),
            id_token: Some("it".into()),
            access_expires_at: Some(9),
            provider_data: Json::text("d"),
            pkce_verifier: None,
            oauth_state: None,
            updated_at: 0,
        }),
    );
    assert_eq!(c.access_token.as_deref(), Some("at"));
    assert_eq!(c.refresh_token.as_deref(), Some("rt"));
    assert_eq!(c.access_expires_at, Some(9));
    assert_eq!(c.provider_data.to_value(), "d");
}
