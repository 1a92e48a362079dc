use std::time::{SystemTime, UNIX_EPOCH};

use flags_rs::cache::{Cache, CacheSystem, MemoryCache};
use flags_rs::circuit::{CircuitState, COOL_DOWN_MS};
use flags_rs::flag::{Details, FeatureFlag};
use flags_rs::header::{enabled_header, requested_flags};
use flags_rs::merge::{merge_flags, normalize_names};
use flags_rs::text::{blank, contains_char, has_prefix, replace_char, strip_prefixes};
use flags_rs::{build_local, ApiResponse, Auth, Client, FlagError, RefreshStart};

fn now_ms() -> i64 {
    SystemTime::now().duration_since(UNIX_EPOCH).unwrap().as_millis() as i64
}

fn record(name: &str, id: &str, enabled: bool) -> FeatureFlag {
    FeatureFlag {
        enabled,
        details: Details { name: name.to_string(), id: id.to_string() },
    }
}

fn auth(p: &str, a: &str, e: &str) -> Auth {
    Auth { project_id: p.to_string(), agent_id: a.to_string(), environment_id: e.to_string() }
}

fn client_with_retries(retries: u32) -> Client<MemoryCache> {
    Client::builder()
        .with_auth(auth("p", "a", "e"))
        .with_max_retries(retries)
        .build(now_ms())
        .unwrap()
}

fn remote(flags: Vec<FeatureFlag>, interval: i32) -> Result<ApiResponse, FlagError> {
    Ok(ApiResponse { interval_allowed: interval, flags })
}

#[test]
fn single_flight_one_fetch_for_many_callers() {
    let mut client = client_with_retries(3);
    let now = now_ms();
    let mut fetches = 0;
    for _ in 0..8 {
        if client.begin_refresh(now) == RefreshStart::Fetch {
            fetches += 1;
        }
    }
    assert_eq!(fetches, 1);
    assert!(client.is_refreshing());
    client.finish_refresh(remote(vec![record("a", "1", true)], 60), &vec![], now).unwrap();
    assert!(!client.is_refreshing());
    assert_eq!(client.begin_refresh(now), RefreshStart::Fresh);
}

#[test]
fn merge_local_override_disables_remote_flag() {
    let merged = merge_flags(&[record("f", "r", true)], &[record("f", "l", false)]);
    assert_eq!(merged.len(), 1);
    assert!(!merged[0].enabled);
    assert_eq!(merged[0].details.id, "l");

    let mut client = client_with_retries(3);
    let now = now_ms();
    assert_eq!(client.begin_refresh(now), RefreshStart::Fetch);
    client.finish_refresh(remote(vec![record("f", "r", true)], 60), &vec![record("f", "l", false)], now).unwrap();
    assert!(!client.is_enabled("f"));
}

#[test]
fn merge_keeps_remote_and_adds_local() {
    let merged = merge_flags(
        &[record("a", "1", true), record("b", "2", false)],
        &[record("b", "3", true), record("c", "4", true)],
    );
    let names: Vec<&str> = merged.iter().map(|f| f.details.name.as_str()).collect();
    assert_eq!(names, vec!["a", "b", "c"]);
    assert_eq!(merged[1].details.id, "3");
    assert!(merged[1].enabled);
}

#[test]
fn breaker_trips_after_budget_and_heals_after_cool_down() {
    let mut client = client_with_retries(3);
    let mut t = now_ms();
    for attempt in 1..=3u32 {
        assert_eq!(client.begin_refresh(t), RefreshStart::Fetch);
        let failure = Err(FlagError::HttpError("down".to_string()));
        assert!(client.finish_refresh(failure, &vec![], t).is_err());
        assert_eq!(client.circuit_state().failure_count, attempt);
        assert_eq!(client.circuit_state().is_open, attempt == 3);
        // The fallback snapshot lasts sixty seconds; step past it.
        t += 61_000;
    }
    let last = t - 61_000;
    // Within the cool-down nothing is fetched.
    assert_ne!(client.begin_refresh(last + COOL_DOWN_MS - 1), RefreshStart::Fetch);
    assert!(client.circuit_state().is_open);
    // Once the snapshot is stale and the cool-down over, one fetch starts.
    assert_eq!(client.begin_refresh(last + 61_000), RefreshStart::Fetch);
    assert_eq!(client.begin_refresh(last + 61_000), RefreshStart::Busy);
    assert!(!client.circuit_state().is_open);
    assert_eq!(client.circuit_state().failure_count, 0);
}

#[test]
fn breaker_within_cool_down_makes_no_attempt() {
    let mut c = CircuitState::new();
    assert!(!c.record_failure(1_000, 2));
    assert!(c.record_failure(2_000, 2));
    assert_eq!(c.last_failure, Some(2_000));
    assert!(!c.allow_attempt(2_000 + 9_999));
    assert!(c.is_open);
    assert!(c.allow_attempt(2_000 + 10_000));
    c.record_success();
    assert_eq!(c.failure_count, 0);
    assert!(!c.is_open);
}

#[test]
fn staleness_follows_the_interval() {
    let mut cache = MemoryCache::new(now_ms());
    let t = now_ms();
    assert!(cache.should_refresh_cache(t));
    cache.refresh(&[record("x", "1", true)], 1, t).unwrap();
    assert!(!cache.should_refresh_cache(t));
    assert!(!cache.should_refresh_cache(t + 1000));
    assert!(cache.should_refresh_cache(t + 1001));
    assert_eq!(cache.cache_ttl(), 1);

    let mut client = client_with_retries(3);
    assert_eq!(client.begin_refresh(t), RefreshStart::Fetch);
    client.finish_refresh(remote(vec![], 1), &vec![], t).unwrap();
    assert_eq!(client.begin_refresh(t), RefreshStart::Fresh);
    assert_eq!(client.begin_refresh(t + 1500), RefreshStart::Fetch);
    client.finish_refresh(remote(vec![], 60), &vec![], t + 1500).unwrap();
    assert_eq!(client.begin_refresh(t + 1500), RefreshStart::Fresh);
}

#[test]
fn unknown_flag_on_empty_snapshot_is_disabled() {
    let client = client_with_retries(3);
    assert!(!client.is_enabled("unknown-flag"));
    assert!(client.list().unwrap().is_empty());
}

#[test]
fn batch_reads_one_snapshot() {
    let mut client = client_with_retries(3);
    let t = now_ms();
    let mut refreshes = 0;
    if client.begin_refresh(t) == RefreshStart::Fetch {
        refreshes += 1;
        client
            .finish_refresh(remote(vec![record("a", "1", true), record("b", "2", false)], 60), &vec![], t)
            .unwrap();
    }
    let result = client.get_multiple(&["a", "B", "missing"]);
    assert_eq!(refreshes, 1);
    assert_eq!(
        result,
        vec![("a".to_string(), true), ("B".to_string(), false), ("missing".to_string(), false)]
    );
    assert!(client.any_enabled(&["b", "a"]));
    assert!(!client.all_enabled(&["b", "a"]));
    assert!(client.all_enabled(&["A"]));
    assert!(!client.any_enabled(&["b", "missing"]));
}

#[test]
fn empty_batches_are_vacuous() {
    let client = client_with_retries(3);
    assert!(client.all_enabled(&[]));
    assert!(!client.any_enabled(&[]));
    assert!(client.get_multiple(&[]).is_empty());
}

#[test]
fn remote_names_are_lowercased() {
    let lowered = normalize_names(&[record("Test-FLAG", "7", true)]);
    assert_eq!(lowered[0].details.name, "test-flag");
    assert_eq!(lowered[0].details.id, "7");

    let mut client = client_with_retries(3);
    let t = now_ms();
    client.begin_refresh(t);
    client.finish_refresh(remote(vec![record("Mixed", "1", true)], 60), &vec![], t).unwrap();
    assert!(client.is_enabled("MIXED"));
    assert_eq!(client.list().unwrap()[0].details.name, "mixed");
}

#[test]
fn failed_fetch_falls_back_to_local_overrides() {
    let mut client = client_with_retries(3);
    let t = now_ms();
    client.begin_refresh(t);
    client.finish_refresh(remote(vec![record("r", "1", true)], 60), &vec![], t).unwrap();
    assert!(client.is_enabled("r"));
    let later = t + 61_000;
    assert_eq!(client.begin_refresh(later), RefreshStart::Fetch);
    let err = client
        .finish_refresh(Err(FlagError::ApiError("503".to_string())), &vec![record("l", "2", true)], later)
        .unwrap_err();
    assert_eq!(err.message(), "API error: 503");
    assert!(!client.is_enabled("r"));
    assert!(client.is_enabled("l"));
    assert!(!client.cache().should_refresh_cache(later + 60_000));
    assert!(client.cache().should_refresh_cache(later + 60_001));
}

#[test]
fn local_overrides_spellings() {
    let vars = vec![
        ("FLAGS_MY_FEATURE".to_string(), "true".to_string()),
        ("OTHER".to_string(), "true".to_string()),
        ("FLAGS_plain".to_string(), "TRUE".to_string()),
        ("FLAGS_a-b".to_string(), "true".to_string()),
        ("FLAGS_FLAGS_X".to_string(), "true".to_string()),
    ];
    let local = build_local(&vars);
    let names: Vec<(&str, &str, bool)> = local
        .iter()
        .map(|f| (f.details.name.as_str(), f.details.id.as_str(), f.enabled))
        .collect();
    assert_eq!(
        names,
        vec![
            ("my_feature", "local_my_feature", true),
            ("my-feature", "local_my-feature", true),
            ("my feature", "local_my feature", true),
            ("plain", "local_plain", false),
            ("a-b", "local_a-b", true),
            ("a b", "local_a b", true),
            ("x", "local_x", true),
        ]
    );
}

#[test]
fn builder_defaults_and_errors() {
    let client = Client::builder().build(now_ms()).unwrap();
    assert_eq!(client.base_url(), "https://api.flags.gg");
    assert_eq!(client.max_retries(), 3);
    assert!(client.auth().is_none());
    assert!(!client.circuit_state().is_open);

    let cases = vec![
        (auth(" ", "a", "e"), "https://x", 3, "Project ID cannot be empty"),
        (auth("p", "", "e"), "https://x", 3, "Agent ID cannot be empty"),
        (auth("p", "a", "\t"), "https://x", 3, "Environment ID cannot be empty"),
        (auth("p", "a", "e"), "   ", 3, "Base URL cannot be empty"),
        (auth("p", "a", "e"), "https://x", 11, "Max retries cannot exceed 10"),
    ];
    for (a, url, retries, why) in cases {
        let r = Client::builder().with_auth(a).with_base_url(url).with_max_retries(retries).build(now_ms());
        match r {
            Err(FlagError::BuilderError(m)) => assert_eq!(m, why),
            _ => panic!("expected a builder error: {}", why),
        }
    }
    assert!(Client::builder().with_max_retries(10).with_file_name("flags.db").build(now_ms()).is_ok());
}

#[test]
fn missing_auth_is_an_auth_error() {
    let client = Client::builder().build(now_ms()).unwrap();
    match client.required_auth() {
        Err(e) => assert_eq!(e.message(), "Missing authentication: Authentication is required"),
        Ok(_) => panic!("no identity was configured"),
    }
    let with = client_with_retries(3);
    assert_eq!(with.required_auth().unwrap().project_id, "p");
}

#[test]
fn error_messages() {
    assert_eq!(FlagError::HttpError("x".to_string()).message(), "HTTP error: x");
    assert_eq!(FlagError::CacheError("x".to_string()).message(), "Cache error: x");
    assert_eq!(FlagError::AuthError("x".to_string()).message(), "Missing authentication: x");
    assert_eq!(FlagError::ApiError("x".to_string()).message(), "API error: x");
    assert_eq!(FlagError::BuilderError("x".to_string()).message(), "Builder error: x");
}

#[test]
fn header_values() {
    assert_eq!(requested_flags("feature-1, feature-2 ,feature-3"), vec!["feature-1", "feature-2", "feature-3"]);
    assert_eq!(requested_flags("single"), vec!["single"]);
    assert_eq!(requested_flags(""), vec![""]);
    assert_eq!(requested_flags("a,,b"), vec!["a", "", "b"]);
    assert_eq!(enabled_header(&vec![]), None);
    assert_eq!(enabled_header(&vec!["x".to_string()]), Some("x".to_string()));
    assert_eq!(
        enabled_header(&vec!["feature-1".to_string(), "feature-3".to_string()]),
        Some("feature-1,feature-3".to_string())
    );
}

#[test]
fn text_helpers() {
    assert!(has_prefix("FLAGS_X", "FLAGS_"));
    assert!(!has_prefix("FLAG", "FLAGS_"));
    assert_eq!(strip_prefixes("abababc", "ab"), "c");
    assert!(contains_char("a_b", '_'));
    assert!(!contains_char("ab", '_'));
    assert_eq!(replace_char("a_b_c", '_', "-"), "a-b-c");
    assert!(blank(" \t\n"));
    assert!(blank(""));
    assert!(!blank(" x "));
}

#[test]
fn cache_keeps_last_record_of_a_name() {
    let mut cache = MemoryCache::new(now_ms());
    let t = now_ms();
    cache
        .refresh(&[record("d", "1", true), record("e", "2", true), record("d", "3", false)], 60, t)
        .unwrap();
    assert_eq!(cache.get("d").unwrap(), (false, true));
    let all = cache.get_all().unwrap();
    assert_eq!(all.len(), 2);
    cache.init(t).unwrap();
    assert!(cache.should_refresh_cache(t - 89_999));
    assert!(!cache.should_refresh_cache(t - 90_000));
    assert_eq!(cache.cache_ttl(), 60);
    assert_eq!(cache.get("e").unwrap(), (true, true));
    let _system = CacheSystem::new(cache);
}

#[test]
fn new_store_is_already_stale() {
    let t = now_ms();
    let cache = MemoryCache::new(t);
    assert!(cache.get_all().unwrap().is_empty());
    assert_eq!(cache.cache_ttl(), 60);
    assert!(cache.should_refresh_cache(t));
    assert!(cache.should_refresh_cache(t - 89_999));
    assert!(!cache.should_refresh_cache(t - 90_000));
}

#[test]
fn new_client_fetches_on_first_lookup() {
    let t = now_ms();
    let mut client = Client::builder().with_auth(auth("p", "a", "e")).build(t).unwrap();
    assert_eq!(client.begin_refresh(t), RefreshStart::Fetch);
    assert_eq!(client.begin_refresh(t), RefreshStart::Busy);
}

#[test]
fn missing_auth_message_is_exact() {
    let client = Client::builder().build(now_ms()).unwrap();
    match client.required_auth() {
        Err(FlagError::AuthError(m)) => assert_eq!(m, "Authentication is required"),
        _ => panic!("expected an authentication error"),
    }
}
