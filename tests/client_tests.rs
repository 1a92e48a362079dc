use std::time::{SystemTime, UNIX_EPOCH};

use flags_rs::cache::{Cache, MemoryCache};
use flags_rs::flag::{Details, FeatureFlag};
use flags_rs::{build_local, ApiResponse, Auth, Client, FlagError, RefreshStart};

fn now_ms() -> i64 {
    SystemTime::now().duration_since(UNIX_EPOCH).unwrap().as_millis() as i64
}

fn record(name: &str, id: &str, enabled: bool) -> FeatureFlag {
    FeatureFlag {
        enabled,
        details: Details { name: name.to_string(), id: id.to_string() },
    }
}

fn test_auth() -> Auth {
    Auth {
        project_id: "test-project".to_string(),
        agent_id: "test-agent".to_string(),
        environment_id: "test-env".to_string(),
    }
}

fn create_test_client() -> Client<MemoryCache> {
    Client::builder()
        .with_base_url("http://127.0.0.1:9")
        .with_auth(test_auth())
        .with_memory_cache()
        .build(now_ms())
        .unwrap()
}

/// Runs one refresh the way the read path does, with `outcome` standing for
/// what the remote fetch returned.
fn refresh_with(
    client: &mut Client<MemoryCache>,
    outcome: Result<ApiResponse, FlagError>,
    local: &Vec<FeatureFlag>,
) -> RefreshStart {
    let now = now_ms();
    let start = client.begin_refresh(now);
    if start == RefreshStart::Fetch {
        let _ = client.finish_refresh(outcome, local, now);
    }
    start
}

#[test]
fn test_client_initialization() {
    let client = Client::builder()
        .with_base_url("https://test-api.example.com")
        .with_max_retries(5)
        .with_auth(test_auth())
        .with_memory_cache()
        .build(now_ms())
        .unwrap();

    assert_eq!(client.base_url(), "https://test-api.example.com");
    assert_eq!(client.max_retries(), 5);
    assert!(client.auth().is_some());
}

#[test]
fn test_flag_enabled_from_api() {
    let mut client = create_test_client();
    let response = ApiResponse {
        interval_allowed: 60,
        flags: vec![record("test-flag", "123", true), record("disabled-flag", "456", false)],
    };
    assert_eq!(refresh_with(&mut client, Ok(response), &vec![]), RefreshStart::Fetch);

    let enabled = client.is("test-flag").enabled();
    assert!(enabled);

    let disabled = client.is("disabled-flag").enabled();
    assert!(!disabled);

    let non_existent = client.is("non-existent-flag").enabled();
    assert!(!non_existent);
}

#[test]
fn test_flag_list() {
    let mut client = create_test_client();
    let response = ApiResponse {
        interval_allowed: 60,
        flags: vec![record("flag1", "123", true), record("flag2", "456", false)],
    };
    refresh_with(&mut client, Ok(response), &vec![]);
    let _ = client.is("flag1").enabled();

    let flags = client.list().unwrap();
    assert_eq!(flags.len(), 2);

    let flag1 = flags.iter().find(|f| f.details.name == "flag1").unwrap();
    assert!(flag1.enabled);
    assert_eq!(flag1.details.id, "123");

    let flag2 = flags.iter().find(|f| f.details.name == "flag2").unwrap();
    assert!(!flag2.enabled);
    assert_eq!(flag2.details.id, "456");
}

#[test]
fn test_local_environment_flags() {
    let vars = vec![
        ("FLAGS_TEST_ENV_FLAG".to_string(), "true".to_string()),
        ("FLAGS_ANOTHER_FLAG".to_string(), "false".to_string()),
    ];
    let local = build_local(&vars);
    let mut client = create_test_client();
    let failure = Err(FlagError::HttpError("connection refused".to_string()));
    refresh_with(&mut client, failure, &local);

    let env_flag = client.is("test_env_flag").enabled();
    assert!(env_flag);

    let another_flag = client.is("another_flag").enabled();
    assert!(!another_flag);

    let env_flag_dash = client.is("test-env-flag").enabled();
    assert!(env_flag_dash);
}

#[test]
fn test_cache_refresh_simple() {
    let mut cache = MemoryCache::new(now_ms());
    let start = now_ms();

    let flags = vec![record("cache-test-flag", "123", true)];
    cache.refresh(&flags, 1, start).unwrap();

    let (enabled, exists) = cache.get("cache-test-flag").unwrap();
    assert!(exists);
    assert!(enabled);

    // Two seconds later the one-second interval has passed.
    let later = start + 2000;
    assert!(cache.should_refresh_cache(later));

    let flags = vec![record("cache-test-flag", "123", false)];
    cache.refresh(&flags, 60, later).unwrap();

    let (enabled, exists) = cache.get("cache-test-flag").unwrap();
    assert!(exists);
    assert!(!enabled);
}

#[test]
fn test_circuit_breaker() {
    let mut client = create_test_client();
    let failure = Err(FlagError::ApiError("Unexpected status code: 500 Internal Server Error".to_string()));
    refresh_with(&mut client, failure, &vec![]);

    let enabled = client.is("circuit-test-flag").enabled();
    assert!(!enabled);

    // One failure is below the retry budget of three.
    let circuit_state = client.circuit_state();
    assert!(!circuit_state.is_open);
}

#[test]
fn test_memory_cache() {
    let mut cache = MemoryCache::new(now_ms());
    let now = now_ms();

    cache.init(now).unwrap();

    let (enabled, exists) = cache.get("test-flag").unwrap();
    assert!(!exists);
    assert!(!enabled);

    let flags = vec![record("test-flag", "123", true)];
    cache.refresh(&flags, 60, now).unwrap();

    let (enabled, exists) = cache.get("test-flag").unwrap();
    assert!(exists);
    assert!(enabled);

    let all_flags = cache.get_all().unwrap();
    assert_eq!(all_flags.len(), 1);
    assert_eq!(all_flags[0].details.name, "test-flag");

    assert!(!cache.should_refresh_cache(now));
}
