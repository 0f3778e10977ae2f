//! Credential resolution: source precedence, caching, saving, and the
//! development `.env` fallback parser.

use dji_log_viewer::dotenv::dotenv_api_key;
use dji_log_viewer::keys::ApiError;
use dji_log_viewer::keys::AppConfig;
use dji_log_viewer::keys::DjiApi;
use dji_log_viewer::keys::resolve_api_key;

fn s(x: &str) -> Option<String> {
    Some(x.to_string())
}

#[test]
fn precedence_env_wins() {
    let r = resolve_api_key(s("from_env"), s("from_config"), s("from_dotenv"));
    assert_eq!(r, Some("from_env".to_string()));
}

#[test]
fn precedence_config_over_dotenv() {
    let r = resolve_api_key(None, s("from_config"), s("from_dotenv"));
    assert_eq!(r, Some("from_config".to_string()));
}

#[test]
fn precedence_dotenv_last() {
    let r = resolve_api_key(None, None, s("from_dotenv"));
    assert_eq!(r, Some("from_dotenv".to_string()));
}

#[test]
fn precedence_nothing_configured() {
    assert_eq!(resolve_api_key(None, None, None), None);
}

#[test]
fn placeholder_env_value_is_absent() {
    let r = resolve_api_key(s("your_api_key_here"), s("from_config"), None);
    assert_eq!(r, Some("from_config".to_string()));
}

#[test]
fn empty_values_are_absent() {
    let r = resolve_api_key(s(""), s(""), s("from_dotenv"));
    assert_eq!(r, Some("from_dotenv".to_string()));
}

#[test]
fn get_api_key_resolves_and_caches() {
    let mut api = DjiApi::new();
    let first = api.get_api_key(s("env_key"), None, None);
    assert_eq!(first, Some("env_key".to_string()));
    // later sources are ignored: the first answer is cached for the lifetime
    let second = api.get_api_key(s("other_key"), s("cfg"), s("dot"));
    assert_eq!(second, Some("env_key".to_string()));
}

#[test]
fn cached_absence_is_not_refreshed() {
    let mut api = DjiApi::new();
    assert_eq!(api.get_api_key(None, None, None), None);
    // a key that appears after first resolution is not picked up in-process
    assert_eq!(api.get_api_key(s("late_key"), None, None), None);
    assert!(!api.has_api_key(s("late_key"), None, None));
}

#[test]
fn has_api_key_reports_presence() {
    let mut api = DjiApi::new();
    assert!(api.has_api_key(None, s("cfg_key"), None));
}

#[test]
fn save_without_storage_location_fails() {
    let api = DjiApi::new();
    let mut config = AppConfig::new();
    let r = api.save_api_key(&mut config, "k");
    assert!(matches!(r, Err(ApiError::ApiKeyNotConfigured)));
    assert!(config.dji_api_key.is_none());
}

#[test]
fn save_merges_key_into_config() {
    let api = DjiApi::with_app_data_dir("appdata".to_string());
    let mut config = AppConfig::new();
    let r = api.save_api_key(&mut config, "fresh_key");
    assert!(r.is_ok());
    assert_eq!(config.dji_api_key, Some("fresh_key".to_string()));
}

#[test]
fn save_does_not_refresh_cache() {
    let mut api = DjiApi::with_app_data_dir("appdata".to_string());
    assert_eq!(api.get_api_key(None, None, None), None);
    let mut config = AppConfig::new();
    api.save_api_key(&mut config, "saved").unwrap();
    // the documented limitation: visible only after a restart
    assert_eq!(api.get_api_key(None, config.dji_api_key.clone(), None), None);
}

#[test]
fn api_error_messages_carry_detail() {
    assert_eq!(
        ApiError::Http("timed out".to_string()).message(),
        "HTTP error: timed out"
    );
    assert_eq!(
        ApiError::ApiResponse("bad id".to_string()).message(),
        "API returned error: bad id"
    );
    assert_eq!(ApiError::ApiKeyNotConfigured.message(), "API key not configured");
    assert_eq!(ApiError::Io("disk".to_string()).message(), "IO error: disk");
}

#[test]
fn dotenv_plain_value() {
    let r = dotenv_api_key(b"DJI_API_KEY=secret123\n");
    assert_eq!(r, Some(b"secret123".to_vec()));
}

#[test]
fn dotenv_skips_other_lines() {
    let r = dotenv_api_key(b"FOO=1\nBAR=2\nDJI_API_KEY=deep\nBAZ=3\n");
    assert_eq!(r, Some(b"deep".to_vec()));
}

#[test]
fn dotenv_strips_double_quotes_and_spaces() {
    let r = dotenv_api_key(b"DJI_API_KEY=  \"quoted value\"  \n");
    assert_eq!(r, Some(b"quoted value".to_vec()));
}

#[test]
fn dotenv_strips_single_quotes() {
    let r = dotenv_api_key(b"DJI_API_KEY='sq'\n");
    assert_eq!(r, Some(b"sq".to_vec()));
}

#[test]
fn dotenv_ignores_placeholder() {
    assert_eq!(dotenv_api_key(b"DJI_API_KEY=your_api_key_here\n"), None);
    assert_eq!(dotenv_api_key(b"DJI_API_KEY=\"your_api_key_here\"\n"), None);
}

#[test]
fn dotenv_ignores_empty_value() {
    assert_eq!(dotenv_api_key(b"DJI_API_KEY=\n"), None);
    assert_eq!(dotenv_api_key(b"DJI_API_KEY=   \n"), None);
}

#[test]
fn dotenv_missing_key_line() {
    assert_eq!(dotenv_api_key(b"OTHER=1\nANOTHER=2"), None);
    assert_eq!(dotenv_api_key(b""), None);
}

#[test]
fn dotenv_last_line_without_newline() {
    let r = dotenv_api_key(b"FOO=1\nDJI_API_KEY=tail");
    assert_eq!(r, Some(b"tail".to_vec()));
}
