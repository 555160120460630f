use degu_core::config::AdvisoryConfig;
use degu_core::config::Config;
use degu_core::config::DEFAULT_ADVISORY_TIMEOUT_SECONDS;
use degu_core::config::MAX_ADVISORY_TIMEOUT_SECONDS;
use degu_core::config::MAX_SCAN_CONCURRENCY;

/// Being on is not the same as consulting anybody.
#[test]
fn an_enabled_advisory_consults_nobody_by_default() {
    assert_eq!(Config::default().advisory.command, None);
}

#[test]
fn a_default_configuration_protects_and_disables_nothing() {
    let config = Config::default();
    assert!(config.protect.is_empty());
    assert!(config.roots.is_empty());
    assert!(config.disable.is_empty());
    assert!(config.max_concurrency.is_none());
    assert!(!config.runtime);
    assert_eq!(
        config.advisory,
        AdvisoryConfig {
            enabled: true,
            command: None,
            timeout_seconds: DEFAULT_ADVISORY_TIMEOUT_SECONDS,
        }
    );
    assert!(DEFAULT_ADVISORY_TIMEOUT_SECONDS <= MAX_ADVISORY_TIMEOUT_SECONDS);
    assert_eq!(MAX_SCAN_CONCURRENCY, 256);
}
