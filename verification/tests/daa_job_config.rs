use stellar_analytics::jobs::daily_active_accounts::{
    parse_bool, parse_u64, DaaJobConfig, DEFAULT_DAA_INTERVAL_SECONDS,
};

#[test]
fn unset_environment_gives_enabled_every_900_seconds() {
    let config = DaaJobConfig::from_env_values(None, None);
    assert!(config.enabled);
    assert_eq!(config.interval_seconds, 900);
    assert_eq!(DEFAULT_DAA_INTERVAL_SECONDS, 900);
}

#[test]
fn only_false_disables_the_job() {
    assert!(!DaaJobConfig::from_env_values(Some("false"), None).enabled);
    assert!(DaaJobConfig::from_env_values(Some("true"), None).enabled);
    assert!(DaaJobConfig::from_env_values(Some("FALSE"), None).enabled);
    assert!(DaaJobConfig::from_env_values(Some("0"), None).enabled);
    assert!(DaaJobConfig::from_env_values(Some(""), None).enabled);
}

#[test]
fn interval_is_read_when_it_parses() {
    assert_eq!(DaaJobConfig::from_env_values(None, Some("60")).interval_seconds, 60);
    assert_eq!(DaaJobConfig::from_env_values(None, Some("+60")).interval_seconds, 60);
    assert_eq!(DaaJobConfig::from_env_values(None, Some("0")).interval_seconds, 0);
}

#[test]
fn unparsable_interval_falls_back_to_default() {
    for text in ["", "+", "-5", " 60", "60s", "1e3", "18446744073709551616"] {
        assert_eq!(DaaJobConfig::from_env_values(None, Some(text)).interval_seconds, 900);
    }
}

#[test]
fn parse_u64_agrees_with_std() {
    for text in [
        "0", "007", "+42", "18446744073709551615", "18446744073709551616", "", "+", "++1", "-0",
        "12a", "٣", "99999999999999999999",
    ] {
        assert_eq!(parse_u64(text), text.parse::<u64>().ok(), "{text}");
    }
}

#[test]
fn parse_bool_agrees_with_std() {
    for text in ["true", "false", "True", "1", "", " true"] {
        assert_eq!(parse_bool(text), text.parse::<bool>().ok(), "{text}");
    }
}

#[test]
fn disabled_job_never_ticks() {
    let config = DaaJobConfig { enabled: false, interval_seconds: 30 };
    assert_eq!(config.tick_interval_seconds(), None);
    let config = DaaJobConfig { enabled: true, interval_seconds: 30 };
    assert_eq!(config.tick_interval_seconds(), Some(30));
}
