use shocs_lc::config::{
    optional_time, optional_u64, parse_lifx_id, required_lifx_ids, required_socket_addr,
    required_string, AddrVar, Config, EnvVar, Environment,
};

fn value(text: &str) -> EnvVar {
    EnvVar::Value(text.to_string())
}

fn minimal() -> Environment {
    Environment {
        bind: AddrVar::Address("0.0.0.0:0".to_string()),
        lifx_broadcast: AddrVar::Address("10.0.0.255:56700".to_string()),
        http_bind: AddrVar::Address("127.0.0.1:8080".to_string()),
        database_url: value("postgres://localhost/shocs"),
        controlled_ids: value("0xd073d5abcdef, D0 ,,0X1"),
        discovery_interval_secs: EnvVar::NotPresent,
        state_poll_interval_secs: EnvVar::NotPresent,
        color_interval_secs: EnvVar::NotPresent,
        transition_secs: EnvVar::NotPresent,
        timezone: EnvVar::NotPresent,
        off_time: EnvVar::NotPresent,
        on_time: EnvVar::NotPresent,
    }
}

fn complaint(env: &Environment) -> String {
    match Config::from_env(env) {
        Ok(_) => panic!("accepted"),
        Err(err) => err.message().to_string(),
    }
}

#[test]
fn absent_settings_have_defaults() {
    let config = Config::from_env(&minimal()).unwrap_or_else(|err| panic!("{}", err.message()));
    assert_eq!(config.bind_addr, "0.0.0.0:0");
    assert_eq!(config.lifx_broadcast_addr, "10.0.0.255:56700");
    assert_eq!(config.http_bind_addr, "127.0.0.1:8080");
    assert_eq!(config.database_url, "postgres://localhost/shocs");
    assert_eq!(config.initial_test_ids, vec![0xd073_d5ab_cdef, 0xd0, 1]);
    assert_eq!(config.discovery_interval.as_secs(), 60);
    assert_eq!(config.state_poll_interval.as_secs(), 10);
    assert_eq!(config.color_interval.as_secs(), 600);
    assert_eq!(config.transition.as_secs(), 5);
    assert_eq!(config.timezone.name(), "America/New_York");
    assert_eq!(config.off_time.hours_and_minutes(), "02:00");
    assert_eq!(config.on_time.hours_and_minutes(), "10:00");
    let copy = config.clone();
    assert_eq!(copy.initial_test_ids, config.initial_test_ids);
}

#[test]
fn settings_can_be_given() {
    let mut env = minimal();
    env.discovery_interval_secs = value("7");
    env.state_poll_interval_secs = value("+8");
    env.color_interval_secs = value("9");
    env.transition_secs = value("0");
    env.timezone = value("Europe/Berlin");
    env.off_time = value("23:30");
    env.on_time = value("6:05");
    let config = Config::from_env(&env).unwrap_or_else(|err| panic!("{}", err.message()));
    assert_eq!(config.discovery_interval.as_secs(), 7);
    assert_eq!(config.state_poll_interval.as_secs(), 8);
    assert_eq!(config.color_interval.as_secs(), 9);
    assert!(config.transition.is_zero());
    assert_eq!(config.timezone.name(), "Europe/Berlin");
    assert_eq!(config.off_time.hours_and_minutes(), "23:30");
    assert_eq!(config.on_time.hours_and_minutes(), "06:05");
}

#[test]
fn required_settings_must_be_there() {
    let mut env = minimal();
    env.on_time = value("late");
    env.controlled_ids = EnvVar::NotPresent;
    assert_eq!(
        complaint(&env),
        "required environment variable SHOCS_LC_CONTROLLED_IDS is not set"
    );
    env.database_url = value("  ");
    assert_eq!(complaint(&env), "DATABASE_URL must not be empty");
    env.database_url = EnvVar::NotUnicode("bytes".to_string());
    assert_eq!(complaint(&env), "required environment variable DATABASE_URL is not set");
    env.http_bind = AddrVar::NotSet;
    assert_eq!(complaint(&env), "required environment variable SHOCS_LC_HTTP_BIND is not set");
    env.lifx_broadcast = AddrVar::Refused {
        value: "here".to_string(),
        error: "invalid socket address syntax".to_string(),
    };
    assert_eq!(
        complaint(&env),
        "invalid SHOCS_LC_LIFX_BROADCAST 'here': invalid socket address syntax"
    );
    env.bind = AddrVar::NotSet;
    assert_eq!(complaint(&env), "required environment variable SHOCS_LC_BIND is not set");
}

#[test]
fn bad_settings_are_named() {
    let mut env = minimal();
    env.on_time = value("25:00");
    let refusal = chrono::NaiveTime::parse_from_str("25:00", "%H:%M").unwrap_err();
    assert_eq!(complaint(&env), format!("invalid SHOCS_LC_ON_TIME '25:00': {refusal}"));
    env.off_time = value("x");
    let refusal = chrono::NaiveTime::parse_from_str("x", "%H:%M").unwrap_err();
    assert_eq!(complaint(&env), format!("invalid SHOCS_LC_OFF_TIME 'x': {refusal}"));
    env.timezone = value("Mars");
    assert_eq!(complaint(&env), "invalid SHOCS_LC_TIMEZONE 'Mars'");
    env.transition_secs = EnvVar::NotUnicode("not text".to_string());
    assert_eq!(complaint(&env), "could not read SHOCS_LC_TRANSITION_SECS: not text");
    env.color_interval_secs = value("ten");
    let refusal = "ten".parse::<u64>().unwrap_err();
    assert_eq!(complaint(&env), format!("invalid SHOCS_LC_COLOR_INTERVAL_SECS 'ten': {refusal}"));
}

#[test]
fn intervals_must_be_positive() {
    let mut env = minimal();
    env.color_interval_secs = value("0");
    assert_eq!(complaint(&env), "SHOCS_LC_COLOR_INTERVAL_SECS must be greater than zero");
    env.state_poll_interval_secs = value("0");
    assert_eq!(complaint(&env), "SHOCS_LC_STATE_POLL_INTERVAL_SECS must be greater than zero");
    env.discovery_interval_secs = value("0");
    assert_eq!(complaint(&env), "SHOCS_LC_DISCOVERY_INTERVAL_SECS must be greater than zero");
    env.timezone = value("Mars");
    assert_eq!(complaint(&env), "invalid SHOCS_LC_TIMEZONE 'Mars'");
}

#[test]
fn lists_of_identifiers_are_read_piece_by_piece() {
    let ids = |text: &str| {
        required_lifx_ids("IDS", &value(text)).map_err(|err| err.message().to_string())
    };
    assert_eq!(ids("1,0x2, 0X3 "), Ok(vec![1, 2, 3]));
    assert_eq!(ids("1,1"), Ok(vec![1, 1]));
    let refusal = u64::from_str_radix("q", 16).unwrap_err();
    assert_eq!(ids("1, 0xq ,zz"), Err(format!("invalid LIFX ID '0xq': {refusal}")));
    assert_eq!(ids(" , ,"), Err("IDS must contain at least one LIFX ID".to_string()));
    assert_eq!(ids(""), Err("IDS must contain at least one LIFX ID".to_string()));
}

#[test]
fn single_settings_are_read() {
    assert_eq!(parse_lifx_id("0Xff").ok(), Some(255));
    let refusal = u64::from_str_radix("", 16).unwrap_err();
    assert_eq!(
        parse_lifx_id("0x").unwrap_err().message(),
        format!("invalid LIFX ID '0x': {refusal}")
    );
    assert_eq!(optional_u64("N", &EnvVar::NotPresent, 4).ok(), Some(4));
    assert_eq!(optional_u64("N", &value("12"), 4).ok(), Some(12));
    assert_eq!(
        optional_time("T", &EnvVar::NotUnicode("?".to_string()), "01:02").unwrap().hours_and_minutes(),
        "01:02"
    );
    assert_eq!(required_string("S", &value(" x ")).ok(), Some(" x ".to_string()));
    assert_eq!(
        required_socket_addr("A", &AddrVar::Address("[::1]:80".to_string())).ok(),
        Some("[::1]:80".to_string())
    );
}
