use workq::environ_ops::{
    parse_bool, parse_u16, parse_u64, AuthConfig, Config, DatabaseConfig, EnvMap, Environ,
    Environment, RedisConfig, WebConfig,
};

#[test]
fn parse_u64_accepts_digit_strings() {
    assert_eq!(parse_u64("0"), Some(0));
    assert_eq!(parse_u64("42"), Some(42));
    assert_eq!(parse_u64("007"), Some(7));
    assert_eq!(parse_u64("18446744073709551615"), Some(u64::MAX));
    // one leading plus sign is allowed, as in std's integer parsing
    assert_eq!(parse_u64("+42"), "+42".parse::<u64>().ok());
    assert_eq!(parse_u64("+0"), Some(0));
}

#[test]
fn parse_u64_rejects_garbage_and_overflow() {
    assert_eq!(parse_u64(""), None);
    assert_eq!(parse_u64("12a"), None);
    assert_eq!(parse_u64("-1"), None);
    assert_eq!(parse_u64(" 1"), None);
    assert_eq!(parse_u64("18446744073709551616"), None);
    assert_eq!(parse_u64("99999999999999999999999"), None);
    assert_eq!(parse_u64("+"), "+".parse::<u64>().ok());
    assert_eq!(parse_u64("++1"), "++1".parse::<u64>().ok());
}

#[test]
fn parse_u16_bounds() {
    assert_eq!(parse_u16("65535"), Some(65535));
    assert_eq!(parse_u16("65536"), None);
    assert_eq!(parse_u16("8080"), Some(8080));
    assert_eq!(parse_u16("+8080"), Some(8080));
}

#[test]
fn parse_bool_is_exact() {
    assert_eq!(parse_bool("true"), Some(true));
    assert_eq!(parse_bool("false"), Some(false));
    assert_eq!(parse_bool("True"), None);
    assert_eq!(parse_bool("1"), None);
    assert_eq!(parse_bool(""), None);
}

#[test]
fn env_map_shadows_older_entries() {
    let mut env = EnvMap::new();
    assert!(env.get("KEY").is_none());
    env.set("KEY", "one");
    assert_eq!(env.get("KEY").unwrap(), "one");
    env.set("KEY", "two");
    assert_eq!(env.get("KEY").unwrap(), "two");
    env.set("OTHER", "x");
    assert_eq!(env.get("KEY").unwrap(), "two");
}

#[test]
fn database_config_needs_both_variables() {
    let mut env = EnvMap::new();
    env.set("DB_CONNECTION_STRING", "mongodb://localhost");
    assert!(Environ::init::<DatabaseConfig>(&env).is_none());
    env.set("DB_NAME", "app");
    let c = Environ::init::<DatabaseConfig>(&env).unwrap();
    assert_eq!(c.db_connection_string, "mongodb://localhost");
    assert_eq!(c.db_name, "app");
}

#[test]
fn web_config_parses_port_and_defaults_debug() {
    let mut env = EnvMap::new();
    env.set("WEB_APP_PORT", "8080");
    env.set("WEB_APP_IP", "127.0.0.1");
    env.set("LOG_LEVEL", "info");
    let c = WebConfig::from_env(&env).unwrap();
    assert_eq!(c.web_app_port, 8080);
    assert_eq!(c.web_app_ip, "127.0.0.1");
    assert_eq!(c.log_level, "info");
    assert!(!c.allow_debug);

    env.set("ALLOW_DEBUG", "true");
    let c2 = WebConfig::from_env(&env).unwrap();
    assert!(c2.allow_debug);

    env.set("ALLOW_DEBUG", "yes");
    assert!(WebConfig::from_env(&env).is_none());

    env.set("ALLOW_DEBUG", "false");
    env.set("WEB_APP_PORT", "70000");
    assert!(WebConfig::from_env(&env).is_none());
}

#[test]
fn redis_config_parses_ttl() {
    let mut env = EnvMap::new();
    env.set("REDIS_SERVER", "redis://localhost:6379");
    env.set("REDIS_TTL", "3600");
    env.set("REDIS_KEY_PREFIX", "app:");
    let c = RedisConfig::from_env(&env).unwrap();
    assert_eq!(c.redis_server, "redis://localhost:6379");
    assert_eq!(c.redis_ttl, 3600);
    assert_eq!(c.redis_key_prefix, "app:");

    env.set("REDIS_TTL", "soon");
    assert!(RedisConfig::from_env(&env).is_none());
}

#[test]
fn auth_config_requires_every_secret() {
    let mut env = EnvMap::new();
    env.set("GOOGLE_CLIENT_ID", "id");
    env.set("GOOGLE_CLIENT_SECRET", "secret");
    env.set("GOOGLE_AUTH_URI", "https://auth.example");
    env.set("GOOGLE_TOKEN_URI", "https://token.example");
    env.set("GOOGLE_CALLBACK_URI", "https://cb.example");
    assert!(AuthConfig::from_env(&env).is_none());
    env.set("JWT_SECRET", "sssh");
    let c = AuthConfig::from_env(&env).unwrap();
    assert_eq!(c.jwt_secret, "sssh");
    assert!(!c.auth_disabled);
}

#[test]
fn environment_follows_build_flag() {
    assert_eq!(Environment::get_env(true), Environment::Dev);
    assert_eq!(Environment::get_env(false), Environment::Prod);
    assert!(Environment::get_env(true) != Environment::Prod);
}
