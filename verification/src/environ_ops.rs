use vstd::prelude::*;

use crate::store::str_eq;

verus! {

/// A snapshot of environment variables, handed in by the host program:
/// name-value pairs, where the first matching name wins.
pub struct EnvMap {
    pub entries: Vec<(String, String)>,
}

/// First value paired with `key` in `entries`, scanning front to back.
pub open spec fn lookup_in(entries: Seq<(String, String)>, key: Seq<char>) -> Option<Seq<char>>
    decreases entries.len(),
{
    if entries.len() == 0 {
        None
    } else if entries[0].0@ == key {
        Some(entries[0].1@)
    } else {
        lookup_in(entries.drop_first(), key)
    }
}

impl EnvMap {
    pub open spec fn lookup(self, key: Seq<char>) -> Option<Seq<char>> {
        lookup_in(self.entries@, key)
    }

    /// A snapshot with no variables.
    pub fn new() -> (r: EnvMap)
        ensures
            forall|k: Seq<char>| r.lookup(k) is None,
    {
        let r = EnvMap { entries: Vec::new() };
        proof {
            assert(forall|k: Seq<char>| r.lookup(k) is None);
        }
        r
    }

    /// Defines a variable; an earlier definition of the same name is
    /// shadowed.
    pub fn set(&mut self, key: &str, value: &str)
        ensures
            final(self).lookup(key@) == Some(value@),
            forall|k: Seq<char>| k != key@ ==> final(self).lookup(k) == old(self).lookup(k),
    {
        self.entries.insert(0, (key.to_owned(), value.to_owned()));
        proof {
            assert(self.entries@[0].0@ == key@);
            assert(self.entries@[0].1@ == value@);
            assert(self.entries@.drop_first() =~= old(self).entries@);
        }
    }

    /// Looks a variable up.
    pub fn get(&self, key: &str) -> (r: Option<String>)
        ensures
            match r {
                Some(v) => self.lookup(key@) == Some(v@),
                None => self.lookup(key@) is None,
            },
    {
        let n = self.entries.len();
        let mut i: usize = 0;
        proof {
            assert(self.entries@.skip(0) =~= self.entries@);
        }
        while i < n
            invariant
                n == self.entries@.len(),
                i <= n,
                lookup_in(self.entries@, key@) == lookup_in(
                    self.entries@.skip(i as int),
                    key@,
                ),
            decreases n - i,
        {
            let hit = str_eq(self.entries[i].0.as_str(), key);
            proof {
                assert(self.entries@.skip(i as int)[0] == self.entries@[i as int]);
                assert(self.entries@.skip(i as int).drop_first() =~= self.entries@.skip(
                    i + 1 as int,
                ));
            }
            if hit {
                return Some(self.entries[i].1.clone());
            }
            i += 1;
        }
        proof {
            assert(self.entries@.skip(n as int).len() == 0);
        }
        None
    }
}

/// The character is a decimal digit.
pub open spec fn is_digit(c: char) -> bool {
    48 <= c as u32 <= 57
}

/// Numeric value of one digit character.
pub open spec fn digit_of(c: char) -> int {
    c as u32 - 48
}

pub open spec fn all_digits(s: Seq<char>) -> bool {
    forall|i: int| 0 <= i < s.len() ==> is_digit(#[trigger] s[i])
}

/// The number a digit string denotes.
pub open spec fn digits_val(s: Seq<char>) -> int
    decreases s.len(),
{
    if s.len() == 0 {
        0
    } else {
        digits_val(s.drop_last()) * 10 + digit_of(s.last())
    }
}

/// The digit portion of a number text: as in std's integer parsing,
/// one leading plus sign is allowed and ignored.
pub open spec fn unsigned_digits(s: Seq<char>) -> Seq<char> {
    if s.len() > 0 && s[0] == '+' {
        s.drop_first()
    } else {
        s
    }
}

/// What parsing an unsigned 64-bit number from text yields: after an
/// optional plus sign, the text must be non-empty, all digits, and
/// denote a value in range.
pub open spec fn parsed_u64(s: Seq<char>) -> Option<u64> {
    let digits = unsigned_digits(s);
    if digits.len() > 0 && all_digits(digits) && digits_val(digits) <= u64::MAX {
        Some(digits_val(digits) as u64)
    } else {
        None
    }
}

/// Same, for a 16-bit number.
pub open spec fn parsed_u16(s: Seq<char>) -> Option<u16> {
    let digits = unsigned_digits(s);
    if digits.len() > 0 && all_digits(digits) && digits_val(digits) <= u16::MAX {
        Some(digits_val(digits) as u16)
    } else {
        None
    }
}

/// What parsing a boolean from text yields: exactly "true" or "false".
pub open spec fn parsed_bool(s: Seq<char>) -> Option<bool> {
    if s == "true"@ {
        Some(true)
    } else if s == "false"@ {
        Some(false)
    } else {
        None
    }
}

proof fn lemma_digits_val_nonneg(s: Seq<char>)
    requires
        all_digits(s),
    ensures
        digits_val(s) >= 0,
    decreases s.len(),
{
    if s.len() > 0 {
        assert(all_digits(s.drop_last())) by {
            assert(forall|i: int| 0 <= i < s.len() - 1 ==> s.drop_last()[i] == s[i]);
        }
        lemma_digits_val_nonneg(s.drop_last());
        assert(is_digit(s.last()));
    }
}

/// A digit string denotes at least as much as any of its prefixes.
proof fn lemma_digits_val_prefix(s: Seq<char>, j: int)
    requires
        all_digits(s),
        0 <= j <= s.len(),
    ensures
        digits_val(s.take(j)) <= digits_val(s),
    decreases s.len() - j,
{
    if j == s.len() {
        assert(s.take(j) =~= s);
    } else {
        lemma_digits_val_prefix(s, j + 1);
        assert(s.take(j + 1).drop_last() =~= s.take(j));
        assert(s.take(j + 1).last() == s[j]);
        assert(all_digits(s.take(j))) by {
            assert(forall|i: int| 0 <= i < j ==> s.take(j)[i] == s[i]);
        }
        lemma_digits_val_nonneg(s.take(j));
        assert(is_digit(s[j]));
        assert(digits_val(s.take(j)) <= digits_val(s.take(j + 1)));
    }
}

/// Parses an unsigned 64-bit number, rejecting anything that is not a
/// digit string (after an optional plus sign) or does not fit.
pub fn parse_u64(s: &str) -> (r: Option<u64>)
    ensures
        r == parsed_u64(s@),
{
    let len = s.unicode_len();
    let start: usize = if len > 0 && s.get_char(0) == '+' {
        1
    } else {
        0
    };
    let ghost digits = unsigned_digits(s@);
    proof {
        assert(digits =~= s@.skip(start as int));
    }
    if len == start {
        return None;
    }
    let mut acc: u64 = 0;
    let mut i: usize = start;
    proof {
        assert(digits.take(0) =~= Seq::<char>::empty());
    }
    while i < len
        invariant
            len == s@.len(),
            start <= i <= len,
            start <= 1,
            digits == unsigned_digits(s@),
            digits == s@.skip(start as int),
            all_digits(digits.take(i - start)),
            acc == digits_val(digits.take(i - start)),
        decreases len - i,
    {
        let c = s.get_char(i);
        let code = c as u32;
        proof {
            assert(digits[i - start] == s@[i as int]);
            assert(digits.take(i - start + 1).drop_last() =~= digits.take(i - start));
            assert(digits.take(i - start + 1).last() == digits[i - start]);
        }
        if code < 48 || code > 57 {
            proof {
                assert(!is_digit(digits[i - start]));
                assert(!all_digits(digits));
            }
            return None;
        }
        let d = (code - 48) as u64;
        if acc > (u64::MAX - d) / 10 {
            proof {
                assert(all_digits(digits.take(i - start + 1)));
                assert(digits_val(digits.take(i - start + 1)) == acc * 10 + d);
                assert(acc * 10 + d > u64::MAX) by (nonlinear_arith)
                    requires
                        acc > (u64::MAX - d) / 10,
                        d <= 9,
                ;
                if all_digits(digits) {
                    lemma_digits_val_prefix(digits, i - start + 1);
                    assert(digits_val(digits) > u64::MAX);
                }
            }
            return None;
        }
        proof {
            assert(acc * 10 + d <= u64::MAX) by (nonlinear_arith)
                requires
                    acc <= (u64::MAX - d) / 10,
                    d <= 9,
            ;
        }
        acc = acc * 10 + d;
        i += 1;
    }
    proof {
        assert(digits.take(len - start) =~= digits);
    }
    Some(acc)
}

/// Parses an unsigned 16-bit number.
pub fn parse_u16(s: &str) -> (r: Option<u16>)
    ensures
        r == parsed_u16(s@),
{
    let wide = parse_u64(s);
    match wide {
        Some(v) => {
            proof {
                lemma_digits_val_nonneg(unsigned_digits(s@));
                assert(digits_val(unsigned_digits(s@)) == v as int);
            }
            if v <= 65535 {
                Some(v as u16)
            } else {
                None
            }
        },
        None => {
            proof {
                let digits = unsigned_digits(s@);
                if digits.len() > 0 && all_digits(digits) && digits_val(digits) <= u16::MAX {
                    assert(digits_val(digits) <= u64::MAX);
                }
            }
            None
        },
    }
}

/// Parses a boolean: exactly "true" or "false".
pub fn parse_bool(s: &str) -> (r: Option<bool>)
    ensures
        r == parsed_bool(s@),
{
    if str_eq(s, "true") {
        Some(true)
    } else if str_eq(s, "false") {
        Some(false)
    } else {
        None
    }
}

/// A configuration section that can be read out of an environment
/// snapshot. Reading reports None when a required variable is missing
/// or malformed; what exactly each section reads is stated by its
/// `env_spec`.
pub trait Config: Sized {
    /// What reading this section from the snapshot yields.
    spec fn env_spec(env: EnvMap, r: Option<Self>) -> bool;

    fn from_env(env: &EnvMap) -> (r: Option<Self>)
        ensures
            Self::env_spec(*env, r),
    ;
}

/// Connection settings for the document store.
#[derive(Debug, Clone)]
pub struct DatabaseConfig {
    pub db_connection_string: String,
    pub db_name: String,
}

/// Settings of the web front end.
#[derive(Debug, Clone)]
pub struct WebConfig {
    pub web_app_port: u16,
    pub web_app_ip: String,
    pub log_level: String,
    pub allow_debug: bool,
}

/// Settings of the sign-in flow.
#[derive(Debug, Clone)]
pub struct AuthConfig {
    pub google_client_id: String,
    pub google_client_secret: String,
    pub google_auth_uri: String,
    pub google_token_uri: String,
    pub google_callback_uri: String,
    pub jwt_secret: String,
    pub auth_disabled: bool,
}

/// Settings of the list-oriented store that backs the queues and the
/// cache.
#[derive(Debug, Clone)]
pub struct RedisConfig {
    pub redis_server: String,
    pub redis_ttl: u64,
    pub redis_key_prefix: String,
}

impl DatabaseConfig {
    /// Reads the section; both variables are required.
    pub fn read_env(env: &EnvMap) -> (r: Option<DatabaseConfig>)
        ensures
            <DatabaseConfig as Config>::env_spec(*env, r),
    {
        let conn = env.get("DB_CONNECTION_STRING");
        let name = env.get("DB_NAME");
        match (conn, name) {
            (Some(db_connection_string), Some(db_name)) => Some(
                DatabaseConfig { db_connection_string, db_name },
            ),
            _ => None,
        }
    }
}

impl Config for DatabaseConfig {
    open spec fn env_spec(env: EnvMap, r: Option<DatabaseConfig>) -> bool {
        match r {
            Some(c) => {
                &&& env.lookup("DB_CONNECTION_STRING"@) == Some(c.db_connection_string@)
                &&& env.lookup("DB_NAME"@) == Some(c.db_name@)
            },
            None => env.lookup("DB_CONNECTION_STRING"@) is None || env.lookup("DB_NAME"@) is None,
        }
    }

    fn from_env(env: &EnvMap) -> (r: Option<DatabaseConfig>) {
        DatabaseConfig::read_env(env)
    }
}

impl WebConfig {
    /// Reads the section. The port must be a 16-bit number; the debug
    /// switch defaults to false when absent and must otherwise be
    /// exactly "true" or "false".
    pub fn read_env(env: &EnvMap) -> (r: Option<WebConfig>)
        ensures
            <WebConfig as Config>::env_spec(*env, r),
    {
        let port_text = env.get("WEB_APP_PORT");
        let web_app_ip = env.get("WEB_APP_IP");
        let log_level = env.get("LOG_LEVEL");
        let debug_text = env.get("ALLOW_DEBUG");
        let web_app_port = match port_text {
            Some(p) => match parse_u16(p.as_str()) {
                Some(v) => v,
                None => {
                    return None;
                },
            },
            None => {
                return None;
            },
        };
        let allow_debug = match debug_text {
            Some(b) => match parse_bool(b.as_str()) {
                Some(v) => v,
                None => {
                    return None;
                },
            },
            None => false,
        };
        match (web_app_ip, log_level) {
            (Some(web_app_ip), Some(log_level)) => Some(
                WebConfig { web_app_port, web_app_ip, log_level, allow_debug },
            ),
            _ => None,
        }
    }
}

impl Config for WebConfig {
    open spec fn env_spec(env: EnvMap, r: Option<WebConfig>) -> bool {
        match r {
            Some(c) => {
                &&& match env.lookup("WEB_APP_PORT"@) {
                    Some(p) => parsed_u16(p) == Some(c.web_app_port),
                    None => false,
                }
                &&& env.lookup("WEB_APP_IP"@) == Some(c.web_app_ip@)
                &&& env.lookup("LOG_LEVEL"@) == Some(c.log_level@)
                &&& match env.lookup("ALLOW_DEBUG"@) {
                    Some(b) => parsed_bool(b) == Some(c.allow_debug),
                    None => c.allow_debug == false,
                }
            },
            None => {
                ||| env.lookup("WEB_APP_PORT"@) is None
                ||| (env.lookup("WEB_APP_PORT"@) matches Some(p) && parsed_u16(p) is None)
                ||| env.lookup("WEB_APP_IP"@) is None
                ||| env.lookup("LOG_LEVEL"@) is None
                ||| (env.lookup("ALLOW_DEBUG"@) matches Some(b) && parsed_bool(b) is None)
            },
        }
    }

    fn from_env(env: &EnvMap) -> (r: Option<WebConfig>) {
        WebConfig::read_env(env)
    }
}

impl AuthConfig {
    /// Reads the section. Every URI and secret is required; the
    /// auth-disabled switch defaults to false when absent.
    pub fn read_env(env: &EnvMap) -> (r: Option<AuthConfig>)
        ensures
            <AuthConfig as Config>::env_spec(*env, r),
    {
        let google_client_id = env.get("GOOGLE_CLIENT_ID");
        let google_client_secret = env.get("GOOGLE_CLIENT_SECRET");
        let google_auth_uri = env.get("GOOGLE_AUTH_URI");
        let google_token_uri = env.get("GOOGLE_TOKEN_URI");
        let google_callback_uri = env.get("GOOGLE_CALLBACK_URI");
        let jwt_secret = env.get("JWT_SECRET");
        let disabled_text = env.get("AUTH_DISABLED");
        let auth_disabled = match disabled_text {
            Some(b) => match parse_bool(b.as_str()) {
                Some(v) => v,
                None => {
                    return None;
                },
            },
            None => false,
        };
        match (
            google_client_id,
            google_client_secret,
            google_auth_uri,
            google_token_uri,
            google_callback_uri,
            jwt_secret,
        ) {
            (
                Some(google_client_id),
                Some(google_client_secret),
                Some(google_auth_uri),
                Some(google_token_uri),
                Some(google_callback_uri),
                Some(jwt_secret),
            ) => Some(
                AuthConfig {
                    google_client_id,
                    google_client_secret,
                    google_auth_uri,
                    google_token_uri,
                    google_callback_uri,
                    jwt_secret,
                    auth_disabled,
                },
            ),
            _ => None,
        }
    }
}

impl Config for AuthConfig {
    open spec fn env_spec(env: EnvMap, r: Option<AuthConfig>) -> bool {
        match r {
            Some(c) => {
                &&& env.lookup("GOOGLE_CLIENT_ID"@) == Some(c.google_client_id@)
                &&& env.lookup("GOOGLE_CLIENT_SECRET"@) == Some(c.google_client_secret@)
                &&& env.lookup("GOOGLE_AUTH_URI"@) == Some(c.google_auth_uri@)
                &&& env.lookup("GOOGLE_TOKEN_URI"@) == Some(c.google_token_uri@)
                &&& env.lookup("GOOGLE_CALLBACK_URI"@) == Some(c.google_callback_uri@)
                &&& env.lookup("JWT_SECRET"@) == Some(c.jwt_secret@)
                &&& match env.lookup("AUTH_DISABLED"@) {
                    Some(b) => parsed_bool(b) == Some(c.auth_disabled),
                    None => c.auth_disabled == false,
                }
            },
            None => {
                ||| env.lookup("GOOGLE_CLIENT_ID"@) is None
                ||| env.lookup("GOOGLE_CLIENT_SECRET"@) is None
                ||| env.lookup("GOOGLE_AUTH_URI"@) is None
                ||| env.lookup("GOOGLE_TOKEN_URI"@) is None
                ||| env.lookup("GOOGLE_CALLBACK_URI"@) is None
                ||| env.lookup("JWT_SECRET"@) is None
                ||| (env.lookup("AUTH_DISABLED"@) matches Some(b) && parsed_bool(b) is None)
            },
        }
    }

    fn from_env(env: &EnvMap) -> (r: Option<AuthConfig>) {
        AuthConfig::read_env(env)
    }
}

impl RedisConfig {
    /// Reads the section. The time-to-live must be a 64-bit number.
    pub fn read_env(env: &EnvMap) -> (r: Option<RedisConfig>)
        ensures
            <RedisConfig as Config>::env_spec(*env, r),
    {
        let redis_server = env.get("REDIS_SERVER");
        let ttl_text = env.get("REDIS_TTL");
        let redis_key_prefix = env.get("REDIS_KEY_PREFIX");
        let redis_ttl = match ttl_text {
            Some(t) => match parse_u64(t.as_str()) {
                Some(v) => v,
                None => {
                    return None;
                },
            },
            None => {
                return None;
            },
        };
        match (redis_server, redis_key_prefix) {
            (Some(redis_server), Some(redis_key_prefix)) => Some(
                RedisConfig { redis_server, redis_ttl, redis_key_prefix },
            ),
            _ => None,
        }
    }
}

impl Config for RedisConfig {
    open spec fn env_spec(env: EnvMap, r: Option<RedisConfig>) -> bool {
        match r {
            Some(c) => {
                &&& env.lookup("REDIS_SERVER"@) == Some(c.redis_server@)
                &&& match env.lookup("REDIS_TTL"@) {
                    Some(t) => parsed_u64(t) == Some(c.redis_ttl),
                    None => false,
                }
                &&& env.lookup("REDIS_KEY_PREFIX"@) == Some(c.redis_key_prefix@)
            },
            None => {
                ||| env.lookup("REDIS_SERVER"@) is None
                ||| env.lookup("REDIS_TTL"@) is None
                ||| (env.lookup("REDIS_TTL"@) matches Some(t) && parsed_u64(t) is None)
                ||| env.lookup("REDIS_KEY_PREFIX"@) is None
            },
        }
    }

    fn from_env(env: &EnvMap) -> (r: Option<RedisConfig>) {
        RedisConfig::read_env(env)
    }
}

/// Entry point for reading configuration sections out of an environment
/// snapshot.
pub struct Environ {}

impl Environ {
    /// Reads the configuration section of the requested type: pure
    /// forwarding to that section's `Config::from_env`, whose result is
    /// pinned down by the section's `env_spec`.
    pub fn init<C: Config>(env: &EnvMap) -> (r: Option<C>)
        ensures
            C::env_spec(*env, r),
    {
        C::from_env(env)
    }
}

/// Which build of the application is running.
#[derive(Debug, PartialEq, Eq, Structural, Clone, Copy)]
pub enum Environment {
    Dev,
    Prod,
}

impl Environment {
    /// Classifies the running build; the host program passes in whether
    /// it was built with debug assertions.
    pub fn get_env(debug_build: bool) -> (r: Environment)
        ensures
            r == (if debug_build {
                Environment::Dev
            } else {
                Environment::Prod
            }),
    {
        if debug_build {
            Environment::Dev
        } else {
            Environment::Prod
        }
    }
}

} // verus!
