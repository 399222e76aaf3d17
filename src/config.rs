use vstd::prelude::*;
use vstd::string::StringSliceAdditionalSpecFns;
use std::sync::Arc;
use crate::router::seg_is;

verus! {

pub type ConfigHandle = Arc<Config>;

/// The deployment environment a process runs in.
#[derive(Debug, Clone, Copy, PartialEq, Eq, Structural)]
pub enum Environment {
    Production,
    Development,
    Test,
}

/// Process-wide configuration, fixed at start-up and read-only afterwards.
pub struct Config {
    pub port: u16,
    pub database_url: String,
    pub auth_key: String,
    pub service: bool,
    pub env: Environment,
    /// Only this crate can make one, so a `Config` is built through `Config::new`.
    pub _private: Sealed,
}

/// A marker that only this crate can construct.
pub struct Sealed(());

/// Why a set of configuration values was refused.
#[derive(Debug, Clone, Copy, PartialEq, Eq, Structural)]
pub enum ConfigError {
    MissingPort,
    InvalidPort,
    MissingDatabaseUrl,
    MissingAuthKey,
    InvalidService,
    MissingEnvironment,
    InvalidEnvironment,
}

pub open spec fn is_digit(b: u8) -> bool {
    48 <= b && b <= 57
}

pub open spec fn all_digits(s: Seq<u8>) -> bool {
    forall|i: int| 0 <= i < s.len() ==> is_digit(#[trigger] s[i])
}

/// The number that a string of decimal digits writes.
pub open spec fn decimal(s: Seq<u8>) -> int
    decreases s.len(),
{
    if s.len() == 0 {
        0
    } else {
        decimal(s.drop_last()) * 10 + (s.last() - 48)
    }
}

/// The digits of a port: all of `s`, or what follows one leading `+`.
pub open spec fn port_digits(s: Seq<u8>) -> Seq<u8> {
    if s.len() > 0 && s[0] == 43 {
        s.skip(1)
    } else {
        s
    }
}

/// The port that `s` writes in decimal, if it writes one that fits in 16 bits.
pub open spec fn port_value(s: Seq<u8>) -> Option<u16> {
    let d = port_digits(s);
    if d.len() > 0 && all_digits(d) && decimal(d) <= 65535 {
        Some(decimal(d) as u16)
    } else {
        None
    }
}

pub open spec fn word_true() -> Seq<u8> {
    seq![116u8, 114u8, 117u8, 101u8]
}

pub open spec fn word_true_upper() -> Seq<u8> {
    seq![84u8, 82u8, 85u8, 69u8]
}

pub open spec fn word_false() -> Seq<u8> {
    seq![102u8, 97u8, 108u8, 115u8, 101u8]
}

pub open spec fn word_false_upper() -> Seq<u8> {
    seq![70u8, 65u8, 76u8, 83u8, 69u8]
}

pub open spec fn word_production() -> Seq<u8> {
    seq![80u8, 114u8, 111u8, 100u8, 117u8, 99u8, 116u8, 105u8, 111u8, 110u8]
}

pub open spec fn word_development() -> Seq<u8> {
    seq![68u8, 101u8, 118u8, 101u8, 108u8, 111u8, 112u8, 109u8, 101u8, 110u8, 116u8]
}

pub open spec fn word_test() -> Seq<u8> {
    seq![84u8, 101u8, 115u8, 116u8]
}

/// The service flag: on when unset or `true`/`TRUE`, off for `false`/`FALSE`.
pub open spec fn service_value(s: Option<Seq<u8>>) -> Option<bool> {
    match s {
        None => Some(true),
        Some(w) => if w == word_true() || w == word_true_upper() {
            Some(true)
        } else if w == word_false() || w == word_false_upper() {
            Some(false)
        } else {
            None
        },
    }
}

pub open spec fn environment_value(s: Seq<u8>) -> Option<Environment> {
    if s == word_production() {
        Some(Environment::Production)
    } else if s == word_development() {
        Some(Environment::Development)
    } else if s == word_test() {
        Some(Environment::Test)
    } else {
        None
    }
}

pub open spec fn str_bytes(o: Option<&str>) -> Option<Seq<u8>> {
    match o {
        Some(s) => Some(s.spec_bytes()),
        None => None,
    }
}

/// The first of the configuration values, in the order port, database URL, key, service
/// flag, environment, that is missing or invalid.
pub open spec fn config_error(
    port: Option<Seq<u8>>,
    database_url: Option<Seq<u8>>,
    auth_key: Option<Seq<u8>>,
    service: Option<Seq<u8>>,
    environment: Option<Seq<u8>>,
) -> Option<ConfigError> {
    if port is None {
        Some(ConfigError::MissingPort)
    } else if port_value(port.unwrap()) is None {
        Some(ConfigError::InvalidPort)
    } else if database_url is None {
        Some(ConfigError::MissingDatabaseUrl)
    } else if auth_key is None {
        Some(ConfigError::MissingAuthKey)
    } else if service_value(service) is None {
        Some(ConfigError::InvalidService)
    } else if environment is None {
        Some(ConfigError::MissingEnvironment)
    } else if environment_value(environment.unwrap()) is None {
        Some(ConfigError::InvalidEnvironment)
    } else {
        None
    }
}

/// Reads a port written in decimal.
pub fn parse_port(s: &str) -> (r: Option<u16>)
    ensures
        r == port_value(s.spec_bytes()),
{
    let b = s.as_bytes();
    let mut i: usize = 0;
    if b.len() > 0 && b[0] == 43u8 {
        i = 1;
    }
    let ghost k = i as int;
    let ghost d = port_digits(b@);
    assert(d =~= b@.skip(k));
    if i >= b.len() {
        return None;
    }
    let mut v: u32 = 0;
    assert(b@.subrange(k, k) =~= Seq::<u8>::empty());
    while i < b.len()
        invariant
            b@ == s.spec_bytes(),
            d == port_digits(b@),
            d =~= b@.skip(k),
            d.len() > 0,
            0 <= k <= i <= b@.len(),
            all_digits(b@.subrange(k, i as int)),
            v as int == decimal(b@.subrange(k, i as int)),
            v <= 65535,
        decreases b@.len() - i,
    {
        let ghost pre = b@.subrange(k, i as int);
        let ghost next = b@.subrange(k, i + 1);
        assert(next.drop_last() =~= pre);
        assert(next =~= d.take(i + 1 - k));
        if b[i] < 48u8 || b[i] > 57u8 {
            assert(!is_digit(d[i - k]));
            return None;
        }
        let nv = v * 10 + (b[i] - 48u8) as u32;
        if nv > 65535 {
            assert(decimal(next) == decimal(pre) * 10 + (b@[i as int] - 48));
            proof {
                lemma_decimal_prefix(d, i + 1 - k);
            }
            return None;
        }
        v = nv;
        i = i + 1;
    }
    assert(b@.subrange(k, i as int) =~= d);
    Some(v as u16)
}

proof fn lemma_decimal_nonneg(d: Seq<u8>)
    requires
        all_digits(d),
    ensures
        decimal(d) >= 0,
    decreases d.len(),
{
    if d.len() > 0 {
        lemma_decimal_nonneg(d.drop_last());
    }
}

/// A string of digits writes at least as large a number as any of its prefixes.
proof fn lemma_decimal_prefix(d: Seq<u8>, n: int)
    requires
        0 <= n <= d.len(),
    ensures
        all_digits(d) ==> decimal(d) >= decimal(d.take(n)),
    decreases d.len(),
{
    if all_digits(d) {
        if n == d.len() {
            assert(d.take(n) =~= d);
        } else {
            let p = d.drop_last();
            assert(all_digits(p));
            lemma_decimal_nonneg(p);
            lemma_decimal_prefix(p, n);
            assert(p.take(n) =~= d.take(n));
        }
    }
}

/// Reads the service flag.
pub fn parse_service(s: Option<&str>) -> (r: Option<bool>)
    ensures
        r == service_value(str_bytes(s)),
{
    match s {
        None => Some(true),
        Some(w) => {
            let b = w.as_bytes();
            let t: [u8; 4] = [116u8, 114u8, 117u8, 101u8];
            let tu: [u8; 4] = [84u8, 82u8, 85u8, 69u8];
            let f: [u8; 5] = [102u8, 97u8, 108u8, 115u8, 101u8];
            let fu: [u8; 5] = [70u8, 65u8, 76u8, 83u8, 69u8];
            assert(t@ =~= word_true());
            assert(tu@ =~= word_true_upper());
            assert(f@ =~= word_false());
            assert(fu@ =~= word_false_upper());
            if seg_is(b, t.as_slice()) || seg_is(b, tu.as_slice()) {
                Some(true)
            } else if seg_is(b, f.as_slice()) || seg_is(b, fu.as_slice()) {
                Some(false)
            } else {
                None
            }
        },
    }
}

/// Reads the name of an environment.
pub fn parse_environment(s: &str) -> (r: Option<Environment>)
    ensures
        r == environment_value(s.spec_bytes()),
{
    let b = s.as_bytes();
    let p: [u8; 10] = [80u8, 114u8, 111u8, 100u8, 117u8, 99u8, 116u8, 105u8, 111u8, 110u8];
    let d: [u8; 11] = [68u8, 101u8, 118u8, 101u8, 108u8, 111u8, 112u8, 109u8, 101u8, 110u8, 116u8];
    let t: [u8; 4] = [84u8, 101u8, 115u8, 116u8];
    assert(p@ =~= word_production());
    assert(d@ =~= word_development());
    assert(t@ =~= word_test());
    if seg_is(b, p.as_slice()) {
        Some(Environment::Production)
    } else if seg_is(b, d.as_slice()) {
        Some(Environment::Development)
    } else if seg_is(b, t.as_slice()) {
        Some(Environment::Test)
    } else {
        None
    }
}

impl Config {
    /// Builds the shared configuration handle from its values.
    pub fn new(
        port: u16,
        database_url: String,
        auth_key: String,
        service: bool,
        env: Environment,
    ) -> (r: ConfigHandle)
        ensures
            r.port == port,
            r.database_url@ == database_url@,
            r.auth_key@ == auth_key@,
            r.service == service,
            r.env == env,
    {
        Arc::new(Config { port, database_url, auth_key, service, env, _private: Sealed(()) })
    }

    /// Builds the configuration from the values of the process environment's
    /// `PORT`, `DATABASE_URL`, `AUTH_KEY`, `SERVICE` and `ENVIRONMENT`, each `None`
    /// where unset. They must all be valid: `config_problem` tells.
    pub fn from_env(
        port: Option<&str>,
        database_url: Option<&str>,
        auth_key: Option<&str>,
        service: Option<&str>,
        environment: Option<&str>,
    ) -> (r: ConfigHandle)
        requires
            config_error(
                str_bytes(port),
                str_bytes(database_url),
                str_bytes(auth_key),
                str_bytes(service),
                str_bytes(environment),
            ) is None,
        ensures
            Some(r.port) == port_value(str_bytes(port).unwrap()),
            r.database_url@ == database_url.unwrap()@,
            r.auth_key@ == auth_key.unwrap()@,
            Some(r.service) == service_value(str_bytes(service)),
            Some(r.env) == environment_value(str_bytes(environment).unwrap()),
    {
        let port = parse_port(port.unwrap()).unwrap();
        let database_url = database_url.unwrap().to_owned();
        let auth_key = auth_key.unwrap().to_owned();
        let service = parse_service(service).unwrap();
        let env = parse_environment(environment.unwrap()).unwrap();
        Config::new(port, database_url, auth_key, service, env)
    }
}

/// The first of the configuration values, in the order port, database URL, key,
/// service flag, environment, that is missing or invalid; `None` when all are valid.
pub fn config_problem(
    port: Option<&str>,
    database_url: Option<&str>,
    auth_key: Option<&str>,
    service: Option<&str>,
    environment: Option<&str>,
) -> (r: Option<ConfigError>)
    ensures
        r == config_error(
            str_bytes(port),
            str_bytes(database_url),
            str_bytes(auth_key),
            str_bytes(service),
            str_bytes(environment),
        ),
{
    match port {
        None => return Some(ConfigError::MissingPort),
        Some(p) => match parse_port(p) {
            None => return Some(ConfigError::InvalidPort),
            Some(_) => {},
        },
    }
    match database_url {
        None => return Some(ConfigError::MissingDatabaseUrl),
        Some(_) => {},
    }
    match auth_key {
        None => return Some(ConfigError::MissingAuthKey),
        Some(_) => {},
    }
    match parse_service(service) {
        None => return Some(ConfigError::InvalidService),
        Some(_) => {},
    }
    match environment {
        None => return Some(ConfigError::MissingEnvironment),
        Some(e) => match parse_environment(e) {
            None => return Some(ConfigError::InvalidEnvironment),
            Some(_) => {},
        },
    }
    None
}

} // verus!
