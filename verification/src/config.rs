//! Application configuration: a base record shared by every environment,
//! per-environment records layered over it, and an `AppConfig` union with
//! accessors.
//!
//! The configuration is an explicit record built once from a resolved
//! `Environment` and passed by reference to whoever needs it; reading
//! environment variables (and `.env` files) is the caller's concern, and the
//! caller may overwrite the defaults it obtains here before wiring the
//! record in.

use vstd::prelude::*;
use vstd::string::*;

verus! {

/// The environments the application distinguishes.
#[derive(Clone, Copy, Debug, PartialEq, Eq, Structural)]
pub enum Environment {
    Development,
    Production,
    Testing,
}

/// Configuration shared by every environment.
#[derive(Debug)]
pub struct BaseConfig {
    /// Port the server binds.
    pub port: u16,
    /// Host the server binds.
    pub host: String,
    /// Connection string for the document store.
    pub mongo_uri: String,
    /// Name of the database inside the store.
    pub mongo_db: String,
    /// Environment this record was built for.
    pub environment: Environment,
}

/// The ASCII-lowercase code of a character; characters outside `A`..`Z`
/// keep their code.
pub open spec fn lower_code(c: char) -> int {
    if 65 <= (c as u32) < 91 {
        (c as u32) + 32
    } else {
        (c as u32) as int
    }
}

/// A string's characters folded to ASCII lowercase, as a code sequence.
pub open spec fn lower_codes(s: Seq<char>) -> Seq<int> {
    s.map_values(|c: char| lower_code(c))
}

/// Which environment a configuration string names: `"production"` and
/// `"testing"` (compared ASCII-case-insensitively) select their
/// environments, anything else falls back to development.
pub open spec fn env_of_str(s: Seq<char>) -> Environment {
    if lower_codes(s) == lower_codes("production"@) {
        Environment::Production
    } else if lower_codes(s) == lower_codes("testing"@) {
        Environment::Testing
    } else {
        Environment::Development
    }
}

fn lower_code_exec(c: char) -> (r: u32)
    ensures
        r as int == lower_code(c),
{
    let u = c as u32;
    if 65 <= u && u < 91 {
        u + 32
    } else {
        u
    }
}

fn str_eq_ignore_ascii_case(a: &str, b: &str) -> (r: bool)
    ensures
        r == (lower_codes(a@) == lower_codes(b@)),
{
    let alen = a.unicode_len();
    let blen = b.unicode_len();
    if alen != blen {
        proof {
            assert(lower_codes(a@).len() != lower_codes(b@).len());
        }
        return false;
    }
    let mut i: usize = 0;
    while i < alen
        invariant
            alen == a@.len(),
            alen == b@.len(),
            i <= alen,
            forall|j: int| 0 <= j < i ==> lower_codes(a@)[j] == lower_codes(b@)[j],
        decreases alen - i,
    {
        let ca = a.get_char(i);
        let cb = b.get_char(i);
        if lower_code_exec(ca) != lower_code_exec(cb) {
            proof {
                assert(lower_codes(a@)[i as int] != lower_codes(b@)[i as int]);
            }
            return false;
        }
        i = i + 1;
    }
    proof {
        assert(lower_codes(a@) =~= lower_codes(b@));
    }
    true
}

impl Environment {
    /// Resolve an environment from its configuration string,
    /// case-insensitively; unknown strings mean development.
    pub fn from_str(env_str: &str) -> (r: Environment)
        ensures
            r == env_of_str(env_str@),
    {
        if str_eq_ignore_ascii_case(env_str, "production") {
            Environment::Production
        } else if str_eq_ignore_ascii_case(env_str, "testing") {
            Environment::Testing
        } else {
            Environment::Development
        }
    }
}

impl Default for BaseConfig {
    /// The built-in defaults, before any caller-side override.
    fn default() -> (r: Self)
        ensures
            r.port == 4000,
            r.host@ == "127.0.0.1"@,
            r.mongo_uri@ == "mongodb://localhost:27017"@,
            r.mongo_db@ == "graphql_rust_db"@,
            r.environment == Environment::Development,
    {
        BaseConfig {
            port: 4000,
            host: "127.0.0.1".to_owned(),
            mongo_uri: "mongodb://localhost:27017".to_owned(),
            mongo_db: "graphql_rust_db".to_owned(),
            environment: Environment::Development,
        }
    }
}

impl Clone for BaseConfig {
    fn clone(&self) -> (r: Self)
        ensures
            r == *self,
    {
        BaseConfig {
            port: self.port,
            host: self.host.clone(),
            mongo_uri: self.mongo_uri.clone(),
            mongo_db: self.mongo_db.clone(),
            environment: self.environment,
        }
    }
}

/// Configuration for the development environment.
#[derive(Debug)]
pub struct DevelopmentConfig {
    /// Base configuration.
    pub base: BaseConfig,
    /// Debug mode.
    pub debug: bool,
}

impl Default for DevelopmentConfig {
    fn default() -> (r: Self)
        ensures
            r.base.port == 4000,
            r.base.host@ == "127.0.0.1"@,
            r.base.mongo_uri@ == "mongodb://localhost:27017"@,
            r.base.mongo_db@ == "graphql_rust_dev_db"@,
            r.base.environment == Environment::Development,
            r.debug,
    {
        let mut base = BaseConfig::default();
        base.environment = Environment::Development;
        base.mongo_db = "graphql_rust_dev_db".to_owned();
        DevelopmentConfig { base, debug: true }
    }
}

impl Clone for DevelopmentConfig {
    fn clone(&self) -> (r: Self)
        ensures
            r == *self,
    {
        DevelopmentConfig { base: self.base.clone(), debug: self.debug }
    }
}

/// Configuration for the production environment.
#[derive(Debug)]
pub struct ProductionConfig {
    /// Base configuration.
    pub base: BaseConfig,
    /// Whether response caching is on.
    pub enable_cache: bool,
    /// Cache expiration in seconds.
    pub cache_expiration: u64,
}

impl Default for ProductionConfig {
    fn default() -> (r: Self)
        ensures
            r.base.port == 4000,
            r.base.host@ == "0.0.0.0"@,
            r.base.mongo_uri@ == "mongodb://mongo:27017"@,
            r.base.mongo_db@ == "graphql_rust_prod_db"@,
            r.base.environment == Environment::Production,
            r.enable_cache,
            r.cache_expiration == 3600,
    {
        let mut base = BaseConfig::default();
        base.environment = Environment::Production;
        base.host = "0.0.0.0".to_owned();
        base.mongo_uri = "mongodb://mongo:27017".to_owned();
        base.mongo_db = "graphql_rust_prod_db".to_owned();
        ProductionConfig { base, enable_cache: true, cache_expiration: 3600 }
    }
}

impl Clone for ProductionConfig {
    fn clone(&self) -> (r: Self)
        ensures
            r == *self,
    {
        ProductionConfig {
            base: self.base.clone(),
            enable_cache: self.enable_cache,
            cache_expiration: self.cache_expiration,
        }
    }
}

/// Configuration for the testing environment.
#[derive(Debug)]
pub struct TestingConfig {
    /// Base configuration.
    pub base: BaseConfig,
    /// Whether collaborating services are mocked.
    pub use_mock_services: bool,
}

impl Default for TestingConfig {
    fn default() -> (r: Self)
        ensures
            r.base.port == 4000,
            r.base.host@ == "127.0.0.1"@,
            r.base.mongo_uri@ == "mongodb://localhost:27017"@,
            r.base.mongo_db@ == "graphql_rust_test_db"@,
            r.base.environment == Environment::Testing,
            r.use_mock_services,
    {
        let mut base = BaseConfig::default();
        base.environment = Environment::Testing;
        base.mongo_db = "graphql_rust_test_db".to_owned();
        TestingConfig { base, use_mock_services: true }
    }
}

impl Clone for TestingConfig {
    fn clone(&self) -> (r: Self)
        ensures
            r == *self,
    {
        TestingConfig { base: self.base.clone(), use_mock_services: self.use_mock_services }
    }
}

/// The application configuration for one resolved environment.
#[derive(Debug)]
pub enum AppConfig {
    Development(DevelopmentConfig),
    Production(ProductionConfig),
    Testing(TestingConfig),
}

/// The base record inside an `AppConfig`, whichever variant holds it.
pub open spec fn base_of(c: AppConfig) -> BaseConfig {
    match c {
        AppConfig::Development(config) => config.base,
        AppConfig::Production(config) => config.base,
        AppConfig::Testing(config) => config.base,
    }
}

impl AppConfig {
    /// The base configuration record of this variant.
    pub fn base(&self) -> (r: &BaseConfig)
        ensures
            *r == base_of(*self),
    {
        match self {
            AppConfig::Development(config) => &config.base,
            AppConfig::Production(config) => &config.base,
            AppConfig::Testing(config) => &config.base,
        }
    }

    /// Port the server binds.
    pub fn port(&self) -> (r: u16)
        ensures
            r == base_of(*self).port,
    {
        self.base().port
    }

    /// Host the server binds.
    pub fn host(&self) -> (r: &str)
        ensures
            r@ == base_of(*self).host@,
    {
        self.base().host.as_str()
    }

    /// Connection string for the document store.
    pub fn mongo_uri(&self) -> (r: &str)
        ensures
            r@ == base_of(*self).mongo_uri@,
    {
        self.base().mongo_uri.as_str()
    }

    /// Name of the database inside the store.
    pub fn mongo_db(&self) -> (r: &str)
        ensures
            r@ == base_of(*self).mongo_db@,
    {
        self.base().mongo_db.as_str()
    }

    /// Whether this is the development configuration.
    pub fn is_development(&self) -> (r: bool)
        ensures
            r == (self is Development),
    {
        matches!(self, AppConfig::Development(_))
    }

    /// Whether this is the production configuration.
    pub fn is_production(&self) -> (r: bool)
        ensures
            r == (self is Production),
    {
        matches!(self, AppConfig::Production(_))
    }

    /// Whether this is the testing configuration.
    pub fn is_testing(&self) -> (r: bool)
        ensures
            r == (self is Testing),
    {
        matches!(self, AppConfig::Testing(_))
    }
}

impl Clone for AppConfig {
    fn clone(&self) -> (r: Self)
        ensures
            r == *self,
    {
        match self {
            AppConfig::Development(config) => AppConfig::Development(config.clone()),
            AppConfig::Production(config) => AppConfig::Production(config.clone()),
            AppConfig::Testing(config) => AppConfig::Testing(config.clone()),
        }
    }
}

/// Build the configuration record for a resolved environment, with that
/// environment's defaults filled in.
pub fn get_config(environment: Environment) -> (r: AppConfig)
    ensures
        environment is Development ==> r is Development,
        environment is Production ==> r is Production,
        environment is Testing ==> r is Testing,
        base_of(r).environment == environment,
{
    match environment {
        Environment::Development => AppConfig::Development(DevelopmentConfig::default()),
        Environment::Production => AppConfig::Production(ProductionConfig::default()),
        Environment::Testing => AppConfig::Testing(TestingConfig::default()),
    }
}

} // verus!
