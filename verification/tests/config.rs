use user_crud::config::{
    AppConfig, BaseConfig, DevelopmentConfig, Environment, ProductionConfig, TestingConfig,
    get_config,
};

#[test]
fn environment_from_str_is_case_insensitive() {
    assert_eq!(Environment::from_str("production"), Environment::Production);
    assert_eq!(Environment::from_str("PRODUCTION"), Environment::Production);
    assert_eq!(Environment::from_str("Testing"), Environment::Testing);
    assert_eq!(Environment::from_str("testing"), Environment::Testing);
    assert_eq!(Environment::from_str("development"), Environment::Development);
    assert_eq!(Environment::from_str("anything-else"), Environment::Development);
    assert_eq!(Environment::from_str(""), Environment::Development);
}

#[test]
fn base_config_defaults() {
    let base = BaseConfig::default();
    assert_eq!(base.port, 4000);
    assert_eq!(base.host, "127.0.0.1");
    assert_eq!(base.mongo_uri, "mongodb://localhost:27017");
    assert_eq!(base.mongo_db, "graphql_rust_db");
    assert_eq!(base.environment, Environment::Development);
}

#[test]
fn development_config_defaults() {
    let config = DevelopmentConfig::default();
    assert!(config.debug);
    assert_eq!(config.base.mongo_db, "graphql_rust_dev_db");
    assert_eq!(config.base.environment, Environment::Development);
}

#[test]
fn production_config_defaults() {
    let config = ProductionConfig::default();
    assert!(config.enable_cache);
    assert_eq!(config.cache_expiration, 3600);
    assert_eq!(config.base.host, "0.0.0.0");
    assert_eq!(config.base.mongo_uri, "mongodb://mongo:27017");
    assert_eq!(config.base.mongo_db, "graphql_rust_prod_db");
    assert_eq!(config.base.environment, Environment::Production);
}

#[test]
fn testing_config_defaults() {
    let config = TestingConfig::default();
    assert!(config.use_mock_services);
    assert_eq!(config.base.mongo_db, "graphql_rust_test_db");
    assert_eq!(config.base.environment, Environment::Testing);
}

#[test]
fn get_config_picks_the_environment() {
    let dev = get_config(Environment::Development);
    assert!(dev.is_development());
    assert!(!dev.is_production());
    assert!(!dev.is_testing());

    let prod = get_config(Environment::Production);
    assert!(prod.is_production());
    assert_eq!(prod.host(), "0.0.0.0");
    assert_eq!(prod.mongo_db(), "graphql_rust_prod_db");

    let test = get_config(Environment::Testing);
    assert!(test.is_testing());
    assert_eq!(test.mongo_db(), "graphql_rust_test_db");
}

#[test]
fn accessors_read_the_base_record() {
    let config = get_config(Environment::Development);
    assert_eq!(config.port(), 4000);
    assert_eq!(config.host(), "127.0.0.1");
    assert_eq!(config.mongo_uri(), "mongodb://localhost:27017");
    assert_eq!(config.mongo_db(), "graphql_rust_dev_db");
    assert_eq!(config.base().port, 4000);
}

#[test]
fn app_config_variants_wrap_their_configs() {
    let config = AppConfig::Development(DevelopmentConfig::default());
    assert!(config.is_development());
    let cloned = config.clone();
    assert_eq!(cloned.mongo_db(), config.mongo_db());
}
