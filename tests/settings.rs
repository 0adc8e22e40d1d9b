use squads_cli::config::{ApiConfig, AuthConfig, Config, OutputConfig};

#[test]
fn defaults() {
    let c = Config::default();
    assert_eq!(c.auth.tenant, "organizations");
    assert_eq!(c.output.default_format, "table");
    assert!(c.output.color);
    assert_eq!(c.api.region, "emea");
    assert_eq!(c.api.timeout, 30);
    assert_eq!(AuthConfig::default().tenant, "organizations");
    assert_eq!(OutputConfig::default().default_format, "table");
    assert_eq!(ApiConfig::default().timeout, 30);
}

#[test]
fn paths_need_project_dirs() {
    assert_eq!(Config::config_path_in(None).unwrap_err(), squads_cli::config::ConfigError::NoProjectDirs);
    assert_eq!(Config::cache_dir_in(None).unwrap_err(), squads_cli::config::ConfigError::NoProjectDirs);
    if let Some(dirs) = Config::project_dirs() {
        let path = Config::config_path_in(Some(dirs)).unwrap();
        assert!(path.ends_with("config.toml"));
    }
}
