use arbiter::config::{
    default_rules_dirs, join_path, xdg_config_home, Config, ConfigFields, ConfigSource,
    Environment, ProfileKind,
};

fn env(xdg: Option<&str>, home: Option<&str>) -> Environment {
    Environment {
        xdg_config_home: xdg.map(|s| s.to_string()),
        home: home.map(|s| s.to_string()),
    }
}

fn no_fields() -> ConfigFields {
    ConfigFields {
        profile: None,
        rules_dirs: None,
        log_level: None,
        dry_run: None,
        apply_nice: None,
        apply_ionice: None,
        apply_oom: None,
        apply_cgroup: None,
        layered_export_path: None,
        exec_delay_ms: None,
    }
}

#[test]
fn profiles_read_back_by_name() {
    for profile in [
        ProfileKind::Default,
        ProfileKind::Gaming,
        ProfileKind::LowPower,
        ProfileKind::Server,
    ] {
        assert_eq!(ProfileKind::from_str(&profile.display()).unwrap(), profile);
    }
    assert_eq!(ProfileKind::from_str("low-power").unwrap(), ProfileKind::LowPower);
    assert_eq!(ProfileKind::default(), ProfileKind::Default);
}

#[test]
fn unknown_profile_is_refused() {
    let error = ProfileKind::from_str("Gaming").unwrap_err();
    assert_eq!(
        error.message(),
        "Unknown profile 'Gaming'. Valid: default, gaming, lowpower, server"
    );
}

#[test]
fn config_home_follows_the_environment() {
    assert_eq!(xdg_config_home(&env(Some("/x"), Some("/home/u"))), "/x");
    assert_eq!(xdg_config_home(&env(None, Some("/home/u"))), "/home/u/.config");
    assert_eq!(xdg_config_home(&env(None, None)), "/root/.config");
}

#[test]
fn paths_join_like_file_paths() {
    for (dir, relative) in [("/x", "a/b"), ("/x/", "a"), ("", "a"), ("x", "a")] {
        let expected = std::path::PathBuf::from(dir).join(relative);
        assert_eq!(join_path(dir, relative), expected.to_str().unwrap());
    }
}

#[test]
fn rules_come_from_the_system_then_the_user() {
    assert_eq!(
        default_rules_dirs(&env(None, Some("/home/u"))),
        vec!["/etc/arbiter/rules.d", "/home/u/.config/arbiter/rules.d"]
    );
}

#[test]
fn first_existing_file_is_loaded() {
    let e = env(Some("/x"), None);
    assert_eq!(
        Config::candidates(&e),
        vec!["/etc/arbiter/config.toml", "/x/arbiter/config.toml"]
    );
    assert!(matches!(Config::load(&e, true, true), ConfigSource::File(p) if p == "/etc/arbiter/config.toml"));
    assert!(matches!(Config::load(&e, true, false), ConfigSource::File(p) if p == "/etc/arbiter/config.toml"));
    assert!(matches!(Config::load(&e, false, true), ConfigSource::File(p) if p == "/x/arbiter/config.toml"));
    match Config::load(&e, false, false) {
        ConfigSource::Defaults(config) => {
            assert_eq!(config.profile, ProfileKind::Default);
            assert_eq!(config.log_level, "info");
            assert!(!config.dry_run);
            assert!(config.apply_nice && config.apply_ionice && config.apply_oom && config.apply_cgroup);
            assert_eq!(config.layered_export_path, None);
            assert_eq!(config.exec_delay_ms, 50);
        }
        other => panic!("{other:?}"),
    }
}

#[test]
fn empty_file_gives_the_defaults() {
    let e = env(None, Some("/home/u"));
    let loaded = Config::load_from(no_fields(), &e);
    assert_eq!(format!("{loaded:?}"), format!("{:?}", Config::standard(&e)));
}

#[test]
fn set_fields_override_the_defaults() {
    let mut fields = no_fields();
    fields.profile = Some(ProfileKind::Server);
    fields.rules_dirs = Some(vec!["/r".into()]);
    fields.log_level = Some("debug".into());
    fields.dry_run = Some(true);
    fields.apply_nice = Some(false);
    fields.apply_ionice = Some(false);
    fields.apply_oom = Some(false);
    fields.apply_cgroup = Some(false);
    fields.layered_export_path = Some("/l".into());
    fields.exec_delay_ms = Some(0);
    let config = Config::load_from(fields, &env(None, None));
    assert_eq!(config.profile, ProfileKind::Server);
    assert_eq!(config.rules_dirs, vec!["/r"]);
    assert_eq!(config.log_level, "debug");
    assert!(config.dry_run);
    assert!(!config.apply_nice && !config.apply_ionice && !config.apply_oom && !config.apply_cgroup);
    assert_eq!(config.layered_export_path.as_deref(), Some("/l"));
    assert_eq!(config.exec_delay_ms, 0);
}

#[test]
fn named_file_comes_before_the_search() {
    let e = env(Some("/x"), None);
    let named = Some("/my.toml".to_string());
    assert!(matches!(Config::source(&named, &e, true, true), ConfigSource::File(p) if p == "/my.toml"));
    assert!(matches!(Config::source(&None, &e, false, true), ConfigSource::File(p) if p == "/x/arbiter/config.toml"));
    assert!(matches!(Config::source(&None, &e, false, false), ConfigSource::Defaults(_)));
}

#[test]
fn profile_goes_to_the_file_in_use() {
    let e = env(Some("/x"), None);
    let named = Some("/my.toml".to_string());
    assert_eq!(Config::profile_file(&named, &e, true, true), "/my.toml");
    assert_eq!(Config::profile_file(&None, &e, true, true), "/etc/arbiter/config.toml");
    assert_eq!(Config::profile_file(&None, &e, false, true), "/x/arbiter/config.toml");
    assert_eq!(Config::profile_file(&None, &e, false, false), "/x/arbiter/config.toml");
}

#[test]
fn new_profile_changes_nothing_else() {
    let e = env(None, None);
    let mut fields = no_fields();
    fields.exec_delay_ms = Some(7);
    let before = Config::load_from(fields.clone(), &e);
    fields.profile = Some(ProfileKind::Gaming);
    let after = Config::load_from(fields, &e);
    assert_eq!(after.profile, ProfileKind::Gaming);
    assert_eq!(after.exec_delay_ms, before.exec_delay_ms);
    assert_eq!(after.rules_dirs, before.rules_dirs);
}
