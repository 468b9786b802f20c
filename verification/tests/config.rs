use certmonitor::config::{
    accept_config, choose_mode, resolve, ConfigRead, FileConfig, Mode, DEFAULT_CONFIG_PATH,
};

fn file() -> FileConfig {
    FileConfig {
        timeout: Some(9),
        warn_days: Some(60),
        critical_days: Some(14),
        interval: Some(120),
    }
}

#[test]
fn defaults_fill_in() {
    let s = resolve(FileConfig::default(), FileConfig::default());
    assert_eq!((s.timeout, s.warn_days, s.critical_days, s.interval), (5, 30, 7, None));
}

#[test]
fn config_file_overrides_defaults() {
    let s = resolve(FileConfig::default(), file());
    assert_eq!((s.timeout, s.warn_days, s.critical_days, s.interval), (9, 60, 14, Some(120)));
}

#[test]
fn flags_override_the_config_file() {
    let flags = FileConfig { warn_days: Some(1), interval: Some(2), ..FileConfig::default() };
    let s = resolve(flags, file());
    assert_eq!((s.timeout, s.warn_days, s.critical_days, s.interval), (9, 1, 14, Some(2)));
}

#[test]
fn once_goes_before_serve() {
    assert!(matches!(choose_mode(true, Some("a".to_string()), Some(1)), Mode::Once));
    assert!(matches!(choose_mode(false, None, Some(1)), Mode::Interactive));
}

#[test]
fn serve_has_an_interval() {
    match choose_mode(false, Some("0.0.0.0:8080".to_string()), None) {
        Mode::Serve { addr, interval } => {
            assert_eq!(addr, "0.0.0.0:8080");
            assert_eq!(interval, 300);
        }
        mode => panic!("{:?}", mode),
    }
    assert!(matches!(
        choose_mode(false, Some(String::new()), Some(60)),
        Mode::Serve { interval: 60, .. }
    ));
}

#[test]
fn a_missing_default_config_is_fine() {
    let config = accept_config("p", false, ConfigRead::Missing).unwrap();
    assert_eq!(config.timeout, None);
    assert_eq!(config.interval, None);
}

#[test]
fn a_missing_named_config_is_an_error() {
    let message = accept_config("my.toml", true, ConfigRead::Missing).unwrap_err();
    assert_eq!(message, "config file my.toml not found");
}

#[test]
fn a_malformed_config_is_an_error() {
    for explicit in [true, false] {
        let read = ConfigRead::Malformed("bad key".to_string());
        let message = accept_config("c.toml", explicit, read).unwrap_err();
        assert_eq!(message, "failed to parse config file c.toml: bad key");
        let config = accept_config("c.toml", explicit, ConfigRead::Parsed(file())).unwrap();
        assert_eq!(config.warn_days, Some(60));
    }
    assert_eq!(DEFAULT_CONFIG_PATH, ".config/certmonitor/config.toml");
}
