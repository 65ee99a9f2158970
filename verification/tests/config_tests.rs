use retana::autoconnect::auto_connect_config;
use retana::config::{config_home, data_dir, join_path_str, RetanaConfig};

#[test]
fn default_config() {
    let c = RetanaConfig::default();
    assert_eq!(c.hermes_host, "115.159.116.195");
    assert_eq!(c.hermes_port, 22);
    assert_eq!(c.hermes_user, "ubuntu");
    assert_eq!(c.hermes_key, None);
    assert_eq!(c.tunnel_remote_port, 9000);
    assert_eq!(c.tunnel_local_port, 9000);
    assert!(c.auto_connect);
}

#[test]
fn config_path() {
    assert_eq!(RetanaConfig::config_path(Some("/home/u"), false), "/home/u/.retana/config.yaml");
    assert_eq!(RetanaConfig::config_path(None, false), "./.retana/config.yaml");
    assert_eq!(RetanaConfig::config_path(Some(""), false), ".retana/config.yaml");
    assert_eq!(
        RetanaConfig::config_path(Some("C:\\Users\\u"), true),
        "C:\\Users\\u\\.retana\\config.yaml"
    );
    assert_eq!(RetanaConfig::config_path(None, true), ".\\.retana\\config.yaml");
}

#[test]
fn join_path_on_windows() {
    assert_eq!(join_path_str("C:\\a", "b", true), "C:\\a\\b");
    assert_eq!(join_path_str("C:\\a\\", "b", true), "C:\\a\\b");
    assert_eq!(join_path_str("C:/a/", "b", true), "C:/a/b");
    assert_eq!(join_path_str("C:", "b", true), "C:b");
    assert_eq!(join_path_str("1:", "b", true), "1:\\b");
    // On Unix a backslash is an ordinary character.
    assert_eq!(join_path_str("a\\", "b", false), "a\\/b");
}

#[test]
fn join_path_matches_std_on_unix_paths() {
    for (b, p) in [("/a", "b"), ("/a/", "b"), ("", "b"), (".", ".retana")] {
        let want = std::path::Path::new(b).join(p).to_string_lossy().into_owned();
        assert_eq!(join_path_str(b, p, false), want);
    }
}

#[test]
fn homes_and_data_dirs() {
    assert_eq!(config_home(false, Some("/h"), Some("C:/u")), Some("/h".to_string()));
    assert_eq!(config_home(true, None, Some("C:/u")), Some("C:/u".to_string()));
    assert_eq!(config_home(false, None, Some("C:/u")), None);
    assert_eq!(data_dir("linux", Some("/h"), None), Some("/h/.config".to_string()));
    assert_eq!(data_dir("macos", Some("/h"), None), Some("/h".to_string()));
    assert_eq!(data_dir("windows", Some("/h"), Some("C:/AppData")), Some("C:/AppData".to_string()));
    assert_eq!(data_dir("windows", Some("/h"), None), None);
    assert_eq!(data_dir("freebsd", None, None), None);
}

#[test]
fn startup_ssh_settings() {
    let mut c = RetanaConfig::default();
    c.hermes_key = Some("/k".to_string());
    let s = auto_connect_config(&c).unwrap();
    assert_eq!(s.host, "115.159.116.195");
    assert_eq!(s.port, 22);
    assert_eq!(s.username, "ubuntu");
    assert_eq!(s.key_path, Some("/k".to_string()));
    assert_eq!(s.password, None);
    let t = s.reverse_tunnel.unwrap();
    assert_eq!((t.remote_port, t.local_port), (9000, 9000));
    c.auto_connect = false;
    assert!(auto_connect_config(&c).is_none());
}
