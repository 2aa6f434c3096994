use std::path::PathBuf;
use vim_telegam::config::{Config, CredentialError, MediaConfig, CONFIG_FILE, SESSION_FILE};

fn words(list: &[&str]) -> Vec<String> {
    list.iter().map(|s| s.to_string()).collect()
}

#[test]
fn nothing_is_configured_by_default() {
    let c = Config::load(None, None, None);
    assert!(!c.has_credentials());
    assert_eq!(c.player_argv(None), ["mpv"]);
    assert_eq!(c.credentials().unwrap_err(), CredentialError::NoApiId);
    assert_eq!(CredentialError::NoApiId.message(), "api_id missing from config");
    assert_eq!(CredentialError::NoApiHash.message(), "api_hash missing from config");
}

#[test]
fn the_environment_wins() {
    let file = Config {
        api_id: Some(1),
        api_hash: Some("file".to_string()),
        media: MediaConfig::default(),
    };
    let c = Config::load(Some(file.clone()), Some("-42".to_string()), Some("env".to_string()));
    assert_eq!(c.credentials().unwrap(), (-42, "env".to_string()));
    let c = Config::load(Some(file.clone()), Some("x7".to_string()), None);
    assert_eq!(c.credentials().unwrap(), (1, "file".to_string()));
    let c = Config::load(Some(file), Some("2147483648".to_string()), Some(String::new()));
    assert_eq!(c.credentials().unwrap(), (1, String::new()));
}

#[test]
fn a_missing_hash_is_told() {
    let c = Config::load(None, Some("+7".to_string()), None);
    assert_eq!(c.api_id, Some(7));
    assert_eq!(c.credentials().unwrap_err(), CredentialError::NoApiHash);
    assert!(!c.has_credentials());
}

#[test]
fn the_player_comes_from_environment_file_or_default() {
    let mut c = Config::default();
    c.media.player = Some(words(&["vlc", "--fullscreen"]));
    assert_eq!(c.player_argv(None), ["vlc", "--fullscreen"]);
    assert_eq!(c.player_argv(Some("  mpv\t--vo=kitty ".to_string())), ["mpv", "--vo=kitty"]);
    assert_eq!(c.player_argv(Some("   ".to_string())), ["vlc", "--fullscreen"]);
    c.media.player = Some(vec![]);
    assert_eq!(c.player_argv(Some(String::new())), ["mpv"]);
}

#[test]
fn directories_fall_back() {
    let a = PathBuf::from("/a");
    let b = PathBuf::from("/b");
    let t = PathBuf::from("/t");
    assert_eq!(Config::directories(Some((a.clone(), b.clone())), t.clone()), (a, b));
    assert_eq!(Config::directories(None, t.clone()), (t.clone(), t));
    assert_eq!(CONFIG_FILE, "config.toml");
    assert_eq!(SESSION_FILE, "telegram.session");
}
