use bg_muter::config::default_enabled;
use bg_muter::config::default_minimize_button_to_tray;
use bg_muter::config::default_minimize_to_tray;
use bg_muter::config::default_poll_interval;
use bg_muter::config::default_start_minimized;
use bg_muter::Config;

#[test]
fn test_config_load_save() {
    let config = Config::default();
    assert!(config.muting_enabled);
}

#[test]
fn test_exclusion_list() {
    let mut config = Config::default();

    config.add_excluded_app("Spotify.exe");
    assert!(config.is_excluded("spotify.exe"));
    assert!(config.is_excluded("SPOTIFY.EXE"));

    config.remove_excluded_app("spotify.exe");
    assert!(!config.is_excluded("spotify.exe"));
}

#[test]
fn test_default_values() {
    let config = Config::default();
    assert!(config.muting_enabled);
    assert!(config.excluded_apps.is_empty());
    assert!(config.always_muted_apps.is_empty());
    assert_eq!(config.poll_interval_ms, 500);
    assert!(!config.start_minimized);
    assert!(config.minimize_to_tray);
    assert!(config.minimize_button_to_tray);
    assert!(!config.start_with_windows);
}

#[test]
fn test_default_helpers() {
    assert!(default_enabled());
    assert_eq!(default_poll_interval(), 500);
    assert!(!default_start_minimized());
    assert!(default_minimize_to_tray());
    assert!(default_minimize_button_to_tray());
}

#[test]
fn test_always_muted_list() {
    let mut config = Config::default();

    config.add_always_muted_app("Discord.exe");
    assert!(config.is_always_muted("discord.exe"));
    assert!(config.is_always_muted("DISCORD.EXE"));
    assert!(!config.is_excluded("discord.exe"));

    config.remove_always_muted_app("DISCORD.exe");
    assert!(!config.is_always_muted("discord.exe"));
}

#[test]
fn test_exclusion_no_duplicates() {
    let mut config = Config::default();
    config.add_excluded_app("Game.exe");
    config.add_excluded_app("game.EXE");
    config.add_excluded_app("game.exe");
    assert_eq!(config.excluded_apps.len(), 1);
    config.remove_excluded_app("GAME.EXE");
    assert!(config.excluded_apps.is_empty());
}

#[test]
fn test_toggle_and_set_muting() {
    let mut config = Config::default();
    assert!(config.muting_enabled);
    let now_enabled = config.toggle_muting();
    assert!(!now_enabled);
    assert!(!config.muting_enabled);
    let again = config.toggle_muting();
    assert!(again);
    config.set_muting(false);
    assert!(!config.muting_enabled);
    config.set_muting(true);
    assert!(config.muting_enabled);
}
