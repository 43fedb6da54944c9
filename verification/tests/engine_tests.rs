use bg_muter::audio::AudioSession;
use bg_muter::audio::MuteAction;
use bg_muter::Config;
use bg_muter::MuterEngine;

const OWN_PID: u32 = 1;

fn session(pid: u32, name: &str, muted: bool) -> AudioSession {
    AudioSession {
        process_id: pid,
        process_name: String::from(name),
        display_name: String::from(name),
        is_muted: muted,
    }
}

fn unmutes_for(actions: &[MuteAction], pid: u32) -> usize {
    actions.iter().filter(|a| a.pid == pid && !a.mute).count()
}

fn mutes_for(actions: &[MuteAction], pid: u32) -> usize {
    actions.iter().filter(|a| a.pid == pid && a.mute).count()
}

#[test]
fn scenario_background_app_is_muted() {
    let config = Config::default();
    let mut engine = MuterEngine::new(OWN_PID, 0);
    assert!(engine.should_refresh(2000, None));
    let (result, actions) = engine.update(
        &config,
        2000,
        None,
        Some(vec![session(100, "app.exe", false)]),
    );
    assert!(engine.is_muted_by_us(100));
    assert_eq!(mutes_for(&actions, 100), 1);
    assert_eq!(result.muted_count, 1);
    assert_eq!(result.active_sessions, 1);
}

#[test]
fn scenario_foreground_change_unmutes() {
    let config = Config::default();
    let mut engine = MuterEngine::new(OWN_PID, 0);
    assert!(engine.should_refresh(2000, None));
    let _ = engine.update(
        &config,
        2000,
        None,
        Some(vec![session(100, "app.exe", false)]),
    );
    assert!(engine.is_muted_by_us(100));

    // The foreground moves to pid 100: the change forces a refresh and the
    // next tick unmutes it.
    assert!(engine.should_refresh(2100, Some(100)));
    let (result, actions) = engine.update(
        &config,
        2100,
        Some(100),
        Some(vec![session(100, "app.exe", true)]),
    );
    assert!(!engine.is_muted_by_us(100));
    assert_eq!(unmutes_for(&actions, 100), 1);
    assert!(result.foreground_changed);
    assert_eq!(result.muted_count, 0);
}

#[test]
fn scenario_always_muted_while_foreground() {
    let mut config = Config::default();
    config.add_always_muted_app("player.exe");
    let mut engine = MuterEngine::new(OWN_PID, 0);
    assert!(engine.should_refresh(2000, Some(200)));
    let (_, actions) = engine.update(
        &config,
        2000,
        Some(200),
        Some(vec![session(200, "player.exe", false)]),
    );
    // Muted although pid 200 owns the foreground window.
    assert!(engine.is_muted_by_us(200));
    assert_eq!(mutes_for(&actions, 200), 1);
}

#[test]
fn scenario_disabling_muting_unmutes_everything() {
    let mut config = Config::default();
    config.add_always_muted_app("player.exe");
    let mut engine = MuterEngine::new(OWN_PID, 0);
    let list = vec![
        session(100, "app.exe", false),
        session(200, "player.exe", false),
    ];
    assert!(engine.should_refresh(2000, Some(999)));
    let _ = engine.update(&config, 2000, Some(999), Some(list));
    assert!(engine.is_muted_by_us(100));
    assert!(engine.is_muted_by_us(200));

    config.set_muting(false);
    let list = vec![
        session(100, "app.exe", true),
        session(200, "player.exe", true),
    ];
    assert!(engine.should_refresh(4001, Some(999)));
    let (result, actions) = engine.update(&config, 4001, Some(999), Some(list));
    assert!(!engine.is_muted_by_us(100));
    assert!(!engine.is_muted_by_us(200));
    assert_eq!(result.muted_count, 0);
    assert_eq!(engine.muted_count(), 0);
    assert_eq!(unmutes_for(&actions, 100), 1);
    assert_eq!(unmutes_for(&actions, 200), 1);
}

#[test]
fn failsafe_unmute_all() {
    let config = Config::default();
    let mut engine = MuterEngine::new(OWN_PID, 0);
    let list = vec![
        session(100, "app.exe", false),
        session(200, "player.exe", false),
    ];
    let _ = engine.update(&config, 2000, None, Some(list));
    assert_eq!(engine.muted_count(), 2);

    // Simulated teardown: the owner runs the fail-safe before release.
    let actions = engine.unmute_all();
    assert_eq!(engine.muted_count(), 0);
    assert_eq!(actions.len(), 2);
    assert!(actions.iter().all(|a| !a.mute));
    for state in engine.get_app_states() {
        assert!(!state.is_muted_by_us);
    }
}

#[test]
fn exclusion_unmutes_within_one_tick_and_stays() {
    let mut config = Config::default();
    let mut engine = MuterEngine::new(OWN_PID, 0);
    let _ = engine.update(&config, 2000, None, Some(vec![session(100, "Game.exe", false)]));
    assert!(engine.is_muted_by_us(100));

    config.add_excluded_app("Game.exe");
    let (_, actions) = engine.update(
        &config,
        4001,
        None,
        Some(vec![session(100, "Game.exe", true)]),
    );
    assert!(!engine.is_muted_by_us(100));
    assert_eq!(unmutes_for(&actions, 100), 1);

    // While the exclusion stands the process stays unmuted on later ticks.
    let (_, actions) = engine.update(
        &config,
        8000,
        None,
        Some(vec![session(100, "Game.exe", false)]),
    );
    assert!(!engine.is_muted_by_us(100));
    assert_eq!(unmutes_for(&actions, 100), 0);
    assert_eq!(mutes_for(&actions, 100), 0);
}

#[test]
fn own_process_is_never_muted() {
    let mut config = Config::default();
    config.add_always_muted_app("bg_muter.exe");
    let mut engine = MuterEngine::new(OWN_PID, 0);
    let list = vec![session(OWN_PID, "bg_muter.exe", false)];
    let (_, actions) = engine.update(&config, 2000, Some(999), Some(list));
    assert!(!engine.is_muted_by_us(OWN_PID));
    assert_eq!(engine.muted_count(), 0);
    assert_eq!(mutes_for(&actions, OWN_PID), 0);
}

#[test]
fn refresh_is_throttled_between_intervals() {
    let config = Config::default();
    let mut engine = MuterEngine::new(OWN_PID, 0);
    assert!(engine.should_refresh(2000, None));
    let _ = engine.update(&config, 2000, None, Some(vec![session(100, "app.exe", false)]));

    // No foreground change, within the two-second interval: no enumeration.
    assert!(!engine.should_refresh(2500, None));
    let (result, actions) = engine.update(&config, 2500, None, None);
    assert!(actions.is_empty());
    assert!(!result.foreground_changed);
    assert_eq!(result.muted_count, 1);
    assert!(engine.is_muted_by_us(100));

    // The interval elapsing re-enables the refresh.
    assert!(engine.should_refresh(4000, None));
    // So does a foreground change, immediately.
    assert!(engine.should_refresh(2500, Some(100)));
}

#[test]
fn stale_process_is_evicted_after_one_unmute() {
    let config = Config::default();
    let mut engine = MuterEngine::new(OWN_PID, 0);
    let _ = engine.update(&config, 2000, None, Some(vec![session(100, "app.exe", false)]));
    assert!(engine.is_muted_by_us(100));

    // The process disappears from the enumeration: one forced unmute, the
    // entry is kept but inactive.
    let (_, actions) = engine.update(&config, 4001, None, Some(vec![]));
    assert_eq!(unmutes_for(&actions, 100), 1);
    assert!(!engine.is_muted_by_us(100));
    let states = engine.get_app_states();
    assert_eq!(states.len(), 1);
    assert!(!states[0].is_active);
    assert!(engine.get_active_sessions().is_empty());

    // Still unobserved within the staleness threshold: kept, no second call.
    let (_, actions) = engine.update(&config, 10000, None, Some(vec![]));
    assert_eq!(unmutes_for(&actions, 100), 0);
    assert_eq!(engine.get_app_states().len(), 1);

    // Unobserved beyond the threshold: evicted, still no second call.
    let (result, actions) = engine.update(&config, 40000, None, Some(vec![]));
    assert_eq!(unmutes_for(&actions, 100), 0);
    assert_eq!(engine.get_app_states().len(), 0);
    assert_eq!(result.active_sessions, 0);
}

#[test]
fn user_muted_session_is_not_claimed() {
    let config = Config::default();
    let mut engine = MuterEngine::new(OWN_PID, 0);
    // The session is already muted by the user: the engine neither issues a
    // call nor claims the mute as its own.
    let (_, actions) = engine.update(
        &config,
        2000,
        None,
        Some(vec![session(100, "app.exe", true)]),
    );
    assert!(!engine.is_muted_by_us(100));
    assert!(actions.is_empty());
}

#[test]
fn force_refresh_prunes_vanished_muted_processes() {
    let config = Config::default();
    let mut engine = MuterEngine::new(OWN_PID, 0);
    let _ = engine.update(&config, 2000, None, Some(vec![session(100, "app.exe", false)]));
    assert!(engine.is_muted_by_us(100));

    let actions = engine.force_refresh(3000, &vec![session(200, "other.exe", false)]);
    assert_eq!(unmutes_for(&actions, 100), 1);
    assert!(!engine.is_muted_by_us(100));
    assert_eq!(engine.muted_count(), 0);
    assert!(engine.audio_manager().has_session(200));
    assert!(!engine.audio_manager().has_session(100));
}
