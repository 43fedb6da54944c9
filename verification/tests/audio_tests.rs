use bg_muter::audio::dedup_sessions;
use bg_muter::audio::label_session;
use bg_muter::audio::session_process_name;
use bg_muter::audio::AudioSession;
use bg_muter::AudioManager;

fn session(pid: u32, name: &str, muted: bool) -> AudioSession {
    AudioSession {
        process_id: pid,
        process_name: String::from(name),
        display_name: String::from(name),
        is_muted: muted,
    }
}

#[test]
fn test_dedup_keeps_first_per_pid() {
    let raw = vec![
        session(100, "console-route", false),
        session(200, "player.exe", true),
        session(100, "multimedia-route", true),
        session(300, "game.exe", false),
        session(200, "player-again", false),
    ];
    let deduped = dedup_sessions(&raw);
    assert_eq!(deduped.len(), 3);
    assert_eq!(deduped[0].process_id, 100);
    assert_eq!(deduped[0].process_name, "console-route");
    assert_eq!(deduped[1].process_id, 200);
    assert_eq!(deduped[1].process_name, "player.exe");
    assert!(deduped[1].is_muted);
    assert_eq!(deduped[2].process_id, 300);
}

#[test]
fn test_label_session_display_rules() {
    // A real display name is kept.
    let s = label_session(
        5,
        String::from("app.exe"),
        Some(String::from("My Player")),
        false,
    );
    assert_eq!(s.display_name, "My Player");
    assert_eq!(s.process_name, "app.exe");

    // An empty display name falls back to the process name.
    let s = label_session(5, String::from("app.exe"), Some(String::new()), false);
    assert_eq!(s.display_name, "app.exe");

    // A resource reference is rejected.
    let s = label_session(
        5,
        String::from("app.exe"),
        Some(String::from("@%SystemRoot%\\resource.dll,-99")),
        true,
    );
    assert_eq!(s.display_name, "app.exe");
    assert!(s.is_muted);

    // No display name at all falls back too.
    let s = label_session(5, String::from("app.exe"), None, false);
    assert_eq!(s.display_name, "app.exe");
}

#[test]
fn test_label_session_relabels_system_sounds() {
    // A session that could only be resolved to the pseudo-process but
    // carries a real display name is relabelled with it.
    let s = label_session(
        6,
        String::from("System Sounds"),
        Some(String::from("Helpful Tool")),
        false,
    );
    assert_eq!(s.process_name, "Helpful Tool");

    // Process id zero stays the pseudo-process.
    let s = label_session(
        0,
        String::from("System Sounds"),
        Some(String::from("Anything")),
        false,
    );
    assert_eq!(s.process_name, "System Sounds");
}

#[test]
fn test_session_process_name() {
    assert_eq!(session_process_name(0, None, None), "System Sounds");
    assert_eq!(
        session_process_name(8, Some(String::from("C:\\x\\tool.exe")), None),
        "tool.exe"
    );
    assert_eq!(
        session_process_name(8, None, Some(String::from("C:\\Windows\\explorer.exe"))),
        "explorer.exe"
    );
    // An unresolvable process is treated as system sounds, not dropped.
    assert_eq!(session_process_name(8, None, None), "System Sounds");
    assert_eq!(
        session_process_name(8, Some(String::from("C:\\Windows\\dwm.exe")), None),
        "System Sounds"
    );
}

#[test]
fn test_audio_manager_cache() {
    let mut manager = AudioManager::new();
    assert!(!manager.has_session(100));
    // A mute or unmute for an uncached process id is a benign no-op.
    assert!(manager.mute_process(100).is_none());
    assert!(manager.unmute_process(100).is_none());

    let list = vec![session(100, "app.exe", false), session(200, "other.exe", true)];
    manager.replace_sessions(&list);
    assert!(manager.has_session(100));
    assert!(manager.has_session(200));
    assert!(!manager.has_session(300));

    let act = manager.mute_process(100).unwrap();
    assert_eq!(act.pid, 100);
    assert!(act.mute);
    let act = manager.unmute_process(200).unwrap();
    assert_eq!(act.pid, 200);
    assert!(!act.mute);

    // The replacement is wholesale: entries of vanished processes go away.
    manager.replace_sessions(&vec![session(200, "other.exe", true)]);
    assert!(!manager.has_session(100));
    assert!(manager.has_session(200));
}
