use bg_muter::process::is_foreground_process;
use bg_muter::process::normalize_system_process_name;
use bg_muter::process::resolve_process_name;
use bg_muter::ForegroundTracker;
use bg_muter::ProcessInfo;

#[test]
fn test_foreground_tracker() {
    let mut tracker = ForegroundTracker::new();
    let _ = tracker.check_foreground_change(None);
    // Second call should return None if foreground hasn't changed
}

#[test]
fn test_tracker_transitions() {
    let mut tracker = ForegroundTracker::new();
    assert_eq!(tracker.last_foreground(), None);
    assert_eq!(tracker.check_foreground_change(Some(7)), Some(7));
    assert_eq!(tracker.last_foreground(), Some(7));
    assert_eq!(tracker.check_foreground_change(Some(7)), None);
    assert_eq!(tracker.check_foreground_change(Some(9)), Some(9));
    // A transition to an undeterminable foreground reports no new process id.
    assert_eq!(tracker.check_foreground_change(None), None);
    assert_eq!(tracker.last_foreground(), None);
}

#[test]
fn test_is_foreground_process() {
    assert!(is_foreground_process(42, Some(42)));
    assert!(!is_foreground_process(42, Some(43)));
    assert!(!is_foreground_process(42, None));
}

#[test]
fn test_from_pid() {
    let info = ProcessInfo::from_pid(
        1234,
        Some(String::from("C:\\Program Files\\Google\\Chrome.EXE")),
    )
    .unwrap();
    assert_eq!(info.pid, 1234);
    assert_eq!(info.exe_name(), "Chrome.EXE");
    assert_eq!(info.normalized_name(), "chrome");
    assert_eq!(
        info.exe_path.as_deref(),
        Some("C:\\Program Files\\Google\\Chrome.EXE")
    );

    assert!(ProcessInfo::from_pid(1234, None).is_none());
}

#[test]
fn test_from_pid_placeholder_name() {
    // A path that ends in a separator has no file name: the generated
    // placeholder takes its place.
    let info = ProcessInfo::from_pid(77, Some(String::from("C:\\oddity\\"))).unwrap();
    assert_eq!(info.exe_name(), "Process 77");
}

#[test]
fn test_normalized_name_trims_repeated_suffix() {
    let info = ProcessInfo::from_pid(5, Some(String::from("D:/games/Loud.exe.EXE"))).unwrap();
    assert_eq!(info.exe_name(), "Loud.exe.EXE");
    assert_eq!(info.normalized_name(), "loud");
}

#[test]
fn test_resolver_tiers() {
    // The full-access lookup wins when it resolves.
    assert_eq!(
        resolve_process_name(
            10,
            Some(String::from("C:\\a\\first.exe")),
            Some(String::from("C:\\a\\second.exe"))
        ),
        "first.exe"
    );
    // The reduced-privilege lookup is the fallback.
    assert_eq!(
        resolve_process_name(10, None, Some(String::from("C:\\a\\second.exe"))),
        "second.exe"
    );
    // Both lookups failing yields the generated placeholder.
    assert_eq!(resolve_process_name(10, None, None), "Process 10");
    assert_eq!(
        resolve_process_name(4294967295, None, None),
        "Process 4294967295"
    );
    // Recognized system services are normalized even through the resolver.
    assert_eq!(
        resolve_process_name(10, Some(String::from("C:\\Windows\\AudioDG.exe")), None),
        "System Sounds"
    );
}

#[test]
fn test_normalize_system_process_name() {
    assert_eq!(
        normalize_system_process_name(String::from("audiodg.exe")),
        "System Sounds"
    );
    assert_eq!(
        normalize_system_process_name(String::from("SVCHOST.EXE")),
        "System Sounds"
    );
    assert_eq!(
        normalize_system_process_name(String::from("Dwm.Exe")),
        "System Sounds"
    );
    assert_eq!(
        normalize_system_process_name(String::from("rundll32.exe")),
        "System Sounds"
    );
    assert_eq!(
        normalize_system_process_name(String::from("systemsounds.exe")),
        "System Sounds"
    );
    assert_eq!(
        normalize_system_process_name(String::from("spotify.exe")),
        "spotify.exe"
    );
}
