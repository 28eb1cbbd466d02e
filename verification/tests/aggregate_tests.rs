use launchd_core::get_launchd_service_info;
use launchd_core::get_launchd_services;
use launchd_core::with_daemon_state;
use launchd_core::ProbeOutcome;
use launchd_core::ScannedService;
use launchd_core::Scope;

fn scanned(label: &str, path: &str, scope: Scope) -> ScannedService {
    ScannedService { label: label.to_string(), path: path.to_string(), scope }
}

#[test]
fn list_is_sorted_ascending_by_label() {
    let descriptors = vec![
        scanned("com.zeta", "/Library/LaunchAgents/z.plist", Scope::System),
        scanned("com.alpha", "/Users/me/Library/LaunchAgents/a.plist", Scope::User),
        scanned("com.mid", "/Library/LaunchAgents/m.plist", Scope::System),
    ];
    let probes = vec![
        ProbeOutcome { loaded: false, pid: None },
        ProbeOutcome { loaded: true, pid: Some(10) },
        ProbeOutcome { loaded: true, pid: None },
    ];
    let views = get_launchd_services(&descriptors, &probes).unwrap();
    assert_eq!(views.len(), 3);
    assert_eq!(views[0].label, "com.alpha");
    assert_eq!(views[1].label, "com.mid");
    assert_eq!(views[2].label, "com.zeta");
    assert!(views[0].running && views[0].loaded && views[0].pid == Some(10));
    assert!(!views[1].running && views[1].loaded && views[1].pid.is_none());
    assert!(!views[2].running && !views[2].loaded);
}

#[test]
fn empty_scan_lists_nothing() {
    let descriptors: Vec<ScannedService> = Vec::new();
    let probes: Vec<ProbeOutcome> = Vec::new();
    let views = get_launchd_services(&descriptors, &probes).unwrap();
    assert!(views.is_empty());
}

#[test]
fn unloaded_probe_yields_quiet_view() {
    // A descriptor in the per-user directory whose label the daemon does
    // not report as loaded lists as present but idle.
    let descriptors = vec![scanned(
        "com.example.foo",
        "/Users/me/Library/LaunchAgents/com.example.foo.plist",
        Scope::User,
    )];
    let probes = vec![ProbeOutcome { loaded: false, pid: None }];
    let views = get_launchd_services(&descriptors, &probes).unwrap();
    assert_eq!(views.len(), 1);
    let v = &views[0];
    assert_eq!(v.label, "com.example.foo");
    assert!(matches!(v.scope, Scope::User));
    assert!(!v.loaded);
    assert!(!v.running);
    assert_eq!(v.pid, None);
}

#[test]
fn running_implies_loaded_for_every_probe_outcome() {
    let descriptors = vec![
        scanned("com.a", "/tmp/a.plist", Scope::User),
        scanned("com.b", "/tmp/b.plist", Scope::User),
        scanned("com.c", "/tmp/c.plist", Scope::User),
        scanned("com.d", "/tmp/d.plist", Scope::User),
    ];
    let probes = vec![
        ProbeOutcome { loaded: false, pid: None },
        ProbeOutcome { loaded: false, pid: Some(99) },
        ProbeOutcome { loaded: true, pid: None },
        ProbeOutcome { loaded: true, pid: Some(7) },
    ];
    let views = get_launchd_services(&descriptors, &probes).unwrap();
    for v in &views {
        assert!(!v.running || v.loaded);
    }
    // A pid reported for an unloaded label is discarded.
    let b = views.iter().find(|v| v.label == "com.b").unwrap();
    assert!(!b.loaded && !b.running && b.pid.is_none());
}

#[test]
fn repeated_listing_is_identical() {
    let descriptors = vec![
        scanned("com.twin", "/tmp/t.plist", Scope::User),
        scanned("com.twin", "/tmp/u.plist", Scope::System),
        scanned("com.solo", "/tmp/s.plist", Scope::User),
    ];
    let probes = vec![
        ProbeOutcome { loaded: true, pid: Some(1) },
        ProbeOutcome { loaded: false, pid: None },
        ProbeOutcome { loaded: true, pid: None },
    ];
    let first = get_launchd_services(&descriptors, &probes).unwrap();
    let second = get_launchd_services(&descriptors, &probes).unwrap();
    assert_eq!(first.len(), second.len());
    for (a, b) in first.iter().zip(second.iter()) {
        assert_eq!(a.label, b.label);
        assert_eq!(a.path, b.path);
        assert_eq!(a.loaded, b.loaded);
        assert_eq!(a.running, b.running);
        assert_eq!(a.pid, b.pid);
    }
}

fn full_descriptor() -> Vec<u8> {
    let s = "<?xml version=\"1.0\" encoding=\"UTF-8\"?>\n\
<plist version=\"1.0\">\n\
<dict>\n\
    <key>Label</key><string>com.example.foo</string>\n\
    <key>Program</key><string>/usr/bin/foo</string>\n\
    <key>ProgramArguments</key><array><string>/usr/bin/foo</string><string>--serve</string></array>\n\
    <key>RunAtLoad</key><true/>\n\
    <key>KeepAlive</key><false/>\n\
    <key>WorkingDirectory</key><string>/var/tmp</string>\n\
    <key>StandardOutPath</key><string>/tmp/foo.log</string>\n\
    <key>StandardErrorPath</key><string>/tmp/foo.err</string>\n\
</dict>\n\
</plist>\n";
    s.as_bytes().to_vec()
}

#[test]
fn detail_of_missing_path_is_not_found() {
    let r = get_launchd_service_info("/nowhere/x.plist", &None);
    assert_eq!(r.unwrap_err(), "Plist file not found: /nowhere/x.plist");
}

#[test]
fn detail_without_label_is_parse_error() {
    let s = "<?xml version=\"1.0\" encoding=\"UTF-8\"?>\n<plist version=\"1.0\">\n<dict>\n    <key>Program</key><string>/usr/bin/foo</string>\n</dict>\n</plist>\n";
    let r = get_launchd_service_info("/tmp/x.plist", &Some(s.as_bytes().to_vec()));
    assert_eq!(r.unwrap_err(), "Missing Label in plist");
}

#[test]
fn detail_of_non_dictionary_is_parse_error() {
    let s = "<?xml version=\"1.0\" encoding=\"UTF-8\"?>\n<plist version=\"1.0\">\n<array><string>x</string></array>\n</plist>\n";
    let r = get_launchd_service_info("/tmp/x.plist", &Some(s.as_bytes().to_vec()));
    assert_eq!(r.unwrap_err(), "Invalid plist format: expected dictionary");
}

#[test]
fn detail_of_unreadable_bytes_is_parse_error() {
    let r = get_launchd_service_info("/tmp/x.plist", &Some(b"garbage".to_vec()));
    let e = r.unwrap_err();
    assert!(e.starts_with("Failed to parse plist: "));
}

#[test]
fn detail_reads_every_field() {
    let path = "/Users/me/Library/LaunchAgents/com.example.foo.plist";
    let info = get_launchd_service_info(path, &Some(full_descriptor())).unwrap();
    assert_eq!(info.label, "com.example.foo");
    assert_eq!(info.path, path);
    assert!(matches!(info.scope, Scope::User));
    assert!(!info.loaded && !info.running && info.pid.is_none());
    assert_eq!(info.program.as_deref(), Some("/usr/bin/foo"));
    assert_eq!(
        info.program_arguments,
        Some(vec!["/usr/bin/foo".to_string(), "--serve".to_string()])
    );
    assert_eq!(info.run_at_load, Some(true));
    assert_eq!(info.keep_alive, Some(false));
    assert_eq!(info.working_directory.as_deref(), Some("/var/tmp"));
    assert_eq!(info.standard_out_path.as_deref(), Some("/tmp/foo.log"));
    assert_eq!(info.standard_error_path.as_deref(), Some("/tmp/foo.err"));
}

#[test]
fn detail_scope_follows_path_heuristic() {
    let sys = get_launchd_service_info(
        "/Library/LaunchAgents/com.example.foo.plist",
        &Some(full_descriptor()),
    )
    .unwrap();
    assert!(matches!(sys.scope, Scope::System));
    let user = get_launchd_service_info(
        "/Users/me/Library/LaunchAgents/com.example.foo.plist",
        &Some(full_descriptor()),
    )
    .unwrap();
    assert!(matches!(user.scope, Scope::User));
    let tilde = get_launchd_service_info(
        "~/Library/LaunchAgents/com.example.foo.plist",
        &Some(full_descriptor()),
    )
    .unwrap();
    assert!(matches!(tilde.scope, Scope::User));
}

#[test]
fn daemon_state_attaches_only_when_loaded() {
    let info = get_launchd_service_info(
        "/tmp/com.example.foo.plist",
        &Some(full_descriptor()),
    )
    .unwrap();
    let running = with_daemon_state(info, true, Some(1234));
    assert!(running.loaded && running.running);
    assert_eq!(running.pid, Some(1234));
    assert_eq!(running.label, "com.example.foo");
    assert_eq!(running.program.as_deref(), Some("/usr/bin/foo"));

    let info2 = get_launchd_service_info(
        "/tmp/com.example.foo.plist",
        &Some(full_descriptor()),
    )
    .unwrap();
    let quiet = with_daemon_state(info2, false, Some(1234));
    assert!(!quiet.loaded && !quiet.running);
    assert_eq!(quiet.pid, None);
}
