use launchd_core::get_label_from_plist;
use launchd_core::get_launchagent_directories;
use launchd_core::scan_directories;
use launchd_core::scan_directory;
use launchd_core::ScanFile;
use launchd_core::Scope;

fn descriptor(label: &str) -> Vec<u8> {
    let mut s = String::new();
    s.push_str("<?xml version=\"1.0\" encoding=\"UTF-8\"?>\n");
    s.push_str("<plist version=\"1.0\">\n<dict>\n");
    s.push_str("    <key>Label</key><string>");
    s.push_str(label);
    s.push_str("</string>\n");
    s.push_str("    <key>Program</key><string>/usr/bin/foo</string>\n");
    s.push_str("</dict>\n</plist>\n");
    s.into_bytes()
}

fn no_label_descriptor() -> Vec<u8> {
    let s = "<?xml version=\"1.0\" encoding=\"UTF-8\"?>\n<plist version=\"1.0\">\n<dict>\n    <key>Program</key><string>/usr/bin/foo</string>\n</dict>\n</plist>\n";
    s.as_bytes().to_vec()
}

#[test]
fn label_extracted_from_descriptor() {
    let bytes = descriptor("com.example.foo");
    let label = get_label_from_plist(&bytes);
    assert_eq!(label.as_deref(), Some("com.example.foo"));
}

#[test]
fn label_missing_yields_none() {
    let bytes = no_label_descriptor();
    assert!(get_label_from_plist(&bytes).is_none());
}

#[test]
fn garbage_bytes_yield_none() {
    let bytes = b"not a plist at all".to_vec();
    assert!(get_label_from_plist(&bytes).is_none());
}

#[test]
fn scan_accepts_exactly_valid_plist_files() {
    let files = vec![
        ScanFile {
            name: "b.plist".to_string(),
            path: "/Library/LaunchAgents/b.plist".to_string(),
            bytes: descriptor("com.b"),
        },
        ScanFile {
            name: "notes.txt".to_string(),
            path: "/Library/LaunchAgents/notes.txt".to_string(),
            bytes: descriptor("com.ignored"),
        },
        ScanFile {
            name: "broken.plist".to_string(),
            path: "/Library/LaunchAgents/broken.plist".to_string(),
            bytes: b"garbage".to_vec(),
        },
        ScanFile {
            name: "nolabel.plist".to_string(),
            path: "/Library/LaunchAgents/nolabel.plist".to_string(),
            bytes: no_label_descriptor(),
        },
        ScanFile {
            name: "a.plist".to_string(),
            path: "/Library/LaunchAgents/a.plist".to_string(),
            bytes: descriptor("com.a"),
        },
    ];
    let scanned = scan_directory(&files, Scope::System);
    assert_eq!(scanned.len(), 2);
    assert_eq!(scanned[0].label, "com.b");
    assert_eq!(scanned[0].path, "/Library/LaunchAgents/b.plist");
    assert_eq!(scanned[1].label, "com.a");
}

#[test]
fn scan_of_missing_directory_is_empty() {
    // A directory that does not exist contributes no candidate files,
    // and a scan over no candidates yields no entries and no error.
    let files: Vec<ScanFile> = Vec::new();
    let scanned = scan_directory(&files, Scope::User);
    assert!(scanned.is_empty());
}

#[test]
fn hidden_plist_file_has_no_extension() {
    // ".plist" alone is a hidden file with no stem, not a descriptor.
    let files = vec![ScanFile {
        name: ".plist".to_string(),
        path: "/Library/LaunchAgents/.plist".to_string(),
        bytes: descriptor("com.hidden"),
    }];
    let scanned = scan_directory(&files, Scope::User);
    assert!(scanned.is_empty());
}

#[test]
fn both_scopes_scanned_in_order() {
    let user_files = vec![ScanFile {
        name: "u.plist".to_string(),
        path: "/Users/me/Library/LaunchAgents/u.plist".to_string(),
        bytes: descriptor("com.user.agent"),
    }];
    let system_files = vec![
        ScanFile {
            name: "s.plist".to_string(),
            path: "/Library/LaunchAgents/s.plist".to_string(),
            bytes: descriptor("com.system.agent"),
        },
        ScanFile {
            name: "bad.plist".to_string(),
            path: "/Library/LaunchAgents/bad.plist".to_string(),
            bytes: no_label_descriptor(),
        },
    ];
    let scanned = scan_directories(&user_files, &system_files);
    assert_eq!(scanned.len(), 2);
    assert_eq!(scanned[0].label, "com.user.agent");
    assert!(matches!(scanned[0].scope, Scope::User));
    assert_eq!(scanned[1].label, "com.system.agent");
    assert!(matches!(scanned[1].scope, Scope::System));
}

#[test]
fn directories_listed_in_scope_order() {
    let home = Some("/Users/me".to_string());
    let dirs = get_launchagent_directories(&home, true, true);
    assert_eq!(dirs.len(), 2);
    assert_eq!(dirs[0].path, "/Users/me/Library/LaunchAgents");
    assert!(matches!(dirs[0].scope, Scope::User));
    assert_eq!(dirs[1].path, "/Library/LaunchAgents");
    assert!(matches!(dirs[1].scope, Scope::System));
}

#[test]
fn missing_directories_are_left_out() {
    let home = Some("/Users/me".to_string());
    let dirs = get_launchagent_directories(&home, false, false);
    assert!(dirs.is_empty());
    let no_home: Option<String> = None;
    let dirs = get_launchagent_directories(&no_home, true, true);
    assert_eq!(dirs.len(), 1);
    assert_eq!(dirs[0].path, "/Library/LaunchAgents");
}
