use openclaw_helper::paths::{
    create_base_path_env, env_value, expand_windows_env_vars, merge_path_entries, path_extra_entries,
    path_separator, resolve_command_in_path, windows_command_candidates,
    windows_command_candidates_for, PathSources,
};
use openclaw_helper::platform::Platform;
use openclaw_helper::semver::{compare_semver, is_newer, parse_semver_tuple, pick_latest_version};
use std::cmp::Ordering;

fn env(pairs: &[(&str, &str)]) -> Vec<(String, String)> {
    pairs.iter().map(|(k, v)| (k.to_string(), v.to_string())).collect()
}

fn strings(words: &[&str]) -> Vec<String> {
    words.iter().map(|w| w.to_string()).collect()
}

fn no_sources() -> PathSources {
    PathSources {
        existing: None,
        local_bin: None,
        user_path: None,
        machine_path: None,
        home_dirs: None,
        nvm_home: None,
        nvm_symlink: None,
    }
}

#[test]
fn separators() {
    assert_eq!(path_separator(Platform::Windows), ';');
    assert_eq!(path_separator(Platform::MacOs), ':');
    assert_eq!(path_separator(Platform::Other), ':');
}

#[test]
fn environment_lookup_ignores_ascii_case() {
    let e = env(&[("Path", "x"), ("APPDATA", " C:\\Users\\me\\AppData\\Roaming ")]);
    assert_eq!(env_value(&e, &"appdata".chars().collect()).as_deref(), Some(" C:\\Users\\me\\AppData\\Roaming "));
    assert_eq!(env_value(&e, &"PATH".chars().collect()).as_deref(), Some("x"));
    assert_eq!(env_value(&e, &"A=B".chars().collect()), None);
    assert_eq!(env_value(&e, &"missing".chars().collect()), None);
}

#[test]
fn windows_variables_are_expanded() {
    let e = env(&[("APPDATA", " C:\\Users\\me\\AppData\\Roaming "), ("EMPTY", "")]);
    assert_eq!(
        expand_windows_env_vars("%APPDATA%\\npm", &e),
        "C:\\Users\\me\\AppData\\Roaming\\npm"
    );
    assert_eq!(expand_windows_env_vars("%UNSET%\\x", &e), "%UNSET%\\x");
    assert_eq!(expand_windows_env_vars("100% sure", &e), "100% sure");
    assert_eq!(expand_windows_env_vars("%  %", &e), "%  %");
    assert_eq!(expand_windows_env_vars("a%EMPTY%b", &e), "ab");
    assert_eq!(expand_windows_env_vars("%% APPDATA %", &e), "%C:\\Users\\me\\AppData\\Roaming");
}

#[test]
fn path_entries_are_merged_without_duplicates() {
    let merged = merge_path_entries(
        Platform::MacOs,
        &vec![],
        Some("/usr/bin: /opt/x ::/usr/bin"),
        &strings(&["/opt/homebrew/bin", "/usr/bin:/bin"]),
        true,
    );
    assert_eq!(merged, "/opt/homebrew/bin:/usr/bin:/bin:/opt/x");
    let merged = merge_path_entries(
        Platform::Windows,
        &env(&[("SystemRoot", "C:\\Windows")]),
        Some("C:\\Tools;c:\\tools;%SystemRoot%\\system32"),
        &strings(&["C:\\TOOLS", "C:\\nodejs"]),
        false,
    );
    assert_eq!(merged, "C:\\Tools;C:\\Windows\\system32;C:\\nodejs");
    assert_eq!(merge_path_entries(Platform::MacOs, &vec![], None, &vec![], true), "");
}

#[test]
fn base_path_on_unix() {
    let mut src = no_sources();
    src.existing = Some("/usr/bin:/custom".into());
    src.local_bin = Some("/home/me/.local/bin".into());
    assert_eq!(
        path_extra_entries(Platform::MacOs, &src),
        strings(&["/opt/homebrew/bin", "/usr/local/bin", "/home/me/.local/bin", "/usr/bin", "/bin", "/usr/sbin", "/sbin"])
    );
    assert_eq!(
        create_base_path_env(Platform::MacOs, &vec![], &src),
        "/opt/homebrew/bin:/usr/local/bin:/home/me/.local/bin:/usr/bin:/bin:/usr/sbin:/sbin:/custom"
    );
}

#[test]
fn base_path_on_windows() {
    let mut src = no_sources();
    src.existing = Some("C:\\Windows".into());
    src.user_path = Some("%USERPROFILE%\\bin;C:\\Windows".into());
    src.home_dirs = Some(("C:\\Users\\me\\AppData\\Roaming\\npm".into(), "C:\\Users\\me\\AppData\\Local\\nvm".into()));
    src.nvm_symlink = Some("C:\\nvm4w\\nodejs".into());
    let extras = path_extra_entries(Platform::Windows, &src);
    assert_eq!(
        extras,
        strings(&[
            "%USERPROFILE%\\bin;C:\\Windows",
            "C:\\Users\\me\\AppData\\Roaming\\npm",
            "C:\\Users\\me\\AppData\\Local\\nvm",
            "C:\\nvm4w\\nodejs",
            "C:\\Program Files\\Git\\cmd",
            "C:\\Program Files\\nodejs",
            "C:\\nvm4w\\nodejs",
        ])
    );
    let e = env(&[("USERPROFILE", "C:\\Users\\me")]);
    assert_eq!(
        create_base_path_env(Platform::Windows, &e, &src),
        "C:\\Windows;C:\\Users\\me\\bin;C:\\Users\\me\\AppData\\Roaming\\npm;C:\\Users\\me\\AppData\\Local\\nvm;C:\\nvm4w\\nodejs;C:\\Program Files\\Git\\cmd;C:\\Program Files\\nodejs"
    );
}

#[test]
fn windows_candidate_names() {
    assert_eq!(
        windows_command_candidates_for("npm", false),
        strings(&["npm.cmd", "npm.exe", "npm.bat", "npm.com", "npm"])
    );
    assert_eq!(windows_command_candidates_for("npm.cmd", true), strings(&["npm.cmd"]));
    // `Path::extension` decides whether the name already has one.
    assert_eq!(windows_command_candidates("node.exe"), strings(&["node.exe"]));
    assert_eq!(windows_command_candidates("node").len(), 5);
}

#[test]
fn command_search_takes_first_hit_in_path_order() {
    let probe = |dir: String, name: String| -> Option<String> {
        if dir == "/b" && name == "openclaw" {
            Some(format!("{dir}/{name}"))
        } else if dir == "/c" {
            Some(format!("{dir}/{name}"))
        } else {
            None
        }
    };
    assert_eq!(
        resolve_command_in_path("openclaw", "/a: :/b:/c", Platform::MacOs, &probe).as_deref(),
        Some("/b/openclaw")
    );
    assert_eq!(resolve_command_in_path("openclaw", "/a", Platform::MacOs, &probe), None);
    let win = |dir: String, name: String| -> Option<String> {
        if name == "npm.cmd" || name == "npm" {
            Some(format!("{dir}\\{name}"))
        } else {
            None
        }
    };
    assert_eq!(
        resolve_command_in_path("npm", "C:\\a;C:\\b", Platform::Windows, &win).as_deref(),
        Some("C:\\a\\npm.cmd")
    );
}

#[test]
fn semantic_versions() {
    assert_eq!(parse_semver_tuple("v22.3.0"), Some((22, 3, 0)));
    assert_eq!(parse_semver_tuple("22.3.0.9"), Some((22, 3, 0)));
    assert_eq!(parse_semver_tuple("v22.3"), None);
    assert_eq!(parse_semver_tuple("v22.x.1"), None);
    assert_eq!(compare_semver((22, 1, 0), (22, 0, 9)), Ordering::Greater);
    assert_eq!(compare_semver((1, 2, 3), (1, 2, 3)), Ordering::Equal);
    assert_eq!(compare_semver((1, 2, 3), (2, 0, 0)), Ordering::Less);
    assert!(is_newer((20, 0, 1), (20, 0, 0)));
    assert!(!is_newer((20, 0, 0), (20, 0, 0)));
}

#[test]
fn newest_nvm_version_with_openclaw_wins() {
    let entries: Vec<(String, bool)> = vec![
        ("v20.1.0".into(), true),
        ("v22.3.0".into(), false),
        ("system".into(), true),
        ("v21.9.9".into(), true),
        ("v21.10.0".into(), true),
        ("v21.10.0".into(), true),
    ];
    assert_eq!(pick_latest_version(&entries), Some(4));
    let none: Vec<(String, bool)> = vec![("v22.0.0".into(), false), ("x".into(), true)];
    assert_eq!(pick_latest_version(&none), None);
}

#[test]
fn merging_a_merged_path_again_changes_nothing() {
    let merged = merge_path_entries(
        Platform::MacOs,
        &vec![],
        Some("/usr/bin: /opt/x ::/usr/bin"),
        &strings(&["/opt/homebrew/bin", "/usr/bin:/bin"]),
        true,
    );
    let parts: Vec<&str> = merged.split(':').collect();
    assert_eq!(parts, vec!["/opt/homebrew/bin", "/usr/bin", "/bin", "/opt/x"]);
    for first in [true, false] {
        assert_eq!(merge_path_entries(Platform::MacOs, &vec![], Some(&merged), &vec![], first), merged);
        assert_eq!(
            merge_path_entries(Platform::MacOs, &vec![], Some(&merged), &strings(&[merged.as_str()]), first),
            merged
        );
    }
}
