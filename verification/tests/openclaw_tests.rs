use openclaw_helper::openclaw::{
    brew_openclaw_candidates, cleanup_all_mac_nvm_openclaw, fit_count, help_from_output,
    npm_prefix_candidate_paths, npm_prefix_from_output, openclaw_info_from,
    nvm_root_of, parse_reg_query_value, parse_version_from_output, removed_item, resolve_program,
    target_stays_inside,
};
use openclaw_helper::platform::Platform;

#[test]
fn version_is_first_non_empty_line() {
    assert_eq!(parse_version_from_output("\r\n  \n 2026.3.1 \nextra").as_deref(), Some("2026.3.1"));
    assert_eq!(parse_version_from_output(" \n\t\n"), None);
}

#[test]
fn info_after_version_run() {
    let info = openclaw_info_from(
        Ok(("".into(), "openclaw 1.2.3\n".into())),
        Some("help".into()),
        Some("/usr/local/bin/openclaw".into()),
    );
    assert!(info.installed);
    assert_eq!(info.version.as_deref(), Some("openclaw 1.2.3"));
    assert_eq!(info.help.as_deref(), Some("help"));
    assert_eq!(info.executable.as_deref(), Some("/usr/local/bin/openclaw"));
    assert!(info.error.is_none());
    let info = openclaw_info_from(Ok(("".into(), "".into())), None, None);
    assert_eq!(info.version.as_deref(), Some("unknown"));
    let info = openclaw_info_from(Err("No such file or directory (os error 2)".into()), Some("h".into()), None);
    assert!(!info.installed);
    assert!(info.version.is_none());
    assert!(info.help.is_none());
    assert_eq!(info.error.as_deref(), Some("No such file or directory (os error 2)"));
}

#[test]
fn help_text_is_trimmed_or_cut() {
    assert_eq!(help_from_output("  usage: openclaw\n", ""), "usage: openclaw");
    let long = "x".repeat(200_001);
    let cut = help_from_output(&long, "");
    assert_eq!(cut, format!("{}\n…", "x".repeat(200_000)));
    let exact = "y".repeat(199_999);
    assert_eq!(help_from_output(&exact, ""), exact);
}

#[test]
fn characters_that_fit_in_bytes() {
    let v: Vec<char> = "aé中😀".chars().collect();
    assert_eq!(fit_count(&v, 0), 0);
    assert_eq!(fit_count(&v, 1), 1);
    assert_eq!(fit_count(&v, 3), 2);
    assert_eq!(fit_count(&v, 5), 2);
    assert_eq!(fit_count(&v, 6), 3);
    assert_eq!(fit_count(&v, 10), 4);
    assert_eq!(fit_count(&v, 100), 4);
}

#[test]
fn registry_path_value() {
    let out = "\r\nHKEY_CURRENT_USER\\Environment\r\n    Path    REG_EXPAND_SZ    %USERPROFILE%\\bin;C:\\x\r\n\r\n";
    assert_eq!(parse_reg_query_value(out).as_deref(), Some("%USERPROFILE%\\bin;C:\\x"));
    assert_eq!(parse_reg_query_value("ERROR: not found"), None);
    assert_eq!(parse_reg_query_value("Path REG_SZ"), None);
    assert_eq!(
        parse_reg_query_value("header\nPath REG_SZ C:\\y\n").as_deref(),
        Some("C:\\y")
    );
    assert_eq!(parse_reg_query_value("Path REG_SZ   \nPath REG_SZ C:\\y\n"), None);
}

#[test]
fn npm_prefix_is_first_line() {
    assert_eq!(npm_prefix_from_output("/usr/local\n", "").as_deref(), Some("/usr/local"));
    assert_eq!(npm_prefix_from_output("", "  warn\n").as_deref(), Some("warn"));
    assert_eq!(npm_prefix_from_output("", ""), None);
}

#[test]
fn where_openclaw_may_live() {
    assert_eq!(
        npm_prefix_candidate_paths(Platform::Windows),
        vec![vec!["openclaw.cmd".to_string()], vec!["openclaw".to_string()]]
    );
    assert_eq!(
        npm_prefix_candidate_paths(Platform::MacOs),
        vec![vec!["bin".to_string(), "openclaw".to_string()]]
    );
    assert_eq!(
        brew_openclaw_candidates(Platform::MacOs),
        vec!["/opt/homebrew/bin/openclaw".to_string(), "/usr/local/bin/openclaw".to_string()]
    );
    assert!(brew_openclaw_candidates(Platform::Other).is_empty());
}

#[test]
fn nvm_cleanup_targets() {
    let t = cleanup_all_mac_nvm_openclaw(Platform::MacOs, "@scope/openclaw");
    assert_eq!(
        t,
        vec![
            (vec!["bin".to_string(), "openclaw".to_string()], "bin".to_string()),
            (
                vec!["lib".to_string(), "node_modules".to_string(), "@scope/openclaw".to_string()],
                "module".to_string()
            ),
            (
                vec!["lib".to_string(), "node_modules".to_string(), "openclaw".to_string()],
                "module".to_string()
            ),
        ]
    );
    assert!(cleanup_all_mac_nvm_openclaw(Platform::Windows, "openclaw").is_empty());
    assert_eq!(removed_item("bin", "/x/bin/openclaw"), "bin: /x/bin/openclaw");
}

#[test]
fn programs_are_found_by_path_or_search() {
    let probe = |dir: String, name: String| -> Option<String> {
        if dir == "/usr/bin" && name == "git" {
            Some("/usr/bin/git".to_string())
        } else {
            None
        }
    };
    assert_eq!(resolve_program(Platform::MacOs, "/bin:/usr/bin", "git", &probe), Ok("/usr/bin/git".to_string()));
    assert_eq!(
        resolve_program(Platform::MacOs, "/bin:/usr/bin", "brew", &probe),
        Err("program not found".to_string())
    );
    assert_eq!(
        resolve_program(Platform::MacOs, "", "/opt/homebrew/bin/brew", &probe),
        Ok("/opt/homebrew/bin/brew".to_string())
    );
    assert_eq!(resolve_program(Platform::MacOs, "", "./tool", &probe), Ok("./tool".to_string()));
}

#[test]
fn nvm_root_of_an_openclaw_path() {
    let p = "/Users/me/.nvm/versions/node/v22.3.0/bin/openclaw";
    assert_eq!(nvm_root_of(Platform::MacOs, p), Some("/Users/me/.nvm/versions/node/v22.3.0".to_string()));
    assert_eq!(
        nvm_root_of(Platform::MacOs, "/Users/me/.nvm/versions/node/v22.3.0//bin//openclaw/"),
        Some("/Users/me/.nvm/versions/node/v22.3.0".to_string())
    );
    assert_eq!(nvm_root_of(Platform::Windows, p), None);
    assert_eq!(nvm_root_of(Platform::MacOs, "/usr/local/bin/openclaw"), None);
    assert_eq!(nvm_root_of(Platform::MacOs, "/Users/me/.nvm/versions/node/v22.3.0/lib/openclaw"), None);
}

#[test]
fn cleanup_targets_stay_inside() {
    let v = |xs: &[&str]| xs.iter().map(|x| x.to_string()).collect::<Vec<String>>();
    assert!(target_stays_inside(&v(&["lib", "node_modules", "@scope/pkg"])));
    assert!(target_stays_inside(&v(&[])));
    assert!(!target_stays_inside(&v(&["lib", "/etc"])));
}
