use openclaw_helper::install::{
    check_node_version, github_git_rewrite, given_setting, is_disable_keyword, message_with_code,
    node_ready, npm_install_arguments, onboard_arguments, onboard_settings_from,
    output_looks_like_github_connectivity_issue, parse_node_major, plan_install,
    redact_sensitive_args, should_retry_with_default_mirror, validate_github_mirror,
    validate_npm_package_name, InstallOptions,
};
use openclaw_helper::platform::Platform;

fn options() -> InstallOptions {
    InstallOptions {
        openclaw_package: None,
        npm_registry: None,
        github_mirror: None,
        custom_base_url: None,
        custom_model_id: None,
        custom_api_key: None,
    }
}

fn strings(words: &[&str]) -> Vec<String> {
    words.iter().map(|w| w.to_string()).collect()
}

#[test]
fn package_names_are_checked() {
    assert_eq!(validate_npm_package_name("  openclaw ").as_deref(), Ok("openclaw"));
    assert_eq!(validate_npm_package_name("@scope/pkg-1.2_x").as_deref(), Ok("@scope/pkg-1.2_x"));
    assert_eq!(validate_npm_package_name("   ").unwrap_err(), "openclaw 包名不能为空");
    assert_eq!(validate_npm_package_name(&"a".repeat(215)).unwrap_err(), "openclaw 包名太长");
    assert!(validate_npm_package_name(&"a".repeat(214)).is_ok());
    assert_eq!(validate_npm_package_name("open claw").unwrap_err(), "openclaw 包名不能包含空格");
    assert_eq!(validate_npm_package_name("a..b").unwrap_err(), "openclaw 包名不合法");
    assert_eq!(validate_npm_package_name("a//b").unwrap_err(), "openclaw 包名不合法");
    assert_eq!(validate_npm_package_name("pkg;rm").unwrap_err(), "openclaw 包名不合法");
    assert_eq!(validate_npm_package_name("包").unwrap_err(), "openclaw 包名不合法");
}

#[test]
fn mirrors_are_checked_and_end_with_slash() {
    assert_eq!(
        validate_github_mirror(" https://mirror.example/github.com ").as_deref(),
        Ok("https://mirror.example/github.com/")
    );
    assert_eq!(validate_github_mirror("http://m/").as_deref(), Ok("http://m/"));
    assert_eq!(validate_github_mirror("").unwrap_err(), "GitHub mirror 不能为空");
    assert_eq!(validate_github_mirror("https://a b").unwrap_err(), "GitHub mirror 不能包含空格");
    assert_eq!(validate_github_mirror("https://a'b").unwrap_err(), "GitHub mirror 不合法");
    assert_eq!(
        validate_github_mirror("ftp://m/").unwrap_err(),
        "GitHub mirror 必须以 http:// 或 https:// 开头"
    );
}

#[test]
fn disable_keywords() {
    for w in ["off", " FALSE ", "None", "direct", "disable", "Disabled", "0"] {
        assert!(is_disable_keyword(w), "{w}");
    }
    for w in ["on", "https://x/", "", "00"] {
        assert!(!is_disable_keyword(w), "{w}");
    }
}

#[test]
fn github_connectivity_detection() {
    assert!(output_looks_like_github_connectivity_issue(
        "fatal: unable to access 'https://github.com/x/y.git/': Failed to connect to github.com port 443"
    ));
    assert!(output_looks_like_github_connectivity_issue("GitHub.com: Operation timed out"));
    assert!(!output_looks_like_github_connectivity_issue("Connection timed out to registry"));
    assert!(!output_looks_like_github_connectivity_issue("github.com: 404 Not Found"));
}

#[test]
fn node_major_versions() {
    assert_eq!(parse_node_major("v22.3.0\n"), Some(22));
    assert_eq!(parse_node_major("\n  v18.19.1  \n"), Some(18));
    assert_eq!(parse_node_major("vv20"), Some(20));
    assert_eq!(parse_node_major("node: command not found"), None);
    assert_eq!(parse_node_major(""), None);
    assert!(node_ready(Some(22), true));
    assert!(!node_ready(Some(21), true));
    assert!(!node_ready(Some(24), false));
    assert!(!node_ready(None, true));
}

#[test]
fn final_node_check_messages() {
    assert_eq!(check_node_version(&Some("v22.1.0".into())), Ok(22));
    assert_eq!(check_node_version(&None).unwrap_err(), "安装后仍未检测到 node");
    assert_eq!(check_node_version(&Some("garbage".into())).unwrap_err(), "无法解析 node 版本");
    assert_eq!(
        check_node_version(&Some("v18.0.0\n".into())).unwrap_err(),
        "Node.js 版本过低：v18.0.0\n（需要 >= 22）"
    );
}

#[test]
fn settings_are_trimmed_and_blank_ones_dropped() {
    assert_eq!(given_setting(&Some("  x ".into())).as_deref(), Some("x"));
    assert_eq!(given_setting(&Some("   ".into())), None);
    assert_eq!(given_setting(&None), None);
}

#[test]
fn plan_defaults() {
    let plan = plan_install(&options(), Platform::MacOs).unwrap();
    assert_eq!(plan.openclaw_package, "openclaw");
    assert_eq!(plan.npm_registry, "https://registry.npmmirror.com");
    assert_eq!(plan.github_mirror, None);
    assert!(!plan.github_mirror_disabled);
    assert!(!plan.needs_onboard);
    assert_eq!(plan.total_steps, 5);
}

#[test]
fn plan_on_windows_uses_default_mirror_unless_disabled() {
    let plan = plan_install(&options(), Platform::Windows).unwrap();
    assert_eq!(plan.github_mirror.as_deref(), Some("https://gitclone.com/github.com/"));
    let mut o = options();
    o.github_mirror = Some("off".into());
    let plan = plan_install(&o, Platform::Windows).unwrap();
    assert_eq!(plan.github_mirror, None);
    assert!(plan.github_mirror_disabled);
}

#[test]
fn plan_with_options() {
    let o = InstallOptions {
        openclaw_package: Some(" openclaw@beta ".into()),
        npm_registry: Some(" https://registry.npmjs.org ".into()),
        github_mirror: Some("https://m.example".into()),
        custom_base_url: None,
        custom_model_id: None,
        custom_api_key: Some(" sk-1 ".into()),
    };
    let plan = plan_install(&o, Platform::Other).unwrap();
    assert_eq!(plan.openclaw_package, "openclaw@beta");
    assert_eq!(plan.npm_registry, "https://registry.npmjs.org");
    assert_eq!(plan.github_mirror.as_deref(), Some("https://m.example/"));
    assert!(plan.needs_onboard);
    assert_eq!(plan.total_steps, 7);
}

#[test]
fn plan_errors() {
    let mut o = options();
    o.openclaw_package = Some("bad name".into());
    o.github_mirror = Some("ftp://x".into());
    assert_eq!(plan_install(&o, Platform::MacOs).err().unwrap(), "openclaw 包名不能包含空格");
    let mut o = options();
    o.github_mirror = Some("ftp://x".into());
    assert_eq!(
        plan_install(&o, Platform::MacOs).err().unwrap(),
        "GitHub mirror 必须以 http:// 或 https:// 开头"
    );
}

#[test]
fn npm_install_command() {
    assert_eq!(
        npm_install_arguments("openclaw", "https://r"),
        strings(&["install", "-g", "openclaw", "--registry", "https://r"])
    );
}

#[test]
fn retry_only_without_mirror() {
    let out = "fatal: unable to access 'https://github.com/a/b/': Could not resolve host: github.com";
    assert!(should_retry_with_default_mirror(out, &None, false));
    assert!(!should_retry_with_default_mirror(out, &Some("https://m/".into()), false));
    assert!(!should_retry_with_default_mirror(out, &None, true));
    assert!(!should_retry_with_default_mirror("ERR! 404", &None, false));
}

#[test]
fn git_rewrite_environment() {
    let (msg, env) = github_git_rewrite(&None);
    assert_eq!(msg, "已启用 GitHub SSH -> HTTPS 重写（避免 git@github.com 权限问题；仅本次安装生效）");
    assert_eq!(
        env,
        vec![
            ("GIT_CONFIG_COUNT".to_string(), "2".to_string()),
            ("GIT_CONFIG_KEY_0".into(), "url.https://github.com/.insteadOf".into()),
            ("GIT_CONFIG_VALUE_0".into(), "ssh://git@github.com/".into()),
            ("GIT_CONFIG_KEY_1".into(), "url.https://github.com/.insteadOf".into()),
            ("GIT_CONFIG_VALUE_1".into(), "git@github.com:".into()),
        ]
    );
    let (msg, env) = github_git_rewrite(&Some("https://m/".into()));
    assert_eq!(msg, "已启用 GitHub 镜像：https://m/（用于加速/绕过 GitHub 访问问题；仅本次安装生效）");
    assert_eq!(env.len(), 7);
    assert_eq!(env[0], ("GIT_CONFIG_COUNT".to_string(), "3".to_string()));
    assert_eq!(env[5], ("GIT_CONFIG_KEY_2".to_string(), "url.https://m/.insteadOf".to_string()));
    assert_eq!(env[6], ("GIT_CONFIG_VALUE_2".to_string(), "https://github.com/".to_string()));
}

#[test]
fn onboard_settings_defaults_and_key() {
    let mut o = options();
    assert_eq!(
        onboard_settings_from(&o).unwrap_err(),
        "缺少 CUSTOM_API_KEY（用于 openclaw onboard）。"
    );
    o.custom_api_key = Some("  sk-x ".into());
    let (base, model, key) = onboard_settings_from(&o).unwrap();
    assert_eq!(base, "https://sub.yeelovo.com/v1");
    assert_eq!(model, "gpt-5.4");
    assert_eq!(key, "sk-x");
    o.custom_base_url = Some(" https://api.example/v1 ".into());
    o.custom_model_id = Some("m1".into());
    let (base, model, _) = onboard_settings_from(&o).unwrap();
    assert_eq!((base.as_str(), model.as_str()), ("https://api.example/v1", "m1"));
}

#[test]
fn onboard_command_line() {
    let a = onboard_arguments(Platform::MacOs, false, "https://b", "m", "k");
    assert_eq!(
        a,
        strings(&[
            "onboard", "--non-interactive", "--accept-risk", "--install-daemon", "--skip-ui",
            "--skip-health", "--skip-skills", "--skip-search", "--skip-channels", "--auth-choice",
            "custom-api-key", "--custom-base-url", "https://b", "--custom-model-id", "m",
            "--custom-api-key", "k", "--secret-input-mode", "plaintext",
            "--custom-compatibility", "openai",
        ])
    );
    let w = onboard_arguments(Platform::Windows, false, "https://b", "m", "k");
    assert!(!w.contains(&"--install-daemon".to_string()));
    let w = onboard_arguments(Platform::Windows, true, "https://b", "m", "k");
    assert!(w.contains(&"--install-daemon".to_string()));
}

#[test]
fn secrets_are_masked_in_logs() {
    let a = strings(&["openclaw", "onboard", "--custom-api-key", "sk-secret", "--token", "t0k", "--x", "y"]);
    let line = redact_sensitive_args(&a);
    assert_eq!(line, "openclaw onboard --custom-api-key \"***\" --token \"***\" --x y");
    assert!(!line.contains("sk-secret"));
    let trailing = strings(&["a", "--password"]);
    assert_eq!(redact_sensitive_args(&trailing), "a --password");
}

#[test]
fn messages_with_codes() {
    assert_eq!(message_with_code("退出码 ", -1, "。"), "退出码 -1。");
    assert_eq!(message_with_code("(", 0, ")"), "(0)");
    assert_eq!(message_with_code("", 1234567, ""), "1234567");
}
