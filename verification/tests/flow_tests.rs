use openclaw_helper::config::JsonValue;
use openclaw_helper::install::{plan_install, InstallOptions};
use openclaw_helper::install_flow::{
    done_progress, progress_labels, Action, Event, InstallFlow, Tool, WingetJob, Work,
};
use openclaw_helper::platform::Platform;
use openclaw_helper::uninstall_flow::{
    cleanup_steps, CleanupOutcome, StateDirOutcome, UninstallEvent, UninstallFlow, UninstallWork,
};

fn options(api_key: Option<&str>) -> InstallOptions {
    InstallOptions {
        openclaw_package: None,
        npm_registry: None,
        github_mirror: None,
        custom_base_url: None,
        custom_model_id: None,
        custom_api_key: api_key.map(|k| k.to_string()),
    }
}

fn start(platform: Platform, api_key: Option<&str>) -> (InstallFlow, Action) {
    let plan = plan_install(&options(api_key), platform).unwrap();
    InstallFlow::start(plan, platform, "macos / aarch64")
}

fn step(flow: &mut InstallFlow, e: Event) -> Action {
    assert!(flow.accepts(&e), "event not expected now");
    flow.step(e)
}

fn node_ok(flow: &mut InstallFlow) -> Action {
    let a = step(flow, Event::NodeOutput(Some("v22.11.0\n".into())));
    assert!(matches!(a.work, Work::Probe(Tool::Npm)));
    let a = step(flow, Event::Probed(true));
    assert!(matches!(a.work, Work::Probe(Tool::Node)));
    let a = step(flow, Event::NodeOutput(Some("v22.11.0\n".into())));
    assert!(matches!(a.work, Work::Probe(Tool::Npm)));
    step(flow, Event::Probed(true))
}

fn fail_message(a: &Action) -> String {
    match &a.work {
        Work::Fail(m) => m.clone(),
        _ => panic!("expected a failure"),
    }
}

#[test]
fn install_happy_path_without_onboarding() {
    let (mut flow, a) = start(Platform::MacOs, None);
    assert_eq!(a.progress, Some(1));
    assert_eq!(
        a.after,
        vec![
            "平台：macos / aarch64".to_string(),
            "openclaw 包名：openclaw".to_string(),
            "npm registry: https://registry.npmmirror.com".to_string(),
            "GitHub mirror: (none)".to_string(),
        ]
    );
    assert!(matches!(a.work, Work::Diagnose));
    let a = step(&mut flow, Event::Done);
    assert_eq!(a.progress, Some(2));
    assert!(matches!(a.work, Work::Probe(Tool::Git)));
    let a = step(&mut flow, Event::Probed(true));
    assert_eq!(a.progress, Some(3));
    assert!(matches!(a.work, Work::Probe(Tool::Node)));
    let a = node_ok(&mut flow);
    assert_eq!(a.progress, Some(4));
    assert_eq!(a.after, vec!["[npm] registry: https://registry.npmmirror.com".to_string()]);
    match &a.work {
        Work::NpmInstall { args, mirror, skip_llama_build, notes } => {
            assert_eq!(args, &vec!["install", "-g", "openclaw", "--registry", "https://registry.npmmirror.com"]);
            assert!(mirror.is_none());
            assert!(!skip_llama_build);
            assert_eq!(
                notes,
                &vec!["已启用 GitHub SSH -> HTTPS 重写（避免 git@github.com 权限问题；仅本次安装生效）".to_string()]
            );
        }
        _ => panic!("expected npm install"),
    }
    let a = step(&mut flow, Event::NpmRan(Ok((0, String::new()))));
    assert_eq!(a.progress, Some(5));
    assert!(matches!(a.work, Work::Verify));
    let a = step(
        &mut flow,
        Event::Checked { installed: true, version: Some("2026.3.1".into()), error: None },
    );
    assert!(matches!(a.work, Work::Finish));
    assert_eq!(
        a.before,
        vec![
            "openclaw --version => 2026.3.1".to_string(),
            "跳过自动配置：未提供 CUSTOM_API_KEY。".to_string(),
        ]
    );
    assert!(flow.is_over());
    assert!(!flow.accepts(&Event::Done));
}

#[test]
fn git_repair_on_macos_uses_brew() {
    let (mut flow, _) = start(Platform::MacOs, None);
    step(&mut flow, Event::Done);
    let a = step(&mut flow, Event::Probed(false));
    assert!(matches!(a.work, Work::FindBrew));
    let a = step(&mut flow, Event::BrewFound(true));
    assert!(matches!(a.work, Work::BrewInstall(Tool::Git)));
    let a = step(&mut flow, Event::Ran(Ok(1)));
    assert!(matches!(a.work, Work::Probe(Tool::Git)));
    let a = step(&mut flow, Event::Probed(false));
    assert_eq!(
        fail_message(&a),
        "未检测到 git。请先安装 git（推荐：Homebrew 安装 git，或安装 Xcode Command Line Tools）。"
    );
    assert!(flow.is_over());
}

#[test]
fn git_repair_on_windows_uses_winget() {
    let (mut flow, a) = start(Platform::Windows, None);
    assert_eq!(a.after[3], "GitHub mirror: https://gitclone.com/github.com/");
    step(&mut flow, Event::Done);
    let a = step(&mut flow, Event::Probed(false));
    assert!(matches!(a.work, Work::Probe(Tool::Winget)));
    let a = step(&mut flow, Event::Probed(true));
    assert_eq!(a.before, vec!["未检测到 Git，尝试通过 winget 安装 Git…".to_string()]);
    assert!(matches!(a.work, Work::Winget(WingetJob::InstallGit)));
    let a = step(&mut flow, Event::Ran(Ok(5)));
    assert_eq!(fail_message(&a), "winget 安装 Git 失败（退出码 5）");
}

#[test]
fn winget_missing_stops_the_install() {
    let (mut flow, _) = start(Platform::Windows, None);
    step(&mut flow, Event::Done);
    step(&mut flow, Event::Probed(false));
    let a = step(&mut flow, Event::Probed(false));
    assert_eq!(
        fail_message(&a),
        "未检测到 winget。请先安装 Microsoft App Installer（Windows 软件包管理器）后重试。"
    );
}

#[test]
fn node_repair_on_windows_upgrades_then_installs() {
    let (mut flow, _) = start(Platform::Windows, None);
    step(&mut flow, Event::Done);
    step(&mut flow, Event::Probed(true));
    step(&mut flow, Event::NodeOutput(Some("v18.0.0".into())));
    let a = step(&mut flow, Event::Probed(true));
    assert!(matches!(a.work, Work::Probe(Tool::Winget)));
    let a = step(&mut flow, Event::Probed(true));
    assert!(matches!(a.work, Work::Winget(WingetJob::UpgradeNode)));
    let a = step(&mut flow, Event::Ran(Ok(-1978335189)));
    assert_eq!(a.before, vec!["[winget] upgrade 返回退出码 -1978335189，继续检查是否需要 install…".to_string()]);
    assert!(a.refresh_path);
    assert!(matches!(a.work, Work::Probe(Tool::Node)));
    step(&mut flow, Event::NodeOutput(Some("v18.0.0".into())));
    let a = step(&mut flow, Event::Probed(true));
    assert!(matches!(a.work, Work::Winget(WingetJob::InstallNode)));
    let a = step(&mut flow, Event::Ran(Ok(0)));
    assert!(a.refresh_path);
    assert!(matches!(a.work, Work::Probe(Tool::Node)));
    let a = step(&mut flow, Event::NodeOutput(Some("v22.0.0".into())));
    assert!(matches!(a.work, Work::Probe(Tool::Npm)));
    let a = step(&mut flow, Event::Probed(true));
    match &a.work {
        Work::NpmInstall { skip_llama_build, notes, mirror, .. } => {
            assert!(skip_llama_build);
            assert_eq!(mirror.as_deref(), Some("https://gitclone.com/github.com/"));
            assert_eq!(notes.len(), 2);
        }
        _ => panic!("expected npm install"),
    }
}

#[test]
fn node_missing_elsewhere_fails() {
    let (mut flow, _) = start(Platform::Other, None);
    step(&mut flow, Event::Done);
    step(&mut flow, Event::Probed(true));
    step(&mut flow, Event::NodeOutput(None));
    let a = step(&mut flow, Event::Probed(true));
    assert_eq!(fail_message(&a), "未检测到可用 Node.js（需要 >= 22）。请先安装 Node.js 后重试。");
}

#[test]
fn node_too_old_after_repair() {
    let (mut flow, _) = start(Platform::MacOs, None);
    step(&mut flow, Event::Done);
    step(&mut flow, Event::Probed(true));
    step(&mut flow, Event::NodeOutput(Some("v16.0.0".into())));
    step(&mut flow, Event::Probed(true));
    let a = step(&mut flow, Event::BrewFound(true));
    assert!(matches!(a.work, Work::BrewInstall(Tool::Node)));
    step(&mut flow, Event::Ran(Ok(0)));
    let a = step(&mut flow, Event::NodeOutput(Some("v16.0.0".into())));
    assert_eq!(fail_message(&a), "Node.js 版本过低：v16.0.0（需要 >= 22）");
}

#[test]
fn npm_install_retries_once_through_the_mirror() {
    let (mut flow, _) = start(Platform::MacOs, None);
    step(&mut flow, Event::Done);
    step(&mut flow, Event::Probed(true));
    node_ok(&mut flow);
    let out = "npm ERR! fatal: unable to access 'https://github.com/x/y.git/': Failed to connect to github.com".to_string();
    let a = step(&mut flow, Event::NpmRan(Ok((1, out.clone()))));
    assert_eq!(
        a.before,
        vec!["[warn] 检测到 GitHub 连接失败，尝试启用 GitHub 镜像：https://gitclone.com/github.com/（仅本次安装生效）".to_string()]
    );
    match &a.work {
        Work::NpmInstall { mirror, skip_llama_build, .. } => {
            assert_eq!(mirror.as_deref(), Some("https://gitclone.com/github.com/"));
            assert!(!skip_llama_build);
        }
        _ => panic!("expected retry"),
    }
    let a = step(&mut flow, Event::NpmRan(Ok((1, out))));
    assert_eq!(fail_message(&a), "npm install -g 失败，请查看日志。");
}

#[test]
fn install_with_onboarding_and_configuration() {
    let (mut flow, _) = start(Platform::MacOs, Some("sk-1"));
    step(&mut flow, Event::Done);
    step(&mut flow, Event::Probed(true));
    node_ok(&mut flow);
    step(&mut flow, Event::NpmRan(Ok((0, String::new()))));
    let a = step(&mut flow, Event::Checked { installed: true, version: None, error: None });
    assert_eq!(a.before, vec!["openclaw --version => unknown".to_string()]);
    assert_eq!(a.progress, Some(6));
    assert!(matches!(a.work, Work::Resolve));
    let a = step(&mut flow, Event::Resolved(true));
    assert!(matches!(a.work, Work::Onboard { install_daemon: true }));
    let a = step(&mut flow, Event::Ran(Ok(0)));
    assert_eq!(a.progress, Some(7));
    assert_eq!(a.after, vec!["[config] 设置 api=openai-responses…".to_string()]);
    match &a.work {
        Work::ConfigGet { path } => assert_eq!(path, "agents.defaults.model"),
        _ => panic!("expected config read"),
    }
    let model = JsonValue::Object(vec![("primary".to_string(), JsonValue::Str("custom/gpt-5.4".into()))]);
    let a = step(&mut flow, Event::Json(Ok(model)));
    assert_eq!(
        a.before,
        vec![
            "[config] provider: custom".to_string(),
            "[config] model: gpt-5.4".to_string(),
            "[config] set models.providers.custom.api = openai-responses".to_string(),
        ]
    );
    match &a.work {
        Work::ConfigSet { path, value, strict_json } => {
            assert_eq!(path, "models.providers.custom.api");
            assert_eq!(value, "openai-responses");
            assert!(!strict_json);
        }
        _ => panic!("expected config write"),
    }
    let a = step(&mut flow, Event::Written(Ok(())));
    match &a.work {
        Work::ConfigGet { path } => assert_eq!(path, "models.providers.custom.models"),
        _ => panic!("expected models read"),
    }
    let models = JsonValue::Array(vec![
        JsonValue::Object(vec![("id".to_string(), JsonValue::Str("other".into()))]),
        JsonValue::Object(vec![("id".to_string(), JsonValue::Str("gpt-5.4".into()))]),
    ]);
    let a = step(&mut flow, Event::Json(Ok(models)));
    match &a.work {
        Work::ConfigSet { path, value, strict_json } => {
            assert_eq!(path, "models.providers.custom.models[1].contextWindow");
            assert_eq!(value, "320000");
            assert!(strict_json);
        }
        _ => panic!("expected context window"),
    }
    let a = step(&mut flow, Event::Written(Ok(())));
    match &a.work {
        Work::ConfigSet { path, value, .. } => {
            assert_eq!(path, "models.providers.custom.models[1].maxTokens");
            assert_eq!(value, "81920");
        }
        _ => panic!("expected max tokens"),
    }
    let a = step(&mut flow, Event::Written(Ok(())));
    assert!(matches!(a.work, Work::Finish));
    assert_eq!(
        a.before,
        vec!["[config] ok".to_string(), "安装完成：未自动重启网关服务，你可以稍后手动启动。".to_string()]
    );
}

#[test]
fn onboarding_failure_reports_gateway_then_fails() {
    let (mut flow, _) = start(Platform::Windows, Some("sk-1"));
    step(&mut flow, Event::Done);
    step(&mut flow, Event::Probed(true));
    node_ok(&mut flow);
    step(&mut flow, Event::NpmRan(Ok((0, String::new()))));
    step(&mut flow, Event::Checked { installed: true, version: Some("1".into()), error: None });
    let a = step(&mut flow, Event::Resolved(true));
    assert!(matches!(a.work, Work::CheckAdmin));
    let a = step(&mut flow, Event::IsAdmin(false));
    assert!(matches!(a.work, Work::Onboard { install_daemon: false }));
    assert_eq!(a.before.len(), 1);
    let a = step(&mut flow, Event::Ran(Ok(2)));
    assert!(matches!(a.work, Work::GatewayReport));
    let a = step(&mut flow, Event::Done);
    assert_eq!(fail_message(&a), "openclaw onboard 失败（退出码 2）");
}

#[test]
fn verify_failure_and_missing_model() {
    let (mut flow, _) = start(Platform::MacOs, None);
    step(&mut flow, Event::Done);
    step(&mut flow, Event::Probed(true));
    node_ok(&mut flow);
    step(&mut flow, Event::NpmRan(Ok((0, String::new()))));
    let a = step(&mut flow, Event::Checked { installed: false, version: None, error: None });
    assert_eq!(fail_message(&a), "openclaw 安装完成，但无法执行 openclaw：unknown");

    let (mut flow, _) = start(Platform::MacOs, Some("k"));
    step(&mut flow, Event::Done);
    step(&mut flow, Event::Probed(true));
    node_ok(&mut flow);
    step(&mut flow, Event::NpmRan(Ok((0, String::new()))));
    step(&mut flow, Event::Checked { installed: true, version: None, error: None });
    step(&mut flow, Event::Resolved(true));
    step(&mut flow, Event::Ran(Ok(0)));
    let a = step(&mut flow, Event::Json(Ok(JsonValue::Str("no-slash".into()))));
    assert_eq!(fail_message(&a), "无法从 agents.defaults.model 推断 provider/model id");
}

#[test]
fn progress_never_goes_back() {
    let (mut flow, a) = start(Platform::MacOs, Some("k"));
    let mut last = a.progress.unwrap();
    let events = vec![
        Event::Done,
        Event::Probed(true),
        Event::NodeOutput(Some("v22.0.0".into())),
        Event::Probed(true),
        Event::NodeOutput(Some("v22.0.0".into())),
        Event::Probed(true),
        Event::NpmRan(Ok((0, String::new()))),
        Event::Checked { installed: true, version: None, error: None },
        Event::Resolved(true),
        Event::Ran(Ok(0)),
    ];
    for e in events {
        let a = step(&mut flow, e);
        if let Some(p) = a.progress {
            assert!(p > last && p <= 7);
            last = p;
        }
    }
    assert_eq!(last, 7);
}

#[test]
fn uninstall_plan_per_platform() {
    let mac = cleanup_steps(Platform::MacOs, None);
    let programs: Vec<&str> = mac.iter().map(|s| s.program.as_str()).collect();
    assert_eq!(programs, vec!["/opt/homebrew/bin/brew", "/usr/local/bin/brew", "brew", "npm", "pnpm"]);
    assert_eq!(mac[0].args, vec!["uninstall", "openclaw"]);
    assert_eq!(mac[3].args, vec!["uninstall", "-g", "openclaw"]);
    assert_eq!(mac[4].args, vec!["remove", "-g", "openclaw"]);
    let win = cleanup_steps(Platform::Windows, Some("C:\\nvm4w\\nodejs\\npm.cmd".into()));
    assert_eq!(win.len(), 2);
    assert_eq!(win[0].program, "C:\\nvm4w\\nodejs\\npm.cmd");
    assert_eq!(win[0].note.as_deref(), Some("[cleanup] using npm: C:\\nvm4w\\nodejs\\npm.cmd"));
    let other = cleanup_steps(Platform::Other, Some("/x/npm.cmd".into()));
    assert_eq!(other[0].program, "npm");
}

fn ustep(flow: &mut UninstallFlow, e: UninstallEvent) -> openclaw_helper::uninstall_flow::UninstallAction {
    assert!(flow.accepts(&e), "event not expected now");
    flow.step(e)
}

#[test]
fn uninstall_runs_every_cleanup_and_succeeds_when_gone() {
    let (mut flow, a) = UninstallFlow::start(
        Platform::MacOs,
        Some(("/opt/homebrew/bin/openclaw".into(), "path".into())),
        None,
    );
    assert_eq!(
        a.logs,
        vec![
            "[uninstall] start".to_string(),
            "[uninstall] openclaw resolved: /opt/homebrew/bin/openclaw (path)".to_string(),
            "openclaw uninstall --service --state --workspace --yes --non-interactive".to_string(),
        ]
    );
    assert!(matches!(a.work, UninstallWork::OpenclawUninstall));
    let a = ustep(&mut flow, UninstallEvent::Ran(Ok(1)));
    assert_eq!(a.logs.len(), 2);
    assert_eq!(a.logs[0], "[warn] openclaw uninstall 失败（退出码 1），将继续尝试通过 npm/pnpm 等方式清理…");
    let mut seen = Vec::new();
    let mut work = a.work;
    let outcomes = vec![
        CleanupOutcome::Skipped("program not found".into()),
        CleanupOutcome::Ran(Ok(0)),
        CleanupOutcome::Ran(Err("spawn failed".into())),
        CleanupOutcome::Ran(Ok(1)),
        CleanupOutcome::Ran(Ok(0)),
    ];
    let mut logs = Vec::new();
    for o in outcomes {
        match &work {
            UninstallWork::Cleanup(step) => seen.push(step.program.clone()),
            _ => panic!("expected a cleanup"),
        }
        let a = ustep(&mut flow, UninstallEvent::Cleaned(o));
        logs.extend(a.logs);
        work = a.work;
    }
    assert_eq!(seen, vec!["/opt/homebrew/bin/brew", "/usr/local/bin/brew", "brew", "npm", "pnpm"]);
    assert_eq!(
        logs,
        vec![
            "[cleanup] [brew] skipped: program not found".to_string(),
            "[cleanup] [brew] failed (ignored): spawn failed".to_string(),
            "[cleanup] [npm] exited with code 1 (ignored)".to_string(),
        ]
    );
    assert!(matches!(work, UninstallWork::NvmCleanup));
    let a = ustep(&mut flow, UninstallEvent::NvmRemoved(vec!["bin: /u/.nvm/versions/node/v22/bin/openclaw".into()]));
    assert_eq!(
        a.logs,
        vec![
            "[cleanup] nvm: removed 1 item(s)".to_string(),
            "[cleanup] nvm: bin: /u/.nvm/versions/node/v22/bin/openclaw".to_string(),
        ]
    );
    let a = ustep(&mut flow, UninstallEvent::StateDir(StateDirOutcome::Removed("/u/.openclaw".into())));
    assert_eq!(a.logs, vec!["[cleanup] removed: /u/.openclaw".to_string()]);
    assert!(matches!(a.work, UninstallWork::Resolve));
    let a = ustep(&mut flow, UninstallEvent::Found(None));
    assert_eq!(a.logs, vec!["卸载完成：已找不到 openclaw 命令。".to_string()]);
    assert!(matches!(a.work, UninstallWork::Finish));
}

#[test]
fn uninstall_fails_when_command_remains() {
    let (mut flow, a) = UninstallFlow::start(Platform::Other, None, None);
    assert_eq!(a.logs[1], "[warn] 未检测到 openclaw 命令，跳过 openclaw uninstall，直接尝试清理…");
    assert!(matches!(a.work, UninstallWork::Cleanup(_)));
    ustep(&mut flow, UninstallEvent::Cleaned(CleanupOutcome::Ran(Ok(0))));
    let a = ustep(&mut flow, UninstallEvent::Cleaned(CleanupOutcome::Ran(Ok(0))));
    assert!(matches!(a.work, UninstallWork::NvmCleanup));
    let a = ustep(&mut flow, UninstallEvent::NvmRemoved(vec![]));
    assert!(a.logs.is_empty());
    let a = ustep(&mut flow, UninstallEvent::StateDir(StateDirOutcome::Failed("/u/.openclaw".into(), "denied".into())));
    assert_eq!(a.logs, vec!["[cleanup] failed to remove /u/.openclaw: denied".to_string()]);
    let a = ustep(&mut flow, UninstallEvent::Found(Some(("/usr/bin/openclaw".into(), "path".into()))));
    assert_eq!(a.logs, vec!["[cleanup] openclaw 仍存在：/usr/bin/openclaw (path)".to_string()]);
    assert!(matches!(a.work, UninstallWork::ResolveAgain));
    let a = ustep(&mut flow, UninstallEvent::Found(Some(("/usr/bin/openclaw".into(), "path".into()))));
    match a.work {
        UninstallWork::Fail(m) => assert_eq!(
            m,
            "已执行卸载，但系统中仍能找到 openclaw：/usr/bin/openclaw（path）。\n可能原因：权限不足/多个 Node 环境。\n建议：在终端运行 `npm uninstall -g openclaw`（必要时以管理员权限），然后重启终端再试。"
        ),
        _ => panic!("expected failure"),
    }
}

#[test]
fn uninstall_on_windows_handles_shims() {
    let (mut flow, _) = UninstallFlow::start(Platform::Windows, None, None);
    ustep(&mut flow, UninstallEvent::Cleaned(CleanupOutcome::Ran(Ok(0))));
    ustep(&mut flow, UninstallEvent::Cleaned(CleanupOutcome::Ran(Ok(0))));
    ustep(&mut flow, UninstallEvent::NvmRemoved(vec![]));
    ustep(&mut flow, UninstallEvent::StateDir(StateDirOutcome::Absent));
    let a = ustep(&mut flow, UninstallEvent::Found(Some(("C:\\n\\openclaw.cmd".into(), "path".into()))));
    assert!(matches!(a.work, UninstallWork::WindowsShims));
    let a = ustep(&mut flow, UninstallEvent::Done);
    assert!(matches!(a.work, UninstallWork::ResolveAgain));
    let a = ustep(&mut flow, UninstallEvent::Found(None));
    assert!(matches!(a.work, UninstallWork::Finish));
}

#[test]
fn uninstall_stops_when_its_own_uninstaller_cannot_run() {
    let (mut flow, _) = UninstallFlow::start(Platform::MacOs, Some(("/x/openclaw".into(), "path".into())), None);
    let a = ustep(&mut flow, UninstallEvent::Ran(Err("用户取消".into())));
    assert!(matches!(a.work, UninstallWork::Fail(ref m) if m == "用户取消"));
    assert!(!flow.accepts(&UninstallEvent::Done));
}

#[test]
fn last_progress_event_is_done() {
    assert_eq!(done_progress(5), ("done".to_string(), "完成".to_string(), 5, 5));
    assert_eq!(done_progress(7), ("done".to_string(), "完成".to_string(), 7, 7));
    assert_eq!(progress_labels(6).0, "onboard");
}
