use openclaw_helper::commands::{
    applescript_escape, check_openclaw_args, diagnostic_line, diagnostic_probe_list, diagnostic_text,
    elevated_install_args, elevated_install_result, elevated_powershell_script,
    format_command_for_log, gateway_report_lines, gateway_route, gateway_status_failure_text,
    is_batch_extension, is_batch_script, nvm_dir_line, nvm_versions_line, openclaw_run_args, port_stop_target,
    powershell_escape_single_quoted, resolved_line, run_exit_result, run_log_line,
    shim_report_lines, stop_targets, version_line, weixin_command, weixin_result,
    windows_shim_names, wizard_applescript, direct_start_step, direct_stop_result, direct_stop_step,
    DirectStart, DirectStop, GatewayRoute, PortStop,
};
use openclaw_helper::platform::Platform;

fn strings(words: &[&str]) -> Vec<String> {
    words.iter().map(|w| w.to_string()).collect()
}

#[test]
fn openclaw_needs_arguments() {
    assert_eq!(check_openclaw_args(&Vec::<String>::new()), Err("缺少 openclaw 参数".to_string()));
    assert_eq!(check_openclaw_args(&strings(&["doctor"])), Ok(()));
}

#[test]
fn gateway_routes_on_windows() {
    let w = Platform::Windows;
    assert_eq!(gateway_route(w, &strings(&["gateway", "install"])), GatewayRoute::Install);
    assert_eq!(gateway_route(w, &strings(&["gateway", "install", "--force"])), GatewayRoute::Install);
    assert_eq!(gateway_route(w, &strings(&["gateway", "start"])), GatewayRoute::Start);
    assert_eq!(gateway_route(w, &strings(&["gateway", "stop"])), GatewayRoute::Stop);
    assert_eq!(gateway_route(w, &strings(&["gateway", "stop", "--now"])), GatewayRoute::Other);
    assert_eq!(gateway_route(w, &strings(&["gateway"])), GatewayRoute::Other);
    assert_eq!(gateway_route(w, &strings(&["doctor", "start"])), GatewayRoute::Other);
    assert_eq!(gateway_route(Platform::MacOs, &strings(&["gateway", "start"])), GatewayRoute::Other);
}

#[test]
fn run_arguments_and_log() {
    assert_eq!(openclaw_run_args(&strings(&["gateway", "status"])), strings(&["--no-color", "gateway", "status"]));
    assert_eq!(run_log_line(&strings(&["gateway", "status"]), "path"), "openclaw gateway status (path)");
    assert_eq!(run_exit_result(0), Ok(()));
    assert_eq!(run_exit_result(2), Err("openclaw 退出码：2".to_string()));
    assert_eq!(run_exit_result(-1), Err("openclaw 退出码：-1".to_string()));
    assert_eq!(elevated_install_result(0), Ok("[gateway] install: ok".to_string()));
    assert_eq!(elevated_install_result(1223), Err("gateway install 失败（退出码 1223）".to_string()));
}

#[test]
fn powershell_quotes() {
    assert_eq!(powershell_escape_single_quoted("it's"), "it''s");
    assert_eq!(powershell_escape_single_quoted("''"), "''''");
    assert_eq!(powershell_escape_single_quoted("plain"), "plain");
}

#[test]
fn batch_scripts_by_extension() {
    assert!(is_batch_script("C:/npm/openclaw.CMD"));
    assert!(is_batch_script("/x/openclaw.bat"));
    assert!(!is_batch_script("/x/openclaw.exe"));
    assert!(!is_batch_script("/x/openclaw"));
    assert!(is_batch_script("x.Bat"));
    assert!(!is_batch_script("/x/.cmd"));
    assert!(!is_batch_script("/x.cmd/openclaw"));
    assert!(!is_batch_script(".cmd"));
}

#[test]
fn batch_extensions_ignore_case() {
    assert!(is_batch_extension("cmd"));
    assert!(is_batch_extension("BaT"));
    assert!(!is_batch_extension("exe"));
    assert!(!is_batch_extension(""));
    assert!(!is_batch_extension("cmdx"));
}

fn expected_script(path: &str, args: &[&str], is_cmd: bool) -> String {
    let esc = |v: &str| v.replace('\'', "''");
    let openclaw_path_escaped = esc(path);
    let arg_list_ps = args.iter().map(|a| format!("'{}'", esc(a))).collect::<Vec<_>>().join(", ");
    if is_cmd {
        let cmdline = format!("\"\"{}\" {}\"", openclaw_path_escaped, args.join(" "));
        format!(
            "$ErrorActionPreference='Stop';\n\
       $command='{cmdline}';\n\
       # Show a visible window for elevated install steps (UAC-required), so users can see progress/errors.\n\
       $p=Start-Process -FilePath 'cmd.exe' -ArgumentList @('/d','/s','/c',$command) -Verb RunAs -PassThru -Wait -WindowStyle Normal;\n\
       exit $p.ExitCode\n"
        )
    } else {
        format!(
            "$ErrorActionPreference='Stop';\n\
       # Show a visible window for elevated install steps (UAC-required), so users can see progress/errors.\n\
       $p=Start-Process -FilePath '{openclaw_path_escaped}' -ArgumentList @({arg_list_ps}) -Verb RunAs -PassThru -Wait -WindowStyle Normal;\n\
       exit $p.ExitCode\n"
        )
    }
}

#[test]
fn elevated_scripts_match_expected_text() {
    let args = elevated_install_args();
    assert_eq!(args, strings(&["--no-color", "gateway", "install"]));
    let path = "C:\\Users\\o'neil\\AppData\\Roaming\\npm\\openclaw.cmd";
    assert_eq!(
        elevated_powershell_script(path, &args, true),
        expected_script(path, &["--no-color", "gateway", "install"], true)
    );
    let path = "C:\\Program Files\\OpenClaw\\openclaw.exe";
    let odd = strings(&["it's", "b"]);
    assert_eq!(
        elevated_powershell_script(path, &odd, false),
        expected_script(path, &["it's", "b"], false)
    );
}

#[test]
fn wizard_script_on_macos_only() {
    assert_eq!(
        wizard_applescript(Platform::MacOs, "/opt/homebrew/bin/openclaw"),
        Ok("tell application \"Terminal\"\nactivate\ndo script \"/opt/homebrew/bin/openclaw onboard\"\nend tell".to_string())
    );
    assert_eq!(
        wizard_applescript(Platform::MacOs, "/Users/me/My Apps/openclaw"),
        Ok("tell application \"Terminal\"\nactivate\ndo script \"\\\"/Users/me/My Apps/openclaw\\\" onboard\"\nend tell".to_string())
    );
    assert_eq!(
        wizard_applescript(Platform::Windows, "openclaw"),
        Err("当前平台暂不支持自动打开配置向导终端窗口。".to_string())
    );
    assert_eq!(applescript_escape("a\\b\"c"), "a\\\\b\\\"c");
}

#[test]
fn command_lines_for_the_log() {
    assert_eq!(
        format_command_for_log("/usr/bin/npm", &strings(&["install", "-g", "my pkg"])),
        "/usr/bin/npm install -g \"my pkg\""
    );
    assert_eq!(format_command_for_log("git", &vec![]), "git");
}

#[test]
fn gateway_report_keeps_sixty_lines() {
    let text: String = (1..=70).map(|i| format!("line {i}\n")).collect();
    let lines = gateway_report_lines(&text);
    assert_eq!(lines.len(), 60);
    assert_eq!(lines[0], "[gateway] line 1");
    assert_eq!(lines[59], "[gateway] line 60");
    assert_eq!(gateway_report_lines(" a \n\n b "), strings(&["[gateway] a", "[gateway] b"]));
    assert_eq!(gateway_status_failure_text("boom"), "gateway status failed: boom");
}

#[test]
fn diagnostics() {
    let probes = diagnostic_probe_list();
    let labels: Vec<&str> = probes.iter().map(|p| p.label.as_str()).collect();
    assert_eq!(
        labels,
        vec![
            "brew", "git", "node -v", "node execPath", "npm -v", "npm prefix -g",
            "npm config get prefix", "npm config get userconfig",
        ]
    );
    assert_eq!(probes[3].program, "node");
    assert_eq!(probes[3].args, strings(&["-p", "process.execPath"]));
    assert_eq!(probes[7].args, strings(&["config", "get", "userconfig"]));
    let line = |label: &str, r: Result<String, String>| diagnostic_line(label, &diagnostic_text(&r));
    assert_eq!(line("git", Ok("git version 2.44.0\n\n".into())), "git: git version 2.44.0");
    assert_eq!(line("npm -v", Ok(" 10.1.0 \n warn \n".into())), "npm -v: 10.1.0 | warn");
    assert_eq!(line("brew", Err("program not found".into())), "brew: (failed: program not found)");
    assert_eq!(line("x", Ok("z".repeat(900))), format!("x: {}…", "z".repeat(800)));
    assert_eq!(line("y", Ok("é".repeat(400))), format!("y: {}", "é".repeat(400)));
    assert_eq!(line("y", Ok("é".repeat(401))), format!("y: {}…", "é".repeat(400)));
    assert_eq!(nvm_dir_line(true), "nvm dir: yes");
    assert_eq!(nvm_dir_line(false), "nvm dir: no");
    assert_eq!(
        nvm_versions_line(&strings(&["v22.3.0", "v18.20.1", "v20.0.0"])).as_deref(),
        Some("nvm node versions: v18.20.1, v20.0.0, v22.3.0")
    );
    assert_eq!(nvm_versions_line(&vec![]), None);
    assert_eq!(resolved_line(Some("path")), "openclaw resolved: (found) (path)");
    assert_eq!(resolved_line(None), "openclaw resolved: (not found)");
    assert_eq!(version_line(&Some(("".into(), "".into()))), "openclaw --version: (no output)");
    assert_eq!(version_line(&Some(("1.0.0\n".into(), "".into()))), "openclaw --version: 1.0.0");
    assert_eq!(version_line(&None), "openclaw --version: (failed)");
}

#[test]
fn port_based_gateway_stop() {
    assert!(matches!(port_stop_target("Runtime: stopped"), PortStop::NoDashboard));
    match port_stop_target("Dashboard: http://localhost/") {
        PortStop::NoPort(u) => assert_eq!(u, "http://localhost/"),
        _ => panic!("expected no port"),
    }
    assert!(matches!(
        port_stop_target("Dashboard: http://127.0.0.1:18789/"),
        PortStop::Port(18789)
    ));
    assert_eq!(stop_targets(&vec![10, 42, 11, 42], 42), vec![10, 11]);
    assert_eq!(stop_targets(&vec![42], 42), Vec::<u32>::new());
}

#[test]
fn wechat_connector_setup() {
    let (p, a) = weixin_command(Platform::Windows);
    assert_eq!(p, "npx.cmd");
    assert_eq!(a, strings(&["-y", "@tencent-weixin/openclaw-weixin-cli@latest", "install"]));
    assert_eq!(weixin_command(Platform::MacOs).0, "npx");
    assert_eq!(weixin_result(&Ok(0)), Ok(()));
    assert_eq!(weixin_result(&Ok(3)), Err("执行结束（退出码 3）".to_string()));
    assert_eq!(
        weixin_result(&Err("not found".into())),
        Err("运行 npx 失败：请确认 Node.js 环境已安装。\n详情：not found".to_string())
    );
}

#[test]
fn windows_shims() {
    assert_eq!(windows_shim_names(), strings(&["openclaw.cmd", "openclaw", "openclaw.ps1"]));
    assert!(shim_report_lines(&vec![]).is_empty());
    assert_eq!(
        shim_report_lines(&strings(&["C:\\n\\openclaw.cmd", "C:\\n\\openclaw"])),
        strings(&["[cleanup] removed 2 shim(s)", "[cleanup] shim: C:\\n\\openclaw.cmd", "[cleanup] shim: C:\\n\\openclaw"])
    );
}

#[test]
fn direct_gateway_start_and_stop_decisions() {
    assert!(matches!(direct_start_step(true, Some(9)), DirectStart::HeldRunning));
    assert!(matches!(direct_start_step(false, Some(9)), DirectStart::RecordedRunning(9)));
    assert!(matches!(direct_start_step(false, None), DirectStart::Spawn));
    assert!(matches!(direct_stop_step(true, Some(9)), DirectStop::HeldChild));
    assert!(matches!(direct_stop_step(false, Some(9)), DirectStop::Recorded(9)));
    let by_port = direct_stop_step(false, None);
    assert!(matches!(by_port, DirectStop::ByPort));
    assert!(direct_stop_result(&DirectStop::Recorded(9), &PortStop::NoDashboard, &vec![]));
    assert!(!direct_stop_result(&by_port, &PortStop::NoDashboard, &vec![]));
    assert!(!direct_stop_result(&by_port, &PortStop::NoPort("http://x/".to_string()), &vec![4]));
    assert!(!direct_stop_result(&by_port, &PortStop::Port(18789), &vec![]));
    assert!(direct_stop_result(&by_port, &PortStop::Port(18789), &vec![4, 5]));
}
