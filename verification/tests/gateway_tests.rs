use openclaw_helper::gateway::{
    combine_output, extract_dashboard_url, find_dashboard_link, listening_pids_script_for,
    parse_gateway_status, parse_listening_pids, start_time_from_output, start_time_script_for,
    tracked_gateway_pid, validate_external_url, windows_extract_port_from_url,
    with_tracked_gateway_pid,
};

#[test]
fn running_status_with_dashboard() {
    let s = parse_gateway_status("  Service: launchd (loaded)\nRuntime: running (pid 4242)\nDashboard: http://127.0.0.1:18789/\n");
    assert_eq!(s.state, "running");
    assert_eq!(s.dashboard_url.as_deref(), Some("http://127.0.0.1:18789/"));
    assert_eq!(
        s.raw,
        "Service: launchd (loaded)\nRuntime: running (pid 4242)\nDashboard: http://127.0.0.1:18789/"
    );
}

#[test]
fn upper_case_report_is_lowered_before_matching() {
    // The lower-casing goes through `str::to_lowercase`; without it nothing matches.
    let s = parse_gateway_status("GATEWAY RUNNING");
    assert_eq!(s.state, "running");
    let s = parse_gateway_status("Service Not Installed");
    assert_eq!(s.state, "not_installed");
}

#[test]
fn probe_counts_as_running_even_with_missing_service() {
    let s = parse_gateway_status("Gateway service missing\nRPC probe: ok");
    assert_eq!(s.state, "running");
    let s = parse_gateway_status("Scheduled Task (missing)\nListening: 127.0.0.1:18789");
    assert_eq!(s.state, "running");
}

#[test]
fn stopped_and_not_installed_states() {
    assert_eq!(parse_gateway_status("Runtime: not running").state, "stopped");
    assert_eq!(parse_gateway_status("Active: inactive (dead)").state, "stopped");
    assert_eq!(parse_gateway_status("Service unit not found.").state, "not_installed");
    assert_eq!(
        parse_gateway_status("Loaded: loaded\nService unit not found").state,
        "stopped"
    );
    assert_eq!(parse_gateway_status("nothing to see").state, "unknown");
    assert_eq!(parse_gateway_status("").state, "unknown");
    assert_eq!(parse_gateway_status("未检测到 openclaw").state, "unknown");
}

#[test]
fn dashboard_url_needs_http_scheme() {
    assert_eq!(
        extract_dashboard_url("dashboard: https://example.test/x\n").as_deref(),
        Some("https://example.test/x")
    );
    assert_eq!(extract_dashboard_url("Dashboard: ftp://example.test").as_deref(), None);
    assert_eq!(extract_dashboard_url("no dashboard here").as_deref(), None);
    assert_eq!(
        extract_dashboard_url("Dashboard: nothing\nDashboard: http://a:1/").as_deref(),
        Some("http://a:1/")
    );
}

#[test]
fn port_of_dashboard_address() {
    assert_eq!(windows_extract_port_from_url("http://127.0.0.1:18789/"), Some(18789));
    assert_eq!(windows_extract_port_from_url("  http://localhost:8080/path?x=1 "), Some(8080));
    assert_eq!(windows_extract_port_from_url("http://[::1]:3000/"), Some(3000));
    assert_eq!(windows_extract_port_from_url("http://[::1]/"), None);
    assert_eq!(windows_extract_port_from_url("http://localhost/"), None);
    assert_eq!(windows_extract_port_from_url("localhost:99999"), None);
    assert_eq!(windows_extract_port_from_url("   "), None);
    assert_eq!(windows_extract_port_from_url("127.0.0.1:80"), Some(80));
}

#[test]
fn dashboard_link_is_first_http_word() {
    assert_eq!(
        find_dashboard_link("Open this:\n  http://127.0.0.1:18789/#token=abc  \n").as_deref(),
        Ok("http://127.0.0.1:18789/#token=abc")
    );
    assert_eq!(
        find_dashboard_link("nothing").unwrap_err(),
        "未获取到控制台链接，请先启动网关或完成配置。"
    );
}

#[test]
fn only_http_links_are_opened() {
    assert_eq!(validate_external_url("  https://docs.openclaw.ai  ").as_deref(), Ok("https://docs.openclaw.ai"));
    assert_eq!(validate_external_url("file:///etc/passwd").unwrap_err(), "只允许打开 http/https 链接");
    assert_eq!(validate_external_url("javascript:alert(1)").unwrap_err(), "只允许打开 http/https 链接");
}

#[test]
fn listening_pids_are_unique_positive_numbers() {
    let out = "1234\r\n\n  5678 \n1234\n0\nabc\n-5\n";
    assert_eq!(parse_listening_pids(out), vec![1234, 5678]);
    assert_eq!(parse_listening_pids(""), Vec::<u32>::new());
}

#[test]
fn listening_pids_script_text() {
    let port: u16 = 18789;
    let expected = format!(
        r#"$ErrorActionPreference='SilentlyContinue'
$port={port}
$pids=@()
if (Get-Command Get-NetTCPConnection -ErrorAction SilentlyContinue) {{
  $pids = Get-NetTCPConnection -LocalPort $port -ErrorAction SilentlyContinue |
    Where-Object {{ $_.State -eq 'Listen' -or $_.State -eq 2 }} |
    Select-Object -ExpandProperty OwningProcess -Unique
}}
if (-not $pids -or $pids.Count -eq 0) {{
  $lines = netstat -ano -p tcp | Select-String -Pattern (':'+$port+'\s+.*LISTENING\s+(\d+)$')
  $pids = $lines | ForEach-Object {{
    $m = [regex]::Match($_.Line, '\s+(\d+)\s*$')
    if ($m.Success) {{ [int]$m.Groups[1].Value }}
  }} | Select-Object -Unique
}}
$pids | ForEach-Object {{ [Console]::Out.WriteLine($_) }}
"#
    );
    assert_eq!(listening_pids_script_for(port), expected);
}

#[test]
fn start_time_script_text() {
    let pid: u32 = 4242;
    let expected = format!(
        "$p=Get-Process -Id {pid} -ErrorAction SilentlyContinue; if ($p) {{ [Console]::Out.Write($p.StartTime.ToUniversalTime().ToString('o')) }}"
    );
    assert_eq!(start_time_script_for(pid), expected);
}

#[test]
fn tracked_pid_needs_same_start_time() {
    assert_eq!(start_time_from_output("  2024-01-01T00:00:00.0000000Z \r\n").as_deref(), Some("2024-01-01T00:00:00.0000000Z"));
    assert_eq!(start_time_from_output("   "), None);
    let t = "2024-01-01T00:00:00Z".to_string();
    assert_eq!(tracked_gateway_pid(7, &t, &Some(t.clone())), Some(7));
    assert_eq!(tracked_gateway_pid(7, &t, &Some("2024-02-02T00:00:00Z".into())), None);
    assert_eq!(tracked_gateway_pid(7, &t, &None), None);
}

#[test]
fn tracked_pid_marks_status_running() {
    let s = parse_gateway_status("Runtime: stopped");
    let s = with_tracked_gateway_pid(s, 99);
    assert_eq!(s.state, "running");
    assert_eq!(s.raw, "Runtime: stopped\n[helper] tracked direct gateway pid=99");
    let s = with_tracked_gateway_pid(parse_gateway_status(""), 5);
    assert_eq!(s.raw, "[helper] tracked direct gateway pid=5");
    let running = parse_gateway_status("Runtime: running");
    let kept = with_tracked_gateway_pid(running, 5);
    assert_eq!(kept.raw, "Runtime: running");
}

#[test]
fn output_is_joined_with_newline() {
    assert_eq!(combine_output("out", "err"), "out\nerr");
}
