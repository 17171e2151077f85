use openclaw_helper::task::{check_canceled, task_meta_for_openclaw_args, TaskMeta, TaskState};

fn args(words: &[&str]) -> Vec<String> {
    words.iter().map(|w| w.to_string()).collect()
}

#[test]
fn meta_for_update_is_not_cancelable() {
    let m = task_meta_for_openclaw_args(&args(&["update"]));
    assert_eq!(m.kind, "update");
    assert_eq!(m.title, "更新 OpenClaw…");
    assert!(!m.can_cancel);
    assert_eq!(
        m.cancel_warning.as_deref(),
        Some("更新进行中，暂不支持取消。中断更新可能导致 OpenClaw 暂时不可用，请等待完成。")
    );
}

#[test]
fn meta_for_gateway_subcommands() {
    let cases = [
        (vec!["gateway", "install"], "gateway_install", "安装网关服务…"),
        (vec!["gateway", "start"], "gateway_start", "启动网关服务…"),
        (vec!["gateway", "stop"], "gateway_stop", "停止网关服务…"),
        (vec!["gateway", "restart"], "gateway_restart", "重启网关服务…"),
        (vec!["gateway"], "gateway", "执行网关操作…"),
        (vec!["gateway", "status"], "gateway", "执行网关操作…"),
    ];
    for (words, kind, title) in cases {
        let m = task_meta_for_openclaw_args(&args(&words));
        assert_eq!(m.kind, kind);
        assert_eq!(m.title, title);
        assert!(m.can_cancel);
        assert!(m.cancel_warning.is_none());
    }
}

#[test]
fn meta_for_other_commands() {
    let m = task_meta_for_openclaw_args(&args(&["doctor", "--fix"]));
    assert_eq!((m.kind.as_str(), m.title.as_str()), ("doctor", "健康检查/修复…"));
    let m = task_meta_for_openclaw_args(&args(&["config", "set", "a", "b"]));
    assert_eq!((m.kind.as_str(), m.title.as_str()), ("config", "保存配置…"));
    let m = task_meta_for_openclaw_args(&args(&["channels"]));
    assert_eq!((m.kind.as_str(), m.title.as_str()), ("openclaw_command", "执行中…"));
    let m = task_meta_for_openclaw_args(&args(&[]));
    assert_eq!((m.kind.as_str(), m.title.as_str()), ("openclaw_command", "执行中…"));
}

#[test]
fn check_canceled_reports_user_cancel() {
    assert!(check_canceled(false).is_ok());
    assert_eq!(check_canceled(true), Err("用户取消".to_string()));
}

#[test]
fn only_one_task_runs_at_a_time() {
    let mut state = TaskState::new();
    assert!(state.start_with_meta(TaskMeta::new("install", "安装 OpenClaw…")).is_ok());
    let second = state.start_with_meta(TaskMeta::new("doctor", "健康检查/修复…"));
    assert_eq!(second, Err("已有任务正在运行，请先取消或等待完成。".to_string()));
    let status = state.snapshot();
    assert!(status.running);
    assert_eq!(status.kind.as_deref(), Some("install"));
    assert_eq!(status.title.as_deref(), Some("安装 OpenClaw…"));
}

#[test]
fn finish_frees_the_slot() {
    let mut state = TaskState::new();
    state.start_with_meta(TaskMeta::new("install", "安装 OpenClaw…")).unwrap();
    state.finish();
    let status = state.snapshot();
    assert!(!status.running);
    assert!(!status.cancel_requested);
    assert!(status.kind.is_none());
    assert!(status.title.is_none());
    assert!(!status.can_cancel);
    assert!(status.cancel_warning.is_none());
    assert!(state.start_with_meta(TaskMeta::new("doctor", "健康检查/修复…")).is_ok());
}

#[test]
fn cancel_is_reported_in_the_status() {
    let mut state = TaskState::new();
    state.start_with_meta(TaskMeta::new("install", "安装 OpenClaw…")).unwrap();
    assert!(!state.cancel_requested());
    assert!(state.cancel().is_ok());
    assert!(state.cancel_requested());
    let status = state.snapshot();
    assert!(status.cancel_requested);
    assert!(status.can_cancel);
}

#[test]
fn uncancelable_task_refuses_cancel() {
    let mut state = TaskState::new();
    state
        .start_with_meta(TaskMeta::non_cancelable(
            "uninstall",
            "卸载 OpenClaw…",
            "卸载进行中，暂不支持取消，以免系统状态停在半清理状态。请等待完成。",
        ))
        .unwrap();
    assert_eq!(
        state.cancel(),
        Err("卸载进行中，暂不支持取消，以免系统状态停在半清理状态。请等待完成。".to_string())
    );
    assert!(!state.cancel_requested());
    assert!(!state.snapshot().cancel_requested);
}

#[test]
fn cancel_without_task_is_fine() {
    let mut state = TaskState::new();
    assert!(state.cancel().is_ok());
    assert!(!state.snapshot().running);
}
