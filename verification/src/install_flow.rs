//! The installer as a state machine: after each piece of outside work (a
//! probe, a package manager run, a configuration read or write) the
//! application reports what happened, and the flow answers with the next
//! piece of work, the progress to show and the lines to log.
use vstd::prelude::*;
use crate::config::{model_field_path, model_index, model_ref, provider_path, JsonValue};
use crate::install::{
    default_mirror, git_rewrite_message, github_unreachable, node_final_check, node_major,
    node_usable, npm_install_args, InstallPlan, PlanView,
};
use crate::platform::Platform;
use crate::task::{opt_view, owned};
use crate::text::{concat2, concat3, int_text, push_owned, push_text, views};

verus! {

broadcast use vstd::string::group_string_axioms;

/// A tool the installer looks for.
#[derive(PartialEq, Eq, Structural, Clone, Copy, Debug)]
pub enum Tool {
    Git,
    Node,
    Npm,
    Winget,
}

/// A `winget` run on Windows.
#[derive(PartialEq, Eq, Structural, Clone, Copy, Debug)]
pub enum WingetJob {
    InstallGit,
    UpgradeNode,
    InstallNode,
}

/// What the flow waits for.
#[derive(PartialEq, Eq, Structural, Clone, Copy, Debug)]
pub enum Phase {
    Diagnose,
    GitProbe,
    GitBrewLookup,
    GitBrewInstall,
    GitWingetCheck,
    GitWingetInstall,
    GitRecheck,
    NodeProbe,
    NpmProbe,
    NodeBrewLookup,
    NodeBrewInstall,
    NodeWingetCheck,
    NodeWingetUpgrade,
    UpgradedNodeProbe,
    UpgradedNpmProbe,
    NodeWingetInstall,
    NodeFinal,
    NpmFinal,
    NpmInstall,
    NpmRetry,
    Verify,
    Resolve,
    Admin,
    Onboard,
    GatewayReport,
    ConfigModel,
    ConfigApi,
    ConfigModels,
    ConfigContext,
    ConfigMaxTokens,
    Finished,
    Failed,
}

/// The next piece of outside work.
pub enum Work {
    /// Log the environment diagnosis.
    Diagnose,
    /// Run `<tool> --version` (`-v` for Node.js and npm) and report whether it
    /// ran, or, for Node.js, its output.
    Probe(Tool),
    /// Look for Homebrew and report whether it was found.
    FindBrew,
    /// `brew install git` or `brew install node`.
    BrewInstall(Tool),
    /// A `winget` run.
    Winget(WingetJob),
    /// `npm` with `args` and the GitHub rewrite for `mirror` (and, when
    /// asked, without the native build of `node-llama-cpp`); `notes` are
    /// logged once the command is built.
    NpmInstall {
        args: Vec<String>,
        mirror: Option<String>,
        skip_llama_build: bool,
        notes: Vec<String>,
    },
    /// Run `openclaw --version` and report what was found.
    Verify,
    /// Look for the `openclaw` command.
    Resolve,
    /// Ask whether the helper runs with administrator rights.
    CheckAdmin,
    /// Run the non-interactive `openclaw onboard`.
    Onboard { install_daemon: bool },
    /// Log `openclaw gateway status` to help with a failed onboarding.
    GatewayReport,
    /// Read a configuration value as JSON.
    ConfigGet { path: String },
    /// Write a configuration value.
    ConfigSet { path: String, value: String, strict_json: bool },
    /// The installation is complete.
    Finish,
    /// The installation failed with this message.
    Fail(String),
}

/// Abstract view of a `Work`.
pub enum WorkView {
    Diagnose,
    Probe(Tool),
    FindBrew,
    BrewInstall(Tool),
    Winget(WingetJob),
    NpmInstall {
        args: Seq<Seq<char>>,
        mirror: Option<Seq<char>>,
        skip_llama_build: bool,
        notes: Seq<Seq<char>>,
    },
    Verify,
    Resolve,
    CheckAdmin,
    Onboard { install_daemon: bool },
    GatewayReport,
    ConfigGet { path: Seq<char> },
    ConfigSet { path: Seq<char>, value: Seq<char>, strict_json: bool },
    Finish,
    Fail(Seq<char>),
}

impl View for Work {
    type V = WorkView;

    open spec fn view(&self) -> WorkView {
        match self {
            Work::Diagnose => WorkView::Diagnose,
            Work::Probe(t) => WorkView::Probe(*t),
            Work::FindBrew => WorkView::FindBrew,
            Work::BrewInstall(t) => WorkView::BrewInstall(*t),
            Work::Winget(j) => WorkView::Winget(*j),
            Work::NpmInstall { args, mirror, skip_llama_build, notes } => WorkView::NpmInstall {
                args: views(args@),
                mirror: opt_view(*mirror),
                skip_llama_build: *skip_llama_build,
                notes: views(notes@),
            },
            Work::Verify => WorkView::Verify,
            Work::Resolve => WorkView::Resolve,
            Work::CheckAdmin => WorkView::CheckAdmin,
            Work::Onboard { install_daemon } => WorkView::Onboard { install_daemon: *install_daemon },
            Work::GatewayReport => WorkView::GatewayReport,
            Work::ConfigGet { path } => WorkView::ConfigGet { path: path@ },
            Work::ConfigSet { path, value, strict_json } => WorkView::ConfigSet {
                path: path@,
                value: value@,
                strict_json: *strict_json,
            },
            Work::Finish => WorkView::Finish,
            Work::Fail(m) => WorkView::Fail(m@),
        }
    }
}

/// What the application does next: log `before`, show the progress step,
/// log `after`, rebuild the `PATH` when asked, then do `work`.
pub struct Action {
    pub before: Vec<String>,
    pub progress: Option<u32>,
    pub after: Vec<String>,
    pub refresh_path: bool,
    pub work: Work,
}

/// Abstract view of an `Action`.
pub struct ActionView {
    pub before: Seq<Seq<char>>,
    pub progress: Option<u32>,
    pub after: Seq<Seq<char>>,
    pub refresh_path: bool,
    pub work: WorkView,
}

impl View for Action {
    type V = ActionView;

    open spec fn view(&self) -> ActionView {
        ActionView {
            before: views(self.before@),
            progress: self.progress,
            after: views(self.after@),
            refresh_path: self.refresh_path,
            work: self.work@,
        }
    }
}

/// What came of the last piece of work.
pub enum Event {
    /// The diagnosis or the gateway report was logged.
    Done,
    /// Whether the probe ran.
    Probed(bool),
    /// The output of `node -v`, or `None` when it did not run.
    NodeOutput(Option<String>),
    /// Whether Homebrew was found.
    BrewFound(bool),
    /// The exit code of a run, or why it could not run.
    Ran(Result<i32, String>),
    /// The exit code and captured output of `npm install -g`, or why it could
    /// not run.
    NpmRan(Result<(i32, String), String>),
    /// What `openclaw --version` showed.
    Checked { installed: bool, version: Option<String>, error: Option<String> },
    /// Whether the `openclaw` command was found.
    Resolved(bool),
    /// Whether the helper runs with administrator rights.
    IsAdmin(bool),
    /// A configuration value, or why it could not be read.
    Json(Result<JsonValue, String>),
    /// Whether a configuration value was written.
    Written(Result<(), String>),
}

/// Abstract view of an `Event`.
pub enum EventView {
    Done,
    Probed(bool),
    NodeOutput(Option<Seq<char>>),
    BrewFound(bool),
    Ran(Result<i32, Seq<char>>),
    NpmRan(Result<(i32, Seq<char>), Seq<char>>),
    Checked { installed: bool, version: Option<Seq<char>>, error: Option<Seq<char>> },
    Resolved(bool),
    IsAdmin(bool),
    Json(Result<JsonValue, Seq<char>>),
    Written(Result<(), Seq<char>>),
}

impl View for Event {
    type V = EventView;

    open spec fn view(&self) -> EventView {
        match self {
            Event::Done => EventView::Done,
            Event::Probed(b) => EventView::Probed(*b),
            Event::NodeOutput(o) => EventView::NodeOutput(opt_view(*o)),
            Event::BrewFound(b) => EventView::BrewFound(*b),
            Event::Ran(r) => EventView::Ran(
                match r {
                    Ok(c) => Ok(*c),
                    Err(e) => Err(e@),
                },
            ),
            Event::NpmRan(r) => EventView::NpmRan(
                match r {
                    Ok((c, o)) => Ok((*c, o@)),
                    Err(e) => Err(e@),
                },
            ),
            Event::Checked { installed, version, error } => EventView::Checked {
                installed: *installed,
                version: opt_view(*version),
                error: opt_view(*error),
            },
            Event::Resolved(b) => EventView::Resolved(*b),
            Event::IsAdmin(b) => EventView::IsAdmin(*b),
            Event::Json(r) => EventView::Json(
                match r {
                    Ok(v) => Ok(*v),
                    Err(e) => Err(e@),
                },
            ),
            Event::Written(r) => EventView::Written(
                match r {
                    Ok(_) => Ok(()),
                    Err(e) => Err(e@),
                },
            ),
        }
    }
}

/// The installer's state between two pieces of work.
pub struct InstallFlow {
    platform: Platform,
    package: String,
    registry: String,
    mirror: Option<String>,
    mirror_disabled: bool,
    needs_onboard: bool,
    total: u32,
    phase: Phase,
    progress: u32,
    node_major: Option<u32>,
    node_ok: bool,
    fail_code: i32,
    provider: String,
    model: String,
    model_index: u64,
}

/// Abstract view of an `InstallFlow`.
pub struct FlowView {
    pub platform: Platform,
    pub package: Seq<char>,
    pub registry: Seq<char>,
    pub mirror: Option<Seq<char>>,
    pub mirror_disabled: bool,
    pub needs_onboard: bool,
    pub total: u32,
    pub phase: Phase,
    pub progress: u32,
    pub node_major: Option<u32>,
    pub node_ok: bool,
    pub fail_code: i32,
    pub provider: Seq<char>,
    pub model: Seq<char>,
    pub model_index: nat,
}

impl View for InstallFlow {
    type V = FlowView;

    closed spec fn view(&self) -> FlowView {
        FlowView {
            platform: self.platform,
            package: self.package@,
            registry: self.registry@,
            mirror: opt_view(self.mirror),
            mirror_disabled: self.mirror_disabled,
            needs_onboard: self.needs_onboard,
            total: self.total,
            phase: self.phase,
            progress: self.progress,
            node_major: self.node_major,
            node_ok: self.node_ok,
            fail_code: self.fail_code,
            provider: self.provider@,
            model: self.model@,
            model_index: self.model_index as nat,
        }
    }
}

/// Where a phase stands in the order of the installation; every step moves
/// to a later one.
pub open spec fn rank(p: Phase) -> nat {
    match p {
        Phase::Diagnose => 0,
        Phase::GitProbe => 1,
        Phase::GitBrewLookup => 2,
        Phase::GitBrewInstall => 3,
        Phase::GitWingetCheck => 4,
        Phase::GitWingetInstall => 5,
        Phase::GitRecheck => 6,
        Phase::NodeProbe => 7,
        Phase::NpmProbe => 8,
        Phase::NodeBrewLookup => 9,
        Phase::NodeBrewInstall => 10,
        Phase::NodeWingetCheck => 11,
        Phase::NodeWingetUpgrade => 12,
        Phase::UpgradedNodeProbe => 13,
        Phase::UpgradedNpmProbe => 14,
        Phase::NodeWingetInstall => 15,
        Phase::NodeFinal => 16,
        Phase::NpmFinal => 17,
        Phase::NpmInstall => 18,
        Phase::NpmRetry => 19,
        Phase::Verify => 20,
        Phase::Resolve => 21,
        Phase::Admin => 22,
        Phase::Onboard => 23,
        Phase::GatewayReport => 24,
        Phase::ConfigModel => 25,
        Phase::ConfigApi => 26,
        Phase::ConfigModels => 27,
        Phase::ConfigContext => 28,
        Phase::ConfigMaxTokens => 29,
        Phase::Finished => 30,
        Phase::Failed => 31,
    }
}

/// The phases reached only after Node.js and npm passed the final check.
pub open spec fn past_node_check(p: Phase) -> bool {
    rank(p) >= rank(Phase::NpmInstall) && p != Phase::Failed
}

/// The progress step shown while the flow waits in a phase.
pub open spec fn shown(p: Phase) -> u32 {
    let r = rank(p);
    if r == 0 {
        1
    } else if r <= 6 {
        2
    } else if r <= 17 {
        3
    } else if r <= 19 {
        4
    } else if r == 20 {
        5
    } else if r <= 24 {
        6
    } else {
        7
    }
}

/// The state the flow keeps: the progress shown is within the step count,
/// which is 7 with onboarding and 5 without, and once the npm install is
/// under way Node.js is known to be recent enough.
pub open spec fn flow_ok(s: FlowView) -> bool {
    &&& s.total == (if s.needs_onboard {
        7u32
    } else {
        5u32
    })
    &&& s.progress <= s.total
    &&& s.phase != Phase::Finished && s.phase != Phase::Failed ==> s.progress == shown(s.phase)
    &&& s.phase == Phase::NpmFinal ==> (s.node_major matches Some(m) && m >= 22)
    &&& s.phase == Phase::Admin ==> s.platform == Platform::Windows
    &&& s.node_ok ==> (s.node_major matches Some(m) && m >= 22)
    &&& s.node_ok ==> rank(s.phase) >= rank(Phase::NpmInstall)
    &&& past_node_check(s.phase) ==> s.node_ok
    &&& rank(s.phase) >= rank(Phase::Resolve) && s.phase != Phase::Failed && s.phase
        != Phase::Finished ==> s.needs_onboard
}

/// The events each phase waits for.
pub open spec fn fits(p: Phase, e: EventView) -> bool {
    match p {
        Phase::Diagnose | Phase::GatewayReport => e is Done,
        Phase::GitProbe | Phase::GitWingetCheck | Phase::GitRecheck | Phase::NpmProbe
        | Phase::NodeWingetCheck | Phase::UpgradedNpmProbe | Phase::NpmFinal => e is Probed,
        Phase::GitBrewLookup | Phase::NodeBrewLookup => e is BrewFound,
        Phase::GitBrewInstall | Phase::GitWingetInstall | Phase::NodeBrewInstall
        | Phase::NodeWingetUpgrade | Phase::NodeWingetInstall | Phase::Onboard => e is Ran,
        Phase::NodeProbe | Phase::UpgradedNodeProbe | Phase::NodeFinal => e is NodeOutput,
        Phase::NpmInstall | Phase::NpmRetry => e is NpmRan,
        Phase::Verify => e is Checked,
        Phase::Resolve => e is Resolved,
        Phase::Admin => e is IsAdmin,
        Phase::ConfigModel | Phase::ConfigModels => e is Json,
        Phase::ConfigApi | Phase::ConfigContext | Phase::ConfigMaxTokens => e is Written,
        Phase::Finished | Phase::Failed => false,
    }
}

/// Moves to `phase` and asks for `work` after logging `before`.
pub open spec fn plain(s: FlowView, phase: Phase, before: Seq<Seq<char>>, refresh: bool, work: WorkView) -> (
    FlowView,
    ActionView,
) {
    (
        FlowView { phase, ..s },
        ActionView { before, progress: None, after: seq![], refresh_path: refresh, work },
    )
}

/// Moves to `phase`, shows progress step `index`, logs `after` and asks for
/// `work`.
pub open spec fn staged(s: FlowView, phase: Phase, before: Seq<Seq<char>>, index: u32, after: Seq<
    Seq<char>,
>, work: WorkView) -> (FlowView, ActionView) {
    (
        FlowView { phase, progress: index, ..s },
        ActionView { before, progress: Some(index), after, refresh_path: false, work },
    )
}

/// Stops with `msg`, after logging `before`.
pub open spec fn failed(s: FlowView, before: Seq<Seq<char>>, msg: Seq<char>) -> (FlowView, ActionView) {
    plain(s, Phase::Failed, before, false, WorkView::Fail(msg))
}

/// Whether a probe ran.
pub open spec fn probed(e: EventView) -> bool {
    match e {
        EventView::Probed(b) => b,
        _ => false,
    }
}

/// Whether Homebrew was found.
pub open spec fn brew_found(e: EventView) -> bool {
    match e {
        EventView::BrewFound(b) => b,
        _ => false,
    }
}

/// The output of a `node -v` probe.
pub open spec fn node_output(e: EventView) -> Option<Seq<char>> {
    match e {
        EventView::NodeOutput(o) => o,
        _ => None,
    }
}

/// The major version of Node.js in a probe's output, when it fits in a `u32`.
pub open spec fn major_of(o: Option<Seq<char>>) -> Option<u32> {
    match o {
        Some(out) => match node_major(out) {
            Some(m) => Some(m as u32),
            None => None,
        },
        None => None,
    }
}

/// The result of a run.
pub open spec fn ran(e: EventView) -> Result<i32, Seq<char>> {
    match e {
        EventView::Ran(r) => r,
        _ => Err(Seq::<char>::empty()),
    }
}

/// The message of a failed `winget` check.
pub open spec fn winget_missing() -> Seq<char> {
    "未检测到 winget。请先安装 Microsoft App Installer（Windows 软件包管理器）后重试。"@
}

/// The message of a failed npm install.
pub open spec fn npm_failed() -> Seq<char> {
    "npm install -g 失败，请查看日志。"@
}

/// The log line of a configuration write.
pub open spec fn set_log(path: Seq<char>, value: Seq<char>) -> Seq<char> {
    "[config] set "@ + path + " = "@ + value
}

/// Asks for a configuration write, logging it first.
pub open spec fn config_set(s: FlowView, phase: Phase, path: Seq<char>, value: Seq<char>, strict: bool) -> (
    FlowView,
    ActionView,
) {
    plain(
        s,
        phase,
        seq![set_log(path, value)],
        false,
        WorkView::ConfigSet { path, value, strict_json: strict },
    )
}

/// The first action of the installation.
pub open spec fn start_spec(plan: PlanView, platform: Platform, os_arch: Seq<char>) -> (
    FlowView,
    ActionView,
) {
    let s = FlowView {
        platform,
        package: plan.openclaw_package,
        registry: plan.npm_registry,
        mirror: plan.github_mirror,
        mirror_disabled: plan.github_mirror_disabled,
        needs_onboard: plan.needs_onboard,
        total: plan.total_steps,
        phase: Phase::Diagnose,
        progress: 1,
        node_major: None,
        node_ok: false,
        fail_code: 0,
        provider: Seq::<char>::empty(),
        model: Seq::<char>::empty(),
        model_index: 0,
    };
    let mirror_line = match plan.github_mirror {
        Some(m) => "GitHub mirror: "@ + m,
        None => "GitHub mirror: (none)"@,
    };
    (
        s,
        ActionView {
            before: seq![],
            progress: Some(1),
            after: seq![
                "平台："@ + os_arch,
                "openclaw 包名："@ + plan.openclaw_package,
                "npm registry: "@ + plan.npm_registry,
                mirror_line,
            ],
            refresh_path: false,
            work: WorkView::Diagnose,
        },
    )
}

/// The Git repair that fits the platform, after `git --version` failed.
pub open spec fn git_repair(s: FlowView) -> (FlowView, ActionView) {
    if s.platform == Platform::MacOs {
        plain(s, Phase::GitBrewLookup, seq![], false, WorkView::FindBrew)
    } else if s.platform == Platform::Windows {
        plain(s, Phase::GitWingetCheck, seq![], false, WorkView::Probe(Tool::Winget))
    } else {
        plain(s, Phase::GitRecheck, seq![], false, WorkView::Probe(Tool::Git))
    }
}

/// The Node.js repair that fits the platform, when Node.js or npm is not
/// usable.
pub open spec fn node_repair(s: FlowView) -> (FlowView, ActionView) {
    if s.platform == Platform::MacOs {
        plain(s, Phase::NodeBrewLookup, seq![], false, WorkView::FindBrew)
    } else if s.platform == Platform::Windows {
        plain(s, Phase::NodeWingetCheck, seq![], false, WorkView::Probe(Tool::Winget))
    } else {
        failed(s, seq![], "未检测到可用 Node.js（需要 >= 22）。请先安装 Node.js 后重试。"@)
    }
}

/// The move to the npm install, once Node.js and npm passed the final check.
pub open spec fn to_npm_install(s: FlowView) -> (FlowView, ActionView) {
    let llama = "[npm] NODE_LLAMA_CPP_SKIP_DOWNLOAD=1（跳过 node-llama-cpp 安装期下载/编译，提升 Windows 安装成功率）"@;
    let notes = if s.platform == Platform::Windows {
        seq![llama, git_rewrite_message(s.mirror)]
    } else {
        seq![git_rewrite_message(s.mirror)]
    };
    staged(
        FlowView { node_ok: true, ..s },
        Phase::NpmInstall,
        seq![],
        4,
        seq!["[npm] registry: "@ + s.registry],
        WorkView::NpmInstall {
            args: npm_install_args(s.package, s.registry),
            mirror: s.mirror,
            skip_llama_build: s.platform == Platform::Windows,
            notes,
        },
    )
}

/// What follows a successful `openclaw --version`: onboarding when an API
/// key was given, otherwise the end.
pub open spec fn after_verify(s: FlowView, version: Option<Seq<char>>) -> (FlowView, ActionView) {
    let shown = match version {
        Some(v) => v,
        None => "unknown"@,
    };
    let line = "openclaw --version => "@ + shown;
    if s.needs_onboard {
        staged(s, Phase::Resolve, seq![line], 6, seq![], WorkView::Resolve)
    } else {
        plain(
            s,
            Phase::Finished,
            seq![line, "跳过自动配置：未提供 CUSTOM_API_KEY。"@],
            false,
            WorkView::Finish,
        )
    }
}

/// The installer's next state and action after event `e`.
pub open spec fn next(s: FlowView, e: EventView) -> (FlowView, ActionView) {
    match s.phase {
        Phase::Diagnose => staged(s, Phase::GitProbe, seq![], 2, seq![], WorkView::Probe(Tool::Git)),
        Phase::GitProbe => if probed(e) {
            staged(s, Phase::NodeProbe, seq![], 3, seq![], WorkView::Probe(Tool::Node))
        } else {
            git_repair(s)
        },
        Phase::GitBrewLookup => if brew_found(e) {
            plain(s, Phase::GitBrewInstall, seq![], false, WorkView::BrewInstall(Tool::Git))
        } else {
            plain(s, Phase::GitRecheck, seq![], false, WorkView::Probe(Tool::Git))
        },
        Phase::GitBrewInstall => match ran(e) {
            Err(m) => failed(s, seq![], m),
            Ok(_) => plain(s, Phase::GitRecheck, seq![], false, WorkView::Probe(Tool::Git)),
        },
        Phase::GitWingetCheck => if probed(e) {
            plain(
                s,
                Phase::GitWingetInstall,
                seq!["未检测到 Git，尝试通过 winget 安装 Git…"@],
                false,
                WorkView::Winget(WingetJob::InstallGit),
            )
        } else {
            failed(s, seq![], winget_missing())
        },
        Phase::GitWingetInstall => match ran(e) {
            Err(m) => failed(s, seq![], m),
            Ok(c) => if c != 0 {
                failed(s, seq![], "winget 安装 Git 失败（退出码 "@ + int_text(c as int) + "）"@)
            } else {
                plain(s, Phase::GitRecheck, seq![], true, WorkView::Probe(Tool::Git))
            },
        },
        Phase::GitRecheck => if probed(e) {
            staged(s, Phase::NodeProbe, seq![], 3, seq![], WorkView::Probe(Tool::Node))
        } else {
            failed(
                s,
                seq![],
                "未检测到 git。请先安装 git（推荐：Homebrew 安装 git，或安装 Xcode Command Line Tools）。"@,
            )
        },
        Phase::NodeProbe => plain(
            FlowView { node_major: major_of(node_output(e)), ..s },
            Phase::NpmProbe,
            seq![],
            false,
            WorkView::Probe(Tool::Npm),
        ),
        Phase::NpmProbe => if node_usable(s.node_major, probed(e)) {
            plain(s, Phase::NodeFinal, seq![], false, WorkView::Probe(Tool::Node))
        } else {
            node_repair(s)
        },
        Phase::NodeBrewLookup => if brew_found(e) {
            plain(s, Phase::NodeBrewInstall, seq![], false, WorkView::BrewInstall(Tool::Node))
        } else {
            failed(s, seq![], "未检测到 Node.js，且未检测到 brew。请先安装 Homebrew 或手动安装 Node.js。"@)
        },
        Phase::NodeBrewInstall => match ran(e) {
            Err(m) => failed(s, seq![], m),
            Ok(_) => plain(s, Phase::NodeFinal, seq![], false, WorkView::Probe(Tool::Node)),
        },
        Phase::NodeWingetCheck => if probed(e) {
            plain(
                s,
                Phase::NodeWingetUpgrade,
                seq!["Node.js / npm 不满足要求，尝试通过 winget 修复…"@],
                false,
                WorkView::Winget(WingetJob::UpgradeNode),
            )
        } else {
            failed(s, seq![], winget_missing())
        },
        Phase::NodeWingetUpgrade => match ran(e) {
            Err(m) => failed(s, seq![], m),
            Ok(c) => plain(
                s,
                Phase::UpgradedNodeProbe,
                if c != 0 {
                    seq!["[winget] upgrade 返回退出码 "@ + int_text(c as int) + "，继续检查是否需要 install…"@]
                } else {
                    seq![]
                },
                true,
                WorkView::Probe(Tool::Node),
            ),
        },
        Phase::UpgradedNodeProbe => plain(
            FlowView { node_major: major_of(node_output(e)), ..s },
            Phase::UpgradedNpmProbe,
            seq![],
            false,
            WorkView::Probe(Tool::Npm),
        ),
        Phase::UpgradedNpmProbe => if node_usable(s.node_major, probed(e)) {
            plain(s, Phase::NodeFinal, seq![], false, WorkView::Probe(Tool::Node))
        } else {
            plain(s, Phase::NodeWingetInstall, seq![], false, WorkView::Winget(WingetJob::InstallNode))
        },
        Phase::NodeWingetInstall => match ran(e) {
            Err(m) => failed(s, seq![], m),
            Ok(c) => if c != 0 {
                failed(s, seq![], "winget 安装 Node.js 失败（退出码 "@ + int_text(c as int) + "）"@)
            } else {
                plain(s, Phase::NodeFinal, seq![], true, WorkView::Probe(Tool::Node))
            },
        },
        Phase::NodeFinal => match node_final_check(node_output(e)) {
            Err(m) => failed(s, seq![], m),
            Ok(m) => plain(
                FlowView { node_major: Some(m as u32), ..s },
                Phase::NpmFinal,
                seq![],
                false,
                WorkView::Probe(Tool::Npm),
            ),
        },
        Phase::NpmFinal => if probed(e) {
            to_npm_install(s)
        } else {
            failed(s, seq![], "未检测到 npm。请确认 Node.js 安装完整，或重新安装 Node.js 后重试。"@)
        },
        Phase::NpmInstall => match e {
            EventView::NpmRan(Err(m)) => failed(s, seq![], m),
            EventView::NpmRan(Ok((c, out))) => if c == 0 {
                staged(s, Phase::Verify, seq![], 5, seq![], WorkView::Verify)
            } else if github_unreachable(out) && s.mirror is None && !s.mirror_disabled {
                plain(
                    FlowView { mirror: Some(default_mirror()), ..s },
                    Phase::NpmRetry,
                    seq![
                        "[warn] 检测到 GitHub 连接失败，尝试启用 GitHub 镜像：https://gitclone.com/github.com/（仅本次安装生效）"@,
                    ],
                    false,
                    WorkView::NpmInstall {
                        args: npm_install_args(s.package, s.registry),
                        mirror: Some(default_mirror()),
                        skip_llama_build: false,
                        notes: seq![git_rewrite_message(Some(default_mirror()))],
                    },
                )
            } else {
                failed(s, seq![], npm_failed())
            },
            _ => failed(s, seq![], npm_failed()),
        },
        Phase::NpmRetry => match e {
            EventView::NpmRan(Err(m)) => failed(s, seq![], m),
            EventView::NpmRan(Ok((c, _))) => if c == 0 {
                staged(s, Phase::Verify, seq![], 5, seq![], WorkView::Verify)
            } else {
                failed(s, seq![], npm_failed())
            },
            _ => failed(s, seq![], npm_failed()),
        },
        Phase::Verify => match e {
            EventView::Checked { installed, version, error } => if installed {
                after_verify(s, version)
            } else {
                failed(
                    s,
                    seq![],
                    "openclaw 安装完成，但无法执行 openclaw："@ + match error {
                        Some(m) => m,
                        None => "unknown"@,
                    },
                )
            },
            _ => failed(s, seq![], Seq::<char>::empty()),
        },
        Phase::Resolve => match e {
            EventView::Resolved(true) => if s.platform == Platform::Windows {
                plain(s, Phase::Admin, seq![], false, WorkView::CheckAdmin)
            } else {
                plain(s, Phase::Onboard, seq![], false, WorkView::Onboard { install_daemon: true })
            },
            _ => failed(s, seq![], "未检测到 openclaw，请先完成安装。"@),
        },
        Phase::Admin => match e {
            EventView::IsAdmin(true) => plain(
                s,
                Phase::Onboard,
                seq![],
                false,
                WorkView::Onboard { install_daemon: true },
            ),
            _ => plain(
                s,
                Phase::Onboard,
                seq![
                    "[tip] Windows 上安装网关服务需要管理员权限；当前未以管理员运行，已跳过 daemon 安装。稍后可在“网关服务 → 启动”触发安装。"@,
                ],
                false,
                WorkView::Onboard { install_daemon: false },
            ),
        },
        Phase::Onboard => match ran(e) {
            Err(m) => failed(s, seq![], m),
            Ok(c) => if c != 0 {
                plain(
                    FlowView { fail_code: c, ..s },
                    Phase::GatewayReport,
                    seq!["[openclaw] onboard 失败，尝试输出 gateway status 以便排查…"@],
                    false,
                    WorkView::GatewayReport,
                )
            } else {
                staged(
                    s,
                    Phase::ConfigModel,
                    seq![],
                    7,
                    seq!["[config] 设置 api=openai-responses…"@],
                    WorkView::ConfigGet { path: "agents.defaults.model"@ },
                )
            },
        },
        Phase::GatewayReport => failed(
            s,
            seq![],
            "openclaw onboard 失败（退出码 "@ + int_text(s.fail_code as int) + "）"@,
        ),
        Phase::ConfigModel => match e {
            EventView::Json(Ok(v)) => match model_ref(v) {
                None => failed(s, seq![], "无法从 agents.defaults.model 推断 provider/model id"@),
                Some((p, m)) => {
                    let path = provider_path(p, "api"@);
                    plain(
                        FlowView { provider: p, model: m, ..s },
                        Phase::ConfigApi,
                        seq![
                            "[config] provider: "@ + p,
                            "[config] model: "@ + m,
                            set_log(path, "openai-responses"@),
                        ],
                        false,
                        WorkView::ConfigSet {
                            path,
                            value: "openai-responses"@,
                            strict_json: false,
                        },
                    )
                },
            },
            EventView::Json(Err(m)) => failed(s, seq![], m),
            _ => failed(s, seq![], Seq::<char>::empty()),
        },
        Phase::ConfigApi => match e {
            EventView::Written(Ok(_)) => plain(
                s,
                Phase::ConfigModels,
                seq![],
                false,
                WorkView::ConfigGet { path: provider_path(s.provider, "models"@) },
            ),
            EventView::Written(Err(m)) => failed(s, seq![], m),
            _ => failed(s, seq![], Seq::<char>::empty()),
        },
        Phase::ConfigModels => match e {
            EventView::Json(Ok(v)) => match model_index(
                v,
                s.model,
                provider_path(s.provider, "models"@),
            ) {
                Err(m) => failed(s, seq![], m),
                Ok(i) => config_set(
                    FlowView { model_index: i as nat, ..s },
                    Phase::ConfigContext,
                    model_field_path(s.provider, i as nat, "contextWindow"@),
                    "320000"@,
                    true,
                ),
            },
            EventView::Json(Err(m)) => failed(s, seq![], m),
            _ => failed(s, seq![], Seq::<char>::empty()),
        },
        Phase::ConfigContext => match e {
            EventView::Written(Ok(_)) => config_set(
                s,
                Phase::ConfigMaxTokens,
                model_field_path(s.provider, s.model_index, "maxTokens"@),
                "81920"@,
                true,
            ),
            EventView::Written(Err(m)) => failed(s, seq![], m),
            _ => failed(s, seq![], Seq::<char>::empty()),
        },
        Phase::ConfigMaxTokens => match e {
            EventView::Written(Ok(_)) => plain(
                s,
                Phase::Finished,
                seq!["[config] ok"@, "安装完成：未自动重启网关服务，你可以稍后手动启动。"@],
                false,
                WorkView::Finish,
            ),
            EventView::Written(Err(m)) => failed(s, seq![], m),
            _ => failed(s, seq![], Seq::<char>::empty()),
        },
        Phase::Finished | Phase::Failed => (s, ActionView {
            before: seq![],
            progress: None,
            after: seq![],
            refresh_path: false,
            work: WorkView::Finish,
        }),
    }
}

/// No texts.
pub(crate) fn no_lines() -> (r: Vec<String>)
    ensures
        views(r@) == Seq::<Seq<char>>::empty(),
{
    let v: Vec<String> = Vec::new();
    assert(views(v@) =~= Seq::<Seq<char>>::empty());
    v
}

/// One text.
pub(crate) fn one_line(a: String) -> (r: Vec<String>)
    ensures
        views(r@) == seq![a@],
{
    let mut v = no_lines();
    push_owned(&mut v, a);
    assert(views(v@) =~= seq![a@]);
    v
}

/// Two texts.
pub(crate) fn two_lines(a: String, b: String) -> (r: Vec<String>)
    ensures
        views(r@) == seq![a@, b@],
{
    let mut v = one_line(a);
    push_owned(&mut v, b);
    assert(views(v@) =~= seq![a@, b@]);
    v
}

/// A text built from a number between two texts.
pub(crate) fn with_code(before: &str, code: i32, after: &str) -> (r: String)
    ensures
        r@ == before@ + int_text(code as int) + after@,
{
    crate::install::message_with_code(before, code as i64, after)
}

/// The log line of a configuration write.
fn set_line(path: &str, value: &str) -> (r: String)
    ensures
        r@ == set_log(path@, value@),
{
    let mut s = concat3("[config] set ", path, " = ");
    s.append(value);
    s
}

impl InstallFlow {
    /// Whether the phase is one of the two final ones.
    pub fn is_over(&self) -> (b: bool)
        ensures
            b == (self@.phase == Phase::Finished || self@.phase == Phase::Failed),
    {
        self.phase == Phase::Finished || self.phase == Phase::Failed
    }

    /// Whether `step` may be given `e` now: the flow waits for that kind of
    /// event.
    pub fn accepts(&self, e: &Event) -> (b: bool)
        ensures
            b == (flow_ok(self@) && fits(self@.phase, e@)),
    {
        let ok_total = if self.needs_onboard {
            self.total == 7
        } else {
            self.total == 5
        };
        let ok_node = !self.node_ok || match self.node_major {
            Some(m) => m >= 22,
            None => false,
        };
        let r = phase_rank(self.phase);
        let ok_past = !(r >= 18 && self.phase != Phase::Failed) || self.node_ok;
        let ok_early = !self.node_ok || r >= 18;
        let ok_onboard = !(r >= 21 && self.phase != Phase::Failed && self.phase != Phase::Finished)
            || self.needs_onboard;
        let fit = match self.phase {
            Phase::Diagnose | Phase::GatewayReport => matches!(e, Event::Done),
            Phase::GitProbe | Phase::GitWingetCheck | Phase::GitRecheck | Phase::NpmProbe
            | Phase::NodeWingetCheck | Phase::UpgradedNpmProbe | Phase::NpmFinal => matches!(
                e,
                Event::Probed(_)
            ),
            Phase::GitBrewLookup | Phase::NodeBrewLookup => matches!(e, Event::BrewFound(_)),
            Phase::GitBrewInstall | Phase::GitWingetInstall | Phase::NodeBrewInstall
            | Phase::NodeWingetUpgrade | Phase::NodeWingetInstall | Phase::Onboard => matches!(
                e,
                Event::Ran(_)
            ),
            Phase::NodeProbe | Phase::UpgradedNodeProbe | Phase::NodeFinal => matches!(
                e,
                Event::NodeOutput(_)
            ),
            Phase::NpmInstall | Phase::NpmRetry => matches!(e, Event::NpmRan(_)),
            Phase::Verify => matches!(e, Event::Checked { .. }),
            Phase::Resolve => matches!(e, Event::Resolved(_)),
            Phase::Admin => matches!(e, Event::IsAdmin(_)),
            Phase::ConfigModel | Phase::ConfigModels => matches!(e, Event::Json(_)),
            Phase::ConfigApi | Phase::ConfigContext | Phase::ConfigMaxTokens => matches!(
                e,
                Event::Written(_)
            ),
            Phase::Finished | Phase::Failed => false,
        };
        let open = self.phase != Phase::Finished && self.phase != Phase::Failed;
        let expected: u32 = if r == 0 {
            1
        } else if r <= 6 {
            2
        } else if r <= 17 {
            3
        } else if r <= 19 {
            4
        } else if r == 20 {
            5
        } else if r <= 24 {
            6
        } else {
            7
        };
        let ok_shown = !open || self.progress == expected;
        let ok_final = self.phase != Phase::NpmFinal || match self.node_major {
            Some(m) => m >= 22,
            None => false,
        };
        let ok_admin = self.phase != Phase::Admin || self.platform == Platform::Windows;
        ok_total && self.progress <= self.total && ok_node && ok_early && ok_past && ok_onboard && ok_shown
            && ok_final && ok_admin && fit
    }

    /// Starts the installation of `plan` on `platform`; `os_arch` names the
    /// operating system and processor for the log.
    pub fn start(plan: InstallPlan, platform: Platform, os_arch: &str) -> (r: (InstallFlow, Action))
        requires
            plan@.total_steps == (if plan@.needs_onboard {
                7u32
            } else {
                5u32
            }),
        ensures
            (r.0@, r.1@) == start_spec(plan@, platform, os_arch@),
            flow_ok(r.0@),
    {
        let mirror_line = match &plan.github_mirror {
            Some(m) => concat2("GitHub mirror: ", m.as_str()),
            None => owned("GitHub mirror: (none)"),
        };
        let mut after = two_lines(
            concat2("平台：", os_arch),
            concat2("openclaw 包名：", plan.openclaw_package.as_str()),
        );
        push_owned(&mut after, concat2("npm registry: ", plan.npm_registry.as_str()));
        push_owned(&mut after, mirror_line);
        let flow = InstallFlow {
            platform,
            package: plan.openclaw_package,
            registry: plan.npm_registry,
            mirror: plan.github_mirror,
            mirror_disabled: plan.github_mirror_disabled,
            needs_onboard: plan.needs_onboard,
            total: plan.total_steps,
            phase: Phase::Diagnose,
            progress: 1,
            node_major: None,
            node_ok: false,
            fail_code: 0,
            provider: String::new(),
            model: String::new(),
            model_index: 0,
        };
        let action = Action {
            before: no_lines(),
            progress: Some(1),
            after,
            refresh_path: false,
            work: Work::Diagnose,
        };
        let ghost sp = start_spec(plan@, platform, os_arch@);
        assert(action@.after =~= sp.1.after);
        assert(flow@ == sp.0);
        (flow, action)
    }

    /// Moves to `phase` and asks for `work` after logging `before`.
    fn go(&mut self, phase: Phase, before: Vec<String>, refresh: bool, work: Work) -> (a: Action)
        ensures
            (final(self)@, a@) == plain(old(self)@, phase, views(before@), refresh, work@),
    {
        self.phase = phase;
        Action { before, progress: None, after: no_lines(), refresh_path: refresh, work }
    }

    /// Moves to `phase`, shows step `index` and asks for `work`.
    fn go_staged(&mut self, phase: Phase, before: Vec<String>, index: u32, after: Vec<String>, work: Work) -> (a: Action)
        ensures
            (final(self)@, a@) == staged(old(self)@, phase, views(before@), index, views(after@), work@),
    {
        self.phase = phase;
        self.progress = index;
        Action { before, progress: Some(index), after, refresh_path: false, work }
    }

    /// Stops with `msg`.
    fn fail(&mut self, msg: String) -> (a: Action)
        ensures
            (final(self)@, a@) == failed(old(self)@, Seq::<Seq<char>>::empty(), msg@),
    {
        self.go(Phase::Failed, no_lines(), false, Work::Fail(msg))
    }

    /// Asks for a configuration write, logging it first.
    fn go_set(&mut self, phase: Phase, path: String, value: &str, strict: bool) -> (a: Action)
        ensures
            (final(self)@, a@) == config_set(old(self)@, phase, path@, value@, strict),
    {
        let line = set_line(path.as_str(), value);
        self.go(
            phase,
            one_line(line),
            false,
            Work::ConfigSet { path, value: owned(value), strict_json: strict },
        )
    }
}

/// The position of a phase in the order of the installation.
fn phase_rank(p: Phase) -> (r: u32)
    ensures
        r as nat == rank(p),
{
    match p {
        Phase::Diagnose => 0,
        Phase::GitProbe => 1,
        Phase::GitBrewLookup => 2,
        Phase::GitBrewInstall => 3,
        Phase::GitWingetCheck => 4,
        Phase::GitWingetInstall => 5,
        Phase::GitRecheck => 6,
        Phase::NodeProbe => 7,
        Phase::NpmProbe => 8,
        Phase::NodeBrewLookup => 9,
        Phase::NodeBrewInstall => 10,
        Phase::NodeWingetCheck => 11,
        Phase::NodeWingetUpgrade => 12,
        Phase::UpgradedNodeProbe => 13,
        Phase::UpgradedNpmProbe => 14,
        Phase::NodeWingetInstall => 15,
        Phase::NodeFinal => 16,
        Phase::NpmFinal => 17,
        Phase::NpmInstall => 18,
        Phase::NpmRetry => 19,
        Phase::Verify => 20,
        Phase::Resolve => 21,
        Phase::Admin => 22,
        Phase::Onboard => 23,
        Phase::GatewayReport => 24,
        Phase::ConfigModel => 25,
        Phase::ConfigApi => 26,
        Phase::ConfigModels => 27,
        Phase::ConfigContext => 28,
        Phase::ConfigMaxTokens => 29,
        Phase::Finished => 30,
        Phase::Failed => 31,
    }
}

impl InstallFlow {
    /// Takes in what came of the last piece of work and gives the next one.
    pub fn step(&mut self, event: Event) -> (a: Action)
        requires
            flow_ok(old(self)@),
            fits(old(self)@.phase, event@),
        ensures
            (final(self)@, a@) == next(old(self)@, event@),
            flow_ok(final(self)@),
    {
        proof {
            law_flow_stays_consistent(self@, event@);
        }
        match self.phase {
            Phase::Diagnose | Phase::GitProbe | Phase::GitBrewLookup | Phase::GitBrewInstall | Phase::GitWingetCheck | Phase::GitWingetInstall | Phase::GitRecheck => self.step_git(event),
            Phase::NodeProbe | Phase::UpgradedNodeProbe | Phase::NpmProbe | Phase::UpgradedNpmProbe | Phase::NodeBrewLookup | Phase::NodeBrewInstall | Phase::NodeWingetCheck | Phase::NodeWingetUpgrade | Phase::NodeWingetInstall | Phase::NodeFinal => self.step_node(event),
            Phase::NpmFinal | Phase::NpmInstall | Phase::NpmRetry | Phase::Verify => self.step_npm(event),
            Phase::Resolve | Phase::Admin | Phase::Onboard | Phase::GatewayReport => self.step_onboard(event),
            Phase::ConfigModel | Phase::ConfigApi | Phase::ConfigModels | Phase::ConfigContext | Phase::ConfigMaxTokens => self.step_config(event),
            Phase::Finished | Phase::Failed => Action {
                before: no_lines(),
                progress: None,
                after: no_lines(),
                refresh_path: false,
                work: Work::Finish,
            },
        }
    }

    /// One step of the installation, in the git part of it.
    fn step_git(&mut self, event: Event) -> (a: Action)
        requires
            flow_ok(old(self)@),
            fits(old(self)@.phase, event@),
            0 <= rank(old(self)@.phase) <= 6,
        ensures
            (final(self)@, a@) == next(old(self)@, event@),
    {
        match self.phase {
            Phase::Diagnose => self.go_staged(
                Phase::GitProbe,
                no_lines(),
                2,
                no_lines(),
                Work::Probe(Tool::Git),
            ),
            Phase::GitProbe => {
                let ok = match event {
                    Event::Probed(b) => b,
                    _ => false,
                };
                if ok {
                    self.go_staged(Phase::NodeProbe, no_lines(), 3, no_lines(), Work::Probe(Tool::Node))
                } else if self.platform == Platform::MacOs {
                    self.go(Phase::GitBrewLookup, no_lines(), false, Work::FindBrew)
                } else if self.platform == Platform::Windows {
                    self.go(Phase::GitWingetCheck, no_lines(), false, Work::Probe(Tool::Winget))
                } else {
                    self.go(Phase::GitRecheck, no_lines(), false, Work::Probe(Tool::Git))
                }
            },
            Phase::GitBrewLookup => {
                let found = match event {
                    Event::BrewFound(b) => b,
                    _ => false,
                };
                if found {
                    self.go(Phase::GitBrewInstall, no_lines(), false, Work::BrewInstall(Tool::Git))
                } else {
                    self.go(Phase::GitRecheck, no_lines(), false, Work::Probe(Tool::Git))
                }
            },
            Phase::GitBrewInstall => match event {
                Event::Ran(Err(m)) => self.fail(m),
                Event::Ran(Ok(_)) => self.go(
                    Phase::GitRecheck,
                    no_lines(),
                    false,
                    Work::Probe(Tool::Git),
                ),
                _ => self.fail(String::new()),
            },
            Phase::GitWingetCheck => {
                let ok = match event {
                    Event::Probed(b) => b,
                    _ => false,
                };
                if ok {
                    self.go(
                        Phase::GitWingetInstall,
                        one_line(owned("未检测到 Git，尝试通过 winget 安装 Git…")),
                        false,
                        Work::Winget(WingetJob::InstallGit),
                    )
                } else {
                    self.fail(
                        owned(
                            "未检测到 winget。请先安装 Microsoft App Installer（Windows 软件包管理器）后重试。",
                        ),
                    )
                }
            },
            Phase::GitWingetInstall => match event {
                Event::Ran(Err(m)) => self.fail(m),
                Event::Ran(Ok(c)) => {
                    if c != 0 {
                        self.fail(with_code("winget 安装 Git 失败（退出码 ", c, "）"))
                    } else {
                        self.go(Phase::GitRecheck, no_lines(), true, Work::Probe(Tool::Git))
                    }
                },
                _ => self.fail(String::new()),
            },
            Phase::GitRecheck => {
                let ok = match event {
                    Event::Probed(b) => b,
                    _ => false,
                };
                if ok {
                    self.go_staged(Phase::NodeProbe, no_lines(), 3, no_lines(), Work::Probe(Tool::Node))
                } else {
                    self.fail(
                        owned(
                            "未检测到 git。请先安装 git（推荐：Homebrew 安装 git，或安装 Xcode Command Line Tools）。",
                        ),
                    )
                }
            },
            _ => self.fail(String::new()),
        }
    }

    /// One step of the installation, in the node part of it.
    fn step_node(&mut self, event: Event) -> (a: Action)
        requires
            flow_ok(old(self)@),
            fits(old(self)@.phase, event@),
            7 <= rank(old(self)@.phase) <= 16,
        ensures
            (final(self)@, a@) == next(old(self)@, event@),
    {
        match self.phase {
            Phase::NodeProbe | Phase::UpgradedNodeProbe => {
                let major = match &event {
                    Event::NodeOutput(Some(out)) => crate::install::parse_node_major(out.as_str()),
                    _ => None,
                };
                self.node_major = major;
                let next_phase = if self.phase == Phase::NodeProbe {
                    Phase::NpmProbe
                } else {
                    Phase::UpgradedNpmProbe
                };
                self.go(next_phase, no_lines(), false, Work::Probe(Tool::Npm))
            },
            Phase::NpmProbe | Phase::UpgradedNpmProbe => {
                let npm_ok = match event {
                    Event::Probed(b) => b,
                    _ => false,
                };
                if crate::install::node_ready(self.node_major, npm_ok) {
                    self.go(Phase::NodeFinal, no_lines(), false, Work::Probe(Tool::Node))
                } else if self.phase == Phase::UpgradedNpmProbe {
                    self.go(
                        Phase::NodeWingetInstall,
                        no_lines(),
                        false,
                        Work::Winget(WingetJob::InstallNode),
                    )
                } else if self.platform == Platform::MacOs {
                    self.go(Phase::NodeBrewLookup, no_lines(), false, Work::FindBrew)
                } else if self.platform == Platform::Windows {
                    self.go(Phase::NodeWingetCheck, no_lines(), false, Work::Probe(Tool::Winget))
                } else {
                    self.fail(owned("未检测到可用 Node.js（需要 >= 22）。请先安装 Node.js 后重试。"))
                }
            },
            Phase::NodeBrewLookup => {
                let found = match event {
                    Event::BrewFound(b) => b,
                    _ => false,
                };
                if found {
                    self.go(Phase::NodeBrewInstall, no_lines(), false, Work::BrewInstall(Tool::Node))
                } else {
                    self.fail(
                        owned("未检测到 Node.js，且未检测到 brew。请先安装 Homebrew 或手动安装 Node.js。"),
                    )
                }
            },
            Phase::NodeBrewInstall => match event {
                Event::Ran(Err(m)) => self.fail(m),
                Event::Ran(Ok(_)) => self.go(
                    Phase::NodeFinal,
                    no_lines(),
                    false,
                    Work::Probe(Tool::Node),
                ),
                _ => self.fail(String::new()),
            },
            Phase::NodeWingetCheck => {
                let ok = match event {
                    Event::Probed(b) => b,
                    _ => false,
                };
                if ok {
                    self.go(
                        Phase::NodeWingetUpgrade,
                        one_line(owned("Node.js / npm 不满足要求，尝试通过 winget 修复…")),
                        false,
                        Work::Winget(WingetJob::UpgradeNode),
                    )
                } else {
                    self.fail(
                        owned(
                            "未检测到 winget。请先安装 Microsoft App Installer（Windows 软件包管理器）后重试。",
                        ),
                    )
                }
            },
            Phase::NodeWingetUpgrade => match event {
                Event::Ran(Err(m)) => self.fail(m),
                Event::Ran(Ok(c)) => {
                    let before = if c != 0 {
                        one_line(
                            with_code("[winget] upgrade 返回退出码 ", c, "，继续检查是否需要 install…"),
                        )
                    } else {
                        no_lines()
                    };
                    self.go(Phase::UpgradedNodeProbe, before, true, Work::Probe(Tool::Node))
                },
                _ => self.fail(String::new()),
            },
            Phase::NodeWingetInstall => match event {
                Event::Ran(Err(m)) => self.fail(m),
                Event::Ran(Ok(c)) => {
                    if c != 0 {
                        self.fail(with_code("winget 安装 Node.js 失败（退出码 ", c, "）"))
                    } else {
                        self.go(Phase::NodeFinal, no_lines(), true, Work::Probe(Tool::Node))
                    }
                },
                _ => self.fail(String::new()),
            },
            Phase::NodeFinal => {
                let out = match event {
                    Event::NodeOutput(o) => o,
                    _ => None,
                };
                match crate::install::check_node_version(&out) {
                    Err(m) => self.fail(m),
                    Ok(m) => {
                        self.node_major = Some(m);
                        self.go(Phase::NpmFinal, no_lines(), false, Work::Probe(Tool::Npm))
                    },
                }
            },
            _ => self.fail(String::new()),
        }
    }

    /// One step of the installation, in the npm part of it.
    fn step_npm(&mut self, event: Event) -> (a: Action)
        requires
            flow_ok(old(self)@),
            fits(old(self)@.phase, event@),
            17 <= rank(old(self)@.phase) <= 20,
        ensures
            (final(self)@, a@) == next(old(self)@, event@),
    {
        match self.phase {
            Phase::NpmFinal => {
                let ok = match event {
                    Event::Probed(b) => b,
                    _ => false,
                };
                if ok {
                    self.node_ok = true;
                    let windows = self.platform == Platform::Windows;
                    let (rewrite, _env) = crate::install::github_git_rewrite(&self.mirror);
                    let notes = if windows {
                        two_lines(
                            owned(
                                "[npm] NODE_LLAMA_CPP_SKIP_DOWNLOAD=1（跳过 node-llama-cpp 安装期下载/编译，提升 Windows 安装成功率）",
                            ),
                            rewrite,
                        )
                    } else {
                        one_line(rewrite)
                    };
                    let args = crate::install::npm_install_arguments(
                        self.package.as_str(),
                        self.registry.as_str(),
                    );
                    let mirror = crate::task::clone_opt(&self.mirror);
                    let after = one_line(concat2("[npm] registry: ", self.registry.as_str()));
                    self.go_staged(
                        Phase::NpmInstall,
                        no_lines(),
                        4,
                        after,
                        Work::NpmInstall { args, mirror, skip_llama_build: windows, notes },
                    )
                } else {
                    self.fail(owned("未检测到 npm。请确认 Node.js 安装完整，或重新安装 Node.js 后重试。"))
                }
            },
            Phase::NpmInstall | Phase::NpmRetry => match event {
                Event::NpmRan(Err(m)) => self.fail(m),
                Event::NpmRan(Ok((c, out))) => {
                    if c == 0 {
                        self.go_staged(Phase::Verify, no_lines(), 5, no_lines(), Work::Verify)
                    } else if self.phase == Phase::NpmInstall
                        && crate::install::should_retry_with_default_mirror(
                        out.as_str(),
                        &self.mirror,
                        self.mirror_disabled,
                    ) {
                        self.mirror = Some(owned("https://gitclone.com/github.com/"));
                        let (rewrite, _env) = crate::install::github_git_rewrite(&self.mirror);
                        let args = crate::install::npm_install_arguments(
                            self.package.as_str(),
                            self.registry.as_str(),
                        );
                        let mirror = crate::task::clone_opt(&self.mirror);
                        self.go(
                            Phase::NpmRetry,
                            one_line(
                                owned(
                                    "[warn] 检测到 GitHub 连接失败，尝试启用 GitHub 镜像：https://gitclone.com/github.com/（仅本次安装生效）",
                                ),
                            ),
                            false,
                            Work::NpmInstall {
                                args,
                                mirror,
                                skip_llama_build: false,
                                notes: one_line(rewrite),
                            },
                        )
                    } else {
                        self.fail(owned("npm install -g 失败，请查看日志。"))
                    }
                },
                _ => self.fail(owned("npm install -g 失败，请查看日志。")),
            },
            Phase::Verify => match event {
                Event::Checked { installed, version, error } => {
                    if installed {
                        let shown = match version {
                            Some(v) => v,
                            None => owned("unknown"),
                        };
                        let line = concat2("openclaw --version => ", shown.as_str());
                        if self.needs_onboard {
                            self.go_staged(Phase::Resolve, one_line(line), 6, no_lines(), Work::Resolve)
                        } else {
                            self.go(
                                Phase::Finished,
                                two_lines(line, owned("跳过自动配置：未提供 CUSTOM_API_KEY。")),
                                false,
                                Work::Finish,
                            )
                        }
                    } else {
                        let detail = match error {
                            Some(m) => m,
                            None => owned("unknown"),
                        };
                        self.fail(concat2("openclaw 安装完成，但无法执行 openclaw：", detail.as_str()))
                    }
                },
                _ => self.fail(String::new()),
            },
            _ => self.fail(String::new()),
        }
    }

    /// One step of the installation, in the onboard part of it.
    fn step_onboard(&mut self, event: Event) -> (a: Action)
        requires
            flow_ok(old(self)@),
            fits(old(self)@.phase, event@),
            21 <= rank(old(self)@.phase) <= 24,
        ensures
            (final(self)@, a@) == next(old(self)@, event@),
    {
        match self.phase {
            Phase::Resolve => match event {
                Event::Resolved(true) => {
                    if self.platform == Platform::Windows {
                        self.go(Phase::Admin, no_lines(), false, Work::CheckAdmin)
                    } else {
                        self.go(
                            Phase::Onboard,
                            no_lines(),
                            false,
                            Work::Onboard { install_daemon: true },
                        )
                    }
                },
                _ => self.fail(owned("未检测到 openclaw，请先完成安装。")),
            },
            Phase::Admin => match event {
                Event::IsAdmin(true) => self.go(
                    Phase::Onboard,
                    no_lines(),
                    false,
                    Work::Onboard { install_daemon: true },
                ),
                _ => self.go(
                    Phase::Onboard,
                    one_line(
                        owned(
                            "[tip] Windows 上安装网关服务需要管理员权限；当前未以管理员运行，已跳过 daemon 安装。稍后可在“网关服务 → 启动”触发安装。",
                        ),
                    ),
                    false,
                    Work::Onboard { install_daemon: false },
                ),
            },
            Phase::Onboard => match event {
                Event::Ran(Err(m)) => self.fail(m),
                Event::Ran(Ok(c)) => {
                    if c != 0 {
                        self.fail_code = c;
                        self.go(
                            Phase::GatewayReport,
                            one_line(owned("[openclaw] onboard 失败，尝试输出 gateway status 以便排查…")),
                            false,
                            Work::GatewayReport,
                        )
                    } else {
                        self.go_staged(
                            Phase::ConfigModel,
                            no_lines(),
                            7,
                            one_line(owned("[config] 设置 api=openai-responses…")),
                            Work::ConfigGet { path: owned("agents.defaults.model") },
                        )
                    }
                },
                _ => self.fail(String::new()),
            },
            Phase::GatewayReport => {
                let m = with_code("openclaw onboard 失败（退出码 ", self.fail_code, "）");
                self.fail(m)
            },
            _ => self.fail(String::new()),
        }
    }

    /// One step of the installation, in the config part of it.
    fn step_config(&mut self, event: Event) -> (a: Action)
        requires
            flow_ok(old(self)@),
            fits(old(self)@.phase, event@),
            25 <= rank(old(self)@.phase) <= 29,
        ensures
            (final(self)@, a@) == next(old(self)@, event@),
    {
        match self.phase {
            Phase::ConfigModel => match event {
                Event::Json(Ok(v)) => match crate::config::parse_primary_model_ref_from_config_value(
                    &v,
                ) {
                    None => self.fail(owned("无法从 agents.defaults.model 推断 provider/model id")),
                    Some((p, m)) => {
                        let path = crate::config::provider_setting_path(p.as_str(), "api");
                        let mut before = two_lines(
                            concat2("[config] provider: ", p.as_str()),
                            concat2("[config] model: ", m.as_str()),
                        );
                        let line = set_line(path.as_str(), "openai-responses");
                        let ghost third = line@;
                        push_owned(&mut before, line);
                        assert(views(before@) =~= seq![
                            "[config] provider: "@ + p@,
                            "[config] model: "@ + m@,
                            third,
                        ]);
                        self.provider = p;
                        self.model = m;
                        self.go(
                            Phase::ConfigApi,
                            before,
                            false,
                            Work::ConfigSet {
                                path,
                                value: owned("openai-responses"),
                                strict_json: false,
                            },
                        )
                    },
                },
                Event::Json(Err(m)) => self.fail(m),
                _ => self.fail(String::new()),
            },
            Phase::ConfigApi => match event {
                Event::Written(Ok(_)) => {
                    let path = crate::config::provider_setting_path(self.provider.as_str(), "models");
                    self.go(Phase::ConfigModels, no_lines(), false, Work::ConfigGet { path })
                },
                Event::Written(Err(m)) => self.fail(m),
                _ => self.fail(String::new()),
            },
            Phase::ConfigModels => match event {
                Event::Json(Ok(v)) => {
                    let list_path = crate::config::provider_setting_path(
                        self.provider.as_str(),
                        "models",
                    );
                    match crate::config::find_model_index(&v, self.model.as_str(), list_path.as_str()) {
                        Err(m) => self.fail(m),
                        Ok(i) => {
                            self.model_index = i as u64;
                            let path = crate::config::model_setting_path(
                                self.provider.as_str(),
                                i as u64,
                                "contextWindow",
                            );
                            self.go_set(Phase::ConfigContext, path, "320000", true)
                        },
                    }
                },
                Event::Json(Err(m)) => self.fail(m),
                _ => self.fail(String::new()),
            },
            Phase::ConfigContext => match event {
                Event::Written(Ok(_)) => {
                    let path = crate::config::model_setting_path(
                        self.provider.as_str(),
                        self.model_index,
                        "maxTokens",
                    );
                    self.go_set(Phase::ConfigMaxTokens, path, "81920", true)
                },
                Event::Written(Err(m)) => self.fail(m),
                _ => self.fail(String::new()),
            },
            Phase::ConfigMaxTokens => match event {
                Event::Written(Ok(_)) => self.go(
                    Phase::Finished,
                    two_lines(
                        owned("[config] ok"),
                        owned("安装完成：未自动重启网关服务，你可以稍后手动启动。"),
                    ),
                    false,
                    Work::Finish,
                ),
                Event::Written(Err(m)) => self.fail(m),
                _ => self.fail(String::new()),
            },
            _ => self.fail(String::new()),
        }
    }
}

/// Every step moves the installation to a later phase, so it ends after at
/// most 31 steps, and nothing is done twice but the one npm retry.
pub proof fn law_steps_move_forward(s: FlowView, e: EventView)
    requires
        flow_ok(s),
        fits(s.phase, e),
    ensures
        rank(next(s, e).0.phase) > rank(s.phase),
{
}

/// The installer's state stays consistent across every step.
pub proof fn law_flow_stays_consistent(s: FlowView, e: EventView)
    requires
        flow_ok(s),
        fits(s.phase, e),
    ensures
        flow_ok(next(s, e).0),
{
}

/// Progress only moves forward: a step shows a higher step number than any
/// shown before, never beyond the step count.
pub proof fn law_progress_only_advances(s: FlowView, e: EventView)
    requires
        flow_ok(s),
        fits(s.phase, e),
    ensures
        next(s, e).0.progress >= s.progress,
        next(s, e).0.progress <= next(s, e).0.total,
        next(s, e).1.progress matches Some(i) ==> i == next(s, e).0.progress && i > s.progress,
        next(s, e).1.progress is None ==> next(s, e).0.progress == s.progress,
{
}

/// `npm install -g` is asked for only once Node.js 22 or later and npm
/// passed the final check.
pub proof fn law_npm_install_needs_node(s: FlowView, e: EventView)
    requires
        flow_ok(s),
        fits(s.phase, e),
        next(s, e).1.work is NpmInstall,
    ensures
        next(s, e).0.node_ok,
        next(s, e).0.node_major matches Some(m) && m >= 22,
{
}

/// The npm install is retried at most once, through the default mirror, and
/// only when no mirror was chosen or switched off.
pub proof fn law_single_mirror_retry(s: FlowView, e: EventView)
    requires
        flow_ok(s),
        fits(s.phase, e),
        next(s, e).1.work is NpmInstall,
        s.phase != Phase::NpmFinal,
    ensures
        s.phase == Phase::NpmInstall,
        s.mirror is None,
        !s.mirror_disabled,
        next(s, e).0.mirror == Some(default_mirror()),
        next(s, e).0.phase == Phase::NpmRetry,
{
}

/// A failure or the end of the installation is final: the flow then waits
/// for nothing more.
pub proof fn law_end_is_final(s: FlowView, e: EventView, later: EventView)
    requires
        flow_ok(s),
        fits(s.phase, e),
        next(s, e).1.work is Fail || next(s, e).1.work is Finish,
    ensures
        next(s, e).0.phase == Phase::Failed || next(s, e).0.phase == Phase::Finished,
        !fits(next(s, e).0.phase, later),
{
}

/// A successful `npm install -g` (exit code 0), first try or retry through
/// the mirror alike, never fails the installation: it goes on to checking
/// the command at progress step 5.
pub proof fn law_npm_success_goes_on(s: FlowView, out: Seq<char>)
    requires
        s.phase == Phase::NpmInstall || s.phase == Phase::NpmRetry,
    ensures
        next(s, EventView::NpmRan(Ok((0i32, out)))).0.phase == Phase::Verify,
        next(s, EventView::NpmRan(Ok((0i32, out)))).0.progress == 5,
        next(s, EventView::NpmRan(Ok((0i32, out)))).1.work == WorkView::Verify,
        next(s, EventView::NpmRan(Ok((0i32, out)))).1.progress == Some(5u32),
{
}

/// An `npm install -g` that exits with an error fails the installation,
/// unless it is the first try, GitHub could not be reached and no mirror was
/// chosen or switched off (then the one retry through the mirror follows).
pub proof fn law_npm_failure_fails(s: FlowView, code: i32, out: Seq<char>)
    requires
        s.phase == Phase::NpmInstall || s.phase == Phase::NpmRetry,
        code != 0,
        !(s.phase == Phase::NpmInstall && github_unreachable(out) && s.mirror is None
            && !s.mirror_disabled),
    ensures
        next(s, EventView::NpmRan(Ok((code, out)))).0.phase == Phase::Failed,
        next(s, EventView::NpmRan(Ok((code, out)))).1.work is Fail,
{
}

/// Onboarding runs only when an API key was given, and without the daemon
/// only on Windows without administrator rights.
pub proof fn law_onboard_only_with_key(s: FlowView, e: EventView)
    requires
        flow_ok(s),
        fits(s.phase, e),
        next(s, e).1.work is Onboard,
    ensures
        s.needs_onboard,
        next(s, e).1.work matches WorkView::Onboard { install_daemon } && (!install_daemon ==> (
        s.platform == Platform::Windows && e == EventView::IsAdmin(false))),
{
}

/// The stage name and title shown with each progress step.
pub open spec fn progress_label(index: u32) -> (Seq<char>, Seq<char>) {
    if index == 1 {
        ("prepare"@, "准备环境…"@)
    } else if index == 2 {
        ("git"@, "检测 Git…"@)
    } else if index == 3 {
        ("node"@, "检测 Node.js…"@)
    } else if index == 4 {
        ("openclaw"@, "全局安装 openclaw…"@)
    } else if index == 5 {
        ("verify"@, "验证 openclaw 命令…"@)
    } else if index == 6 {
        ("onboard"@, "自动配置 openclaw…"@)
    } else if index == 7 {
        ("config"@, "写入 openai-responses 配置…"@)
    } else {
        ("done"@, "完成"@)
    }
}

/// The stage name and title of a progress step (`done` past the seventh).
pub fn progress_labels(index: u32) -> (r: (String, String))
    ensures
        (r.0@, r.1@) == progress_label(index),
{
    if index == 1 {
        (owned("prepare"), owned("准备环境…"))
    } else if index == 2 {
        (owned("git"), owned("检测 Git…"))
    } else if index == 3 {
        (owned("node"), owned("检测 Node.js…"))
    } else if index == 4 {
        (owned("openclaw"), owned("全局安装 openclaw…"))
    } else if index == 5 {
        (owned("verify"), owned("验证 openclaw 命令…"))
    } else if index == 6 {
        (owned("onboard"), owned("自动配置 openclaw…"))
    } else if index == 7 {
        (owned("config"), owned("写入 openai-responses 配置…"))
    } else {
        (owned("done"), owned("完成"))
    }
}

/// The last progress event of an installation of `total` steps: stage
/// `done`, title `完成`, at step `total` of `total`.
pub fn done_progress(total: u32) -> (r: (String, String, u32, u32))
    ensures
        r.0@ == "done"@,
        r.1@ == "完成"@,
        r.2 == total,
        r.3 == total,
{
    (owned("done"), owned("完成"), total, total)
}

/// The command line of a probe: `git --version`, `node -v`, `npm -v`,
/// `winget --version`.
pub fn probe_command(tool: Tool) -> (r: (String, Vec<String>))
    ensures
        (r.0@, views(r.1@)) == match tool {
            Tool::Git => ("git"@, seq!["--version"@]),
            Tool::Node => ("node"@, seq!["-v"@]),
            Tool::Npm => ("npm"@, seq!["-v"@]),
            Tool::Winget => ("winget"@, seq!["--version"@]),
        },
{
    let mut args: Vec<String> = Vec::new();
    let program = match tool {
        Tool::Git => {
            push_text(&mut args, "--version");
            owned("git")
        },
        Tool::Node => {
            push_text(&mut args, "-v");
            owned("node")
        },
        Tool::Npm => {
            push_text(&mut args, "-v");
            owned("npm")
        },
        Tool::Winget => {
            push_text(&mut args, "--version");
            owned("winget")
        },
    };
    proof {
        assert(views(args@) =~= match tool {
            Tool::Git => seq!["--version"@],
            Tool::Node => seq!["-v"@],
            Tool::Npm => seq!["-v"@],
            Tool::Winget => seq!["--version"@],
        });
    }
    (program, args)
}

/// The arguments of `brew install git` or `brew install node`.
pub fn brew_install_args(tool: Tool) -> (r: Vec<String>)
    requires
        tool == Tool::Git || tool == Tool::Node,
    ensures
        views(r@) == seq!["install"@, if tool == Tool::Git {
            "git"@
        } else {
            "node"@
        }],
{
    let mut v: Vec<String> = Vec::new();
    push_text(&mut v, "install");
    if tool == Tool::Git {
        push_text(&mut v, "git");
    } else {
        push_text(&mut v, "node");
    }
    assert(views(v@) =~= seq!["install"@, if tool == Tool::Git {
        "git"@
    } else {
        "node"@
    }]);
    v
}

/// The arguments of a `winget` run: install Git, or upgrade or install the
/// Node.js LTS, exact id, agreements accepted.
pub fn winget_args(job: WingetJob) -> (r: Vec<String>)
    ensures
        views(r@) == seq![
            if job == WingetJob::UpgradeNode {
                "upgrade"@
            } else {
                "install"@
            },
            "-e"@,
            "--id"@,
            if job == WingetJob::InstallGit {
                "Git.Git"@
            } else {
                "OpenJS.NodeJS.LTS"@
            },
            "--accept-package-agreements"@,
            "--accept-source-agreements"@,
        ],
{
    let mut v: Vec<String> = Vec::new();
    if job == WingetJob::UpgradeNode {
        push_text(&mut v, "upgrade");
    } else {
        push_text(&mut v, "install");
    }
    push_text(&mut v, "-e");
    push_text(&mut v, "--id");
    if job == WingetJob::InstallGit {
        push_text(&mut v, "Git.Git");
    } else {
        push_text(&mut v, "OpenJS.NodeJS.LTS");
    }
    push_text(&mut v, "--accept-package-agreements");
    push_text(&mut v, "--accept-source-agreements");
    assert(views(v@) =~= seq![
        if job == WingetJob::UpgradeNode {
            "upgrade"@
        } else {
            "install"@
        },
        "-e"@,
        "--id"@,
        if job == WingetJob::InstallGit {
            "Git.Git"@
        } else {
            "OpenJS.NodeJS.LTS"@
        },
        "--accept-package-agreements"@,
        "--accept-source-agreements"@,
    ]);
    v
}

} // verus!
