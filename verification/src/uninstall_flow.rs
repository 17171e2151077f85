//! Removing OpenClaw as a state machine: its own uninstaller, then every
//! package manager in turn (a failure there is logged and passed over), the
//! nvm copies, the state directory, and a final look for the command.
use vstd::prelude::*;
use crate::install_flow::{no_lines, one_line, two_lines, with_code};
use crate::platform::Platform;
use crate::task::{opt_view, owned};
use crate::text::{concat2, concat3, decimal, int_text, push_owned, push_text, views};

verus! {

broadcast use vstd::string::group_string_axioms;

/// One best-effort removal: `program args`, logged under `label`, with a
/// line to log first.
pub struct CleanupStep {
    pub label: String,
    pub program: String,
    pub args: Vec<String>,
    pub note: Option<String>,
}

/// Abstract view of a `CleanupStep`.
pub struct StepView {
    pub label: Seq<char>,
    pub program: Seq<char>,
    pub args: Seq<Seq<char>>,
    pub note: Option<Seq<char>>,
}

impl View for CleanupStep {
    type V = StepView;

    open spec fn view(&self) -> StepView {
        StepView {
            label: self.label@,
            program: self.program@,
            args: views(self.args@),
            note: opt_view(self.note),
        }
    }
}

/// Abstract view of a list of removals.
pub open spec fn step_views(v: Seq<CleanupStep>) -> Seq<StepView> {
    v.map_values(|c: CleanupStep| c@)
}

/// The removals tried, in order: Homebrew's three usual places on macOS,
/// then npm (on Windows the `npm.cmd` next to the `openclaw` shim when there
/// is one), then pnpm.
pub open spec fn cleanup_plan(platform: Platform, npm_next_to_openclaw: Option<Seq<char>>) -> Seq<
    StepView,
> {
    let brew_args = seq!["uninstall"@, "openclaw"@];
    let brews = if platform == Platform::MacOs {
        seq![
            StepView { label: "[brew]"@, program: "/opt/homebrew/bin/brew"@, args: brew_args, note: None },
            StepView { label: "[brew]"@, program: "/usr/local/bin/brew"@, args: brew_args, note: None },
            StepView { label: "[brew]"@, program: "brew"@, args: brew_args, note: None },
        ]
    } else {
        Seq::<StepView>::empty()
    };
    let npm = match npm_next_to_openclaw {
        Some(p) => if platform == Platform::Windows {
            StepView {
                label: "[npm]"@,
                program: p,
                args: seq!["uninstall"@, "-g"@, "openclaw"@],
                note: Some("[cleanup] using npm: "@ + p),
            }
        } else {
            StepView {
                label: "[npm]"@,
                program: "npm"@,
                args: seq!["uninstall"@, "-g"@, "openclaw"@],
                note: None,
            }
        },
        None => StepView {
            label: "[npm]"@,
            program: "npm"@,
            args: seq!["uninstall"@, "-g"@, "openclaw"@],
            note: None,
        },
    };
    brews + seq![
        npm,
        StepView {
            label: "[pnpm]"@,
            program: "pnpm"@,
            args: seq!["remove"@, "-g"@, "openclaw"@],
            note: None,
        },
    ]
}

/// How a best-effort removal went: it could not be set up, or it ran (with
/// its exit code) or failed to run.
pub enum CleanupOutcome {
    Skipped(String),
    Ran(Result<i32, String>),
}

/// How the removal of the state directory went.
pub enum StateDirOutcome {
    Absent,
    Removed(String),
    Failed(String, String),
}

/// What the application does next: log `logs`, then do `work`.
pub enum UninstallWork {
    /// `openclaw uninstall --service --state --workspace --yes --non-interactive`.
    OpenclawUninstall,
    /// A best-effort removal.
    Cleanup(CleanupStep),
    /// Remove the nvm copies and report them.
    NvmCleanup,
    /// Remove `~/.openclaw`.
    RemoveStateDir,
    /// Look for the `openclaw` command.
    Resolve,
    /// Remove the Windows shims next to the command that is still found.
    WindowsShims,
    /// Look for the `openclaw` command once more.
    ResolveAgain,
    /// The command is gone.
    Finish,
    /// The removal failed with this message.
    Fail(String),
}

/// Abstract view of an `UninstallWork`.
pub enum UWorkView {
    OpenclawUninstall,
    Cleanup(StepView),
    NvmCleanup,
    RemoveStateDir,
    Resolve,
    WindowsShims,
    ResolveAgain,
    Finish,
    Fail(Seq<char>),
}

impl View for UninstallWork {
    type V = UWorkView;

    open spec fn view(&self) -> UWorkView {
        match self {
            UninstallWork::OpenclawUninstall => UWorkView::OpenclawUninstall,
            UninstallWork::Cleanup(c) => UWorkView::Cleanup(c@),
            UninstallWork::NvmCleanup => UWorkView::NvmCleanup,
            UninstallWork::RemoveStateDir => UWorkView::RemoveStateDir,
            UninstallWork::Resolve => UWorkView::Resolve,
            UninstallWork::WindowsShims => UWorkView::WindowsShims,
            UninstallWork::ResolveAgain => UWorkView::ResolveAgain,
            UninstallWork::Finish => UWorkView::Finish,
            UninstallWork::Fail(m) => UWorkView::Fail(m@),
        }
    }
}

/// Lines to log, then the next piece of work.
pub struct UninstallAction {
    pub logs: Vec<String>,
    pub work: UninstallWork,
}

/// Abstract view of an `UninstallAction`.
pub struct UActionView {
    pub logs: Seq<Seq<char>>,
    pub work: UWorkView,
}

impl View for UninstallAction {
    type V = UActionView;

    open spec fn view(&self) -> UActionView {
        UActionView { logs: views(self.logs@), work: self.work@ }
    }
}

/// What came of the last piece of work.
pub enum UninstallEvent {
    /// The exit code of `openclaw uninstall`, or why it could not run.
    Ran(Result<i32, String>),
    /// How a best-effort removal went.
    Cleaned(CleanupOutcome),
    /// The nvm items removed.
    NvmRemoved(Vec<String>),
    /// How the removal of the state directory went.
    StateDir(StateDirOutcome),
    /// The command found, with where it was found, or `None`.
    Found(Option<(String, String)>),
    /// The shims were handled.
    Done,
}

/// Abstract view of an `UninstallEvent`.
pub enum UEventView {
    Ran(Result<i32, Seq<char>>),
    Skipped(Seq<char>),
    CleanRan(Result<i32, Seq<char>>),
    NvmRemoved(Seq<Seq<char>>),
    DirAbsent,
    DirRemoved(Seq<char>),
    DirFailed(Seq<char>, Seq<char>),
    Found(Option<(Seq<char>, Seq<char>)>),
    Done,
}

impl View for UninstallEvent {
    type V = UEventView;

    open spec fn view(&self) -> UEventView {
        match self {
            UninstallEvent::Ran(r) => UEventView::Ran(
                match r {
                    Ok(c) => Ok(*c),
                    Err(e) => Err(e@),
                },
            ),
            UninstallEvent::Cleaned(CleanupOutcome::Skipped(e)) => UEventView::Skipped(e@),
            UninstallEvent::Cleaned(CleanupOutcome::Ran(r)) => UEventView::CleanRan(
                match r {
                    Ok(c) => Ok(*c),
                    Err(e) => Err(e@),
                },
            ),
            UninstallEvent::NvmRemoved(v) => UEventView::NvmRemoved(views(v@)),
            UninstallEvent::StateDir(StateDirOutcome::Absent) => UEventView::DirAbsent,
            UninstallEvent::StateDir(StateDirOutcome::Removed(p)) => UEventView::DirRemoved(p@),
            UninstallEvent::StateDir(StateDirOutcome::Failed(p, e)) => UEventView::DirFailed(
                p@,
                e@,
            ),
            UninstallEvent::Found(f) => UEventView::Found(
                match f {
                    Some((c, s)) => Some((c@, s@)),
                    None => None,
                },
            ),
            UninstallEvent::Done => UEventView::Done,
        }
    }
}

/// What the removal waits for.
#[derive(PartialEq, Eq, Structural, Clone, Copy, Debug)]
pub enum UninstallPhase {
    OpenclawUninstall,
    Cleanup,
    NvmCleanup,
    StateDir,
    Resolve,
    Shims,
    ResolveAgain,
    Finished,
    Failed,
}

/// The removal's state between two pieces of work.
pub struct UninstallFlow {
    platform: Platform,
    phase: UninstallPhase,
    steps: Vec<CleanupStep>,
    next_step: usize,
}

/// Abstract view of an `UninstallFlow`.
pub struct UFlowView {
    pub platform: Platform,
    pub phase: UninstallPhase,
    pub steps: Seq<StepView>,
    pub next_step: nat,
}

impl View for UninstallFlow {
    type V = UFlowView;

    closed spec fn view(&self) -> UFlowView {
        UFlowView {
            platform: self.platform,
            phase: self.phase,
            steps: step_views(self.steps@),
            next_step: self.next_step as nat,
        }
    }
}

/// Where a phase stands in the order of the removal.
pub open spec fn urank(p: UninstallPhase) -> nat {
    match p {
        UninstallPhase::OpenclawUninstall => 0,
        UninstallPhase::Cleanup => 1,
        UninstallPhase::NvmCleanup => 2,
        UninstallPhase::StateDir => 3,
        UninstallPhase::Resolve => 4,
        UninstallPhase::Shims => 5,
        UninstallPhase::ResolveAgain => 6,
        UninstallPhase::Finished => 7,
        UninstallPhase::Failed => 8,
    }
}

/// The removal's state is consistent: while removals are under way, the
/// last one asked for is in the plan, and the shims are handled only on
/// Windows.
pub open spec fn uflow_ok(s: UFlowView) -> bool {
    &&& s.phase == UninstallPhase::Cleanup ==> 1 <= s.next_step <= s.steps.len()
    &&& s.next_step <= s.steps.len()
    &&& s.steps.len() >= 1
    &&& s.phase == UninstallPhase::Shims ==> s.platform == Platform::Windows
}

/// The events each phase waits for.
pub open spec fn ufits(p: UninstallPhase, e: UEventView) -> bool {
    match p {
        UninstallPhase::OpenclawUninstall => e is Ran,
        UninstallPhase::Cleanup => e is Skipped || e is CleanRan,
        UninstallPhase::NvmCleanup => e is NvmRemoved,
        UninstallPhase::StateDir => e is DirAbsent || e is DirRemoved || e is DirFailed,
        UninstallPhase::Resolve | UninstallPhase::ResolveAgain => e is Found,
        UninstallPhase::Shims => e is Done,
        UninstallPhase::Finished | UninstallPhase::Failed => false,
    }
}

/// The line announcing the removals.
pub open spec fn removing_line() -> Seq<char> {
    "正在尝试移除 openclaw CLI（brew / npm / pnpm / nvm；Windows: nvm-windows / npm shim）…"@
}

/// The line of a successful removal.
pub open spec fn gone_line() -> Seq<char> {
    "卸载完成：已找不到 openclaw 命令。"@
}

/// The error when the command is still found after everything was tried.
pub open spec fn still_found_message(command: Seq<char>, source: Seq<char>) -> Seq<char> {
    "已执行卸载，但系统中仍能找到 openclaw："@ + command + "（"@ + source
        + "）。\n可能原因：权限不足/多个 Node 环境。\n建议：在终端运行 `npm uninstall -g openclaw`（必要时以管理员权限），然后重启终端再试。"@
}

/// What is logged of a best-effort removal.
pub open spec fn cleanup_report(label: Seq<char>, e: UEventView) -> Seq<Seq<char>> {
    match e {
        UEventView::Skipped(err) => seq!["[cleanup] "@ + label + " skipped: "@ + err],
        UEventView::CleanRan(Ok(c)) => if c != 0 {
            seq!["[cleanup] "@ + label + " exited with code "@ + int_text(c as int) + " (ignored)"@]
        } else {
            seq![]
        },
        UEventView::CleanRan(Err(err)) => seq!["[cleanup] "@ + label + " failed (ignored): "@ + err],
        _ => seq![],
    }
}

/// What is logged of the nvm cleanup.
pub open spec fn nvm_report(items: Seq<Seq<char>>) -> Seq<Seq<char>> {
    if items.len() == 0 {
        seq![]
    } else {
        seq!["[cleanup] nvm: removed "@ + decimal(items.len()) + " item(s)"@] + items.map_values(
            |i: Seq<char>| "[cleanup] nvm: "@ + i,
        )
    }
}

/// What is logged of the removal of the state directory.
pub open spec fn state_dir_report(e: UEventView) -> Seq<Seq<char>> {
    match e {
        UEventView::DirRemoved(p) => seq!["[cleanup] removed: "@ + p],
        UEventView::DirFailed(p, err) => seq!["[cleanup] failed to remove "@ + p + ": "@ + err],
        _ => seq![],
    }
}

/// Moves to `phase`, logging `logs` before `work`.
pub open spec fn ugo(s: UFlowView, phase: UninstallPhase, logs: Seq<Seq<char>>, work: UWorkView) -> (
    UFlowView,
    UActionView,
) {
    (UFlowView { phase, ..s }, UActionView { logs, work })
}

/// Asks for the removal at position `i` of the plan.
pub open spec fn ucleanup(s: UFlowView, i: nat, logs: Seq<Seq<char>>) -> (UFlowView, UActionView) {
    (
        UFlowView { phase: UninstallPhase::Cleanup, next_step: i + 1, ..s },
        UActionView { logs, work: UWorkView::Cleanup(s.steps[i as int]) },
    )
}

/// The first action of the removal.
pub open spec fn ustart_spec(
    platform: Platform,
    resolved: Option<(Seq<char>, Seq<char>)>,
    npm_next_to_openclaw: Option<Seq<char>>,
) -> (UFlowView, UActionView) {
    let s = UFlowView {
        platform,
        phase: UninstallPhase::OpenclawUninstall,
        steps: cleanup_plan(platform, npm_next_to_openclaw),
        next_step: 0,
    };
    match resolved {
        Some((c, src)) => ugo(
            s,
            UninstallPhase::OpenclawUninstall,
            seq![
                "[uninstall] start"@,
                "[uninstall] openclaw resolved: "@ + c + " ("@ + src + ")"@,
                "openclaw uninstall --service --state --workspace --yes --non-interactive"@,
            ],
            UWorkView::OpenclawUninstall,
        ),
        None => ucleanup(
            s,
            0,
            seq![
                "[uninstall] start"@,
                "[warn] 未检测到 openclaw 命令，跳过 openclaw uninstall，直接尝试清理…"@,
                removing_line(),
            ],
        ),
    }
}

/// The removal's next state and action after event `e`.
pub open spec fn unext(s: UFlowView, e: UEventView) -> (UFlowView, UActionView) {
    match s.phase {
        UninstallPhase::OpenclawUninstall => match e {
            UEventView::Ran(Err(m)) => ugo(s, UninstallPhase::Failed, seq![], UWorkView::Fail(m)),
            UEventView::Ran(Ok(c)) => ucleanup(
                s,
                0,
                if c != 0 {
                    seq![
                        "[warn] openclaw uninstall 失败（退出码 "@ + int_text(c as int)
                            + "），将继续尝试通过 npm/pnpm 等方式清理…"@,
                        removing_line(),
                    ]
                } else {
                    seq![removing_line()]
                },
            ),
            _ => ugo(s, UninstallPhase::Failed, seq![], UWorkView::Fail(Seq::<char>::empty())),
        },
        UninstallPhase::Cleanup => {
            let logs = cleanup_report(s.steps[s.next_step - 1].label, e);
            if s.next_step < s.steps.len() {
                ucleanup(s, s.next_step, logs)
            } else {
                ugo(s, UninstallPhase::NvmCleanup, logs, UWorkView::NvmCleanup)
            }
        },
        UninstallPhase::NvmCleanup => match e {
            UEventView::NvmRemoved(items) => ugo(
                s,
                UninstallPhase::StateDir,
                nvm_report(items),
                UWorkView::RemoveStateDir,
            ),
            _ => ugo(s, UninstallPhase::StateDir, seq![], UWorkView::RemoveStateDir),
        },
        UninstallPhase::StateDir => ugo(
            s,
            UninstallPhase::Resolve,
            state_dir_report(e),
            UWorkView::Resolve,
        ),
        UninstallPhase::Resolve => match e {
            UEventView::Found(Some((c, src))) => {
                let line = "[cleanup] openclaw 仍存在："@ + c + " ("@ + src + ")"@;
                if s.platform == Platform::Windows {
                    ugo(s, UninstallPhase::Shims, seq![line], UWorkView::WindowsShims)
                } else {
                    ugo(s, UninstallPhase::ResolveAgain, seq![line], UWorkView::ResolveAgain)
                }
            },
            _ => ugo(s, UninstallPhase::Finished, seq![gone_line()], UWorkView::Finish),
        },
        UninstallPhase::Shims => ugo(s, UninstallPhase::ResolveAgain, seq![], UWorkView::ResolveAgain),
        UninstallPhase::ResolveAgain => match e {
            UEventView::Found(Some((c, src))) => ugo(
                s,
                UninstallPhase::Failed,
                seq![],
                UWorkView::Fail(still_found_message(c, src)),
            ),
            _ => ugo(s, UninstallPhase::Finished, seq![gone_line()], UWorkView::Finish),
        },
        UninstallPhase::Finished | UninstallPhase::Failed => (s, UActionView {
            logs: seq![],
            work: UWorkView::Finish,
        }),
    }
}

/// A removal step.
fn make_step(label: &str, program: &str, args: Vec<String>, note: Option<String>) -> (r: CleanupStep)
    ensures
        r@ == (StepView { label: label@, program: program@, args: views(args@), note: opt_view(note) }),
{
    CleanupStep { label: owned(label), program: owned(program), args, note }
}

/// Two words.
fn two_words(a: &str, b: &str) -> (r: Vec<String>)
    ensures
        views(r@) == seq![a@, b@],
{
    let mut v: Vec<String> = Vec::new();
    push_text(&mut v, a);
    push_text(&mut v, b);
    assert(views(v@) =~= seq![a@, b@]);
    v
}

/// Three words.
fn three_words(a: &str, b: &str, c: &str) -> (r: Vec<String>)
    ensures
        views(r@) == seq![a@, b@, c@],
{
    let mut v = two_words(a, b);
    push_text(&mut v, c);
    assert(views(v@) =~= seq![a@, b@, c@]);
    v
}

/// Appends a removal step.
fn push_step(v: &mut Vec<CleanupStep>, c: CleanupStep)
    ensures
        step_views(final(v)@) == step_views(old(v)@).push(c@),
{
    let ghost before = step_views(v@);
    let ghost cv = c@;
    v.push(c);
    assert(step_views(v@) =~= before.push(cv));
}

/// Builds the removals to try, in order.
pub fn cleanup_steps(platform: Platform, npm_next_to_openclaw: Option<String>) -> (r: Vec<CleanupStep>)
    ensures
        step_views(r@) == cleanup_plan(platform, opt_view(npm_next_to_openclaw)),
{
    let mut v: Vec<CleanupStep> = Vec::new();
    let ghost empty = step_views(v@);
    assert(empty =~= Seq::<StepView>::empty());
    if platform == Platform::MacOs {
        push_step(&mut v, make_step("[brew]", "/opt/homebrew/bin/brew", two_words("uninstall", "openclaw"), None));
        push_step(&mut v, make_step("[brew]", "/usr/local/bin/brew", two_words("uninstall", "openclaw"), None));
        push_step(&mut v, make_step("[brew]", "brew", two_words("uninstall", "openclaw"), None));
    }
    let ghost brews = step_views(v@);
    let npm = match npm_next_to_openclaw {
        Some(p) => {
            if platform == Platform::Windows {
                let note = concat2("[cleanup] using npm: ", p.as_str());
                make_step("[npm]", p.as_str(), three_words("uninstall", "-g", "openclaw"), Some(note))
            } else {
                make_step("[npm]", "npm", three_words("uninstall", "-g", "openclaw"), None)
            }
        },
        None => make_step("[npm]", "npm", three_words("uninstall", "-g", "openclaw"), None),
    };
    let ghost npm_view = npm@;
    push_step(&mut v, npm);
    push_step(&mut v, make_step("[pnpm]", "pnpm", three_words("remove", "-g", "openclaw"), None));
    proof {
        let plan = cleanup_plan(platform, opt_view(npm_next_to_openclaw));
        let k = brews.len();
        assert(step_views(v@).len() == k + 2);
        assert(plan.len() == k + 2);
        assert(step_views(v@) =~= plan);
    }
    v
}

/// The log line of one best-effort removal.
pub fn cleanup_report_lines(label: &str, outcome: &CleanupOutcome) -> (r: Vec<String>)
    ensures
        views(r@) == cleanup_report(
            label@,
            match outcome {
                CleanupOutcome::Skipped(e) => UEventView::Skipped(e@),
                CleanupOutcome::Ran(Ok(c)) => UEventView::CleanRan(Ok(*c)),
                CleanupOutcome::Ran(Err(e)) => UEventView::CleanRan(Err(e@)),
            },
        ),
{
    match outcome {
        CleanupOutcome::Skipped(e) => {
            let mut l = concat3("[cleanup] ", label, " skipped: ");
            l.append(e.as_str());
            one_line(l)
        },
        CleanupOutcome::Ran(Ok(c)) => {
            if *c != 0 {
                let head = concat3("[cleanup] ", label, " exited with code ");
                one_line(with_code(head.as_str(), *c, " (ignored)"))
            } else {
                no_lines()
            }
        },
        CleanupOutcome::Ran(Err(e)) => {
            let mut l = concat3("[cleanup] ", label, " failed (ignored): ");
            l.append(e.as_str());
            one_line(l)
        },
    }
}

/// The log lines of the nvm cleanup.
pub fn nvm_report_lines(items: &Vec<String>) -> (r: Vec<String>)
    ensures
        views(r@) == nvm_report(views(items@)),
{
    if items.len() == 0 {
        let v = no_lines();
        return v;
    }
    let count = crate::text::nat_text(items.len() as u64);
    let mut out = one_line(concat3("[cleanup] nvm: removed ", count.as_str(), " item(s)"));
    let ghost head = views(out@);
    let mut i: usize = 0;
    while i < items.len()
        invariant
            i <= items.len(),
            views(out@) == head + views(items@).take(i as int).map_values(
                |x: Seq<char>| "[cleanup] nvm: "@ + x,
            ),
        decreases items.len() - i,
    {
        let ghost before = views(out@);
        push_owned(&mut out, concat2("[cleanup] nvm: ", items[i].as_str()));
        assert(views(items@).take(i + 1) =~= views(items@).take(i as int).push(items@[i as int]@));
        assert(views(out@) =~= head + views(items@).take(i + 1).map_values(
            |x: Seq<char>| "[cleanup] nvm: "@ + x,
        ));
        i += 1;
    }
    assert(views(items@).take(items.len() as int) =~= views(items@));
    out
}

/// The log line of the state directory removal.
pub fn state_dir_report_lines(outcome: &StateDirOutcome) -> (r: Vec<String>)
    ensures
        views(r@) == state_dir_report(
            match outcome {
                StateDirOutcome::Absent => UEventView::DirAbsent,
                StateDirOutcome::Removed(p) => UEventView::DirRemoved(p@),
                StateDirOutcome::Failed(p, e) => UEventView::DirFailed(p@, e@),
            },
        ),
{
    match outcome {
        StateDirOutcome::Absent => no_lines(),
        StateDirOutcome::Removed(p) => one_line(concat2("[cleanup] removed: ", p.as_str())),
        StateDirOutcome::Failed(p, e) => {
            let mut l = concat3("[cleanup] failed to remove ", p.as_str(), ": ");
            l.append(e.as_str());
            one_line(l)
        },
    }
}

impl UninstallFlow {
    /// Starts the removal; `resolved` is the command found with where it was
    /// found, `npm_next_to_openclaw` an `npm.cmd` beside it.
    pub fn start(
        platform: Platform,
        resolved: Option<(String, String)>,
        npm_next_to_openclaw: Option<String>,
    ) -> (r: (UninstallFlow, UninstallAction))
        ensures
            (r.0@, r.1@) == ustart_spec(
                platform,
                match resolved {
                    Some((c, src)) => Some((c@, src@)),
                    None => None,
                },
                opt_view(npm_next_to_openclaw),
            ),
            uflow_ok(r.0@),
    {
        let steps = cleanup_steps(platform, npm_next_to_openclaw);
        assert(steps@.len() == step_views(steps@).len());
        let mut flow = UninstallFlow {
            platform,
            phase: UninstallPhase::OpenclawUninstall,
            steps,
            next_step: 0,
        };
        match resolved {
            Some((c, src)) => {
                let mut line = concat3("[uninstall] openclaw resolved: ", c.as_str(), " (");
                line.append(src.as_str());
                line.append(")");
                let mut logs = two_lines(owned("[uninstall] start"), line);
                let ghost l1 = views(logs@);
                push_text(
                    &mut logs,
                    "openclaw uninstall --service --state --workspace --yes --non-interactive",
                );
                assert(views(logs@) =~= seq![l1[0], l1[1], "openclaw uninstall --service --state --workspace --yes --non-interactive"@]);
                (flow, UninstallAction { logs, work: UninstallWork::OpenclawUninstall })
            },
            None => {
                let mut logs = two_lines(
                    owned("[uninstall] start"),
                    owned("[warn] 未检测到 openclaw 命令，跳过 openclaw uninstall，直接尝试清理…"),
                );
                let ghost l1 = views(logs@);
                push_text(
                    &mut logs,
                    "正在尝试移除 openclaw CLI（brew / npm / pnpm / nvm；Windows: nvm-windows / npm shim）…",
                );
                assert(views(logs@) =~= seq![l1[0], l1[1], removing_line()]);
                let a = flow.cleanup_at(0, logs);
                (flow, a)
            },
        }
    }

    /// Asks for the removal at position `i`.
    fn cleanup_at(&mut self, i: usize, logs: Vec<String>) -> (a: UninstallAction)
        requires
            i < old(self).steps.len(),
        ensures
            (final(self)@, a@) == ucleanup(old(self)@, i as nat, views(logs@)),
    {
        let st = &self.steps[i];
        let c = CleanupStep {
            label: st.label.clone(),
            program: st.program.clone(),
            args: crate::text::clone_texts(&st.args),
            note: crate::task::clone_opt(&st.note),
        };
        self.phase = UninstallPhase::Cleanup;
        self.next_step = i + 1;
        UninstallAction { logs, work: UninstallWork::Cleanup(c) }
    }

    /// Moves to `phase`, logging `logs` before `work`.
    fn ugo(&mut self, phase: UninstallPhase, logs: Vec<String>, work: UninstallWork) -> (a: UninstallAction)
        ensures
            (final(self)@, a@) == ugo(old(self)@, phase, views(logs@), work@),
    {
        self.phase = phase;
        UninstallAction { logs, work }
    }

    /// Whether `step` may be given `e` now.
    pub fn accepts(&self, e: &UninstallEvent) -> (b: bool)
        ensures
            b == (uflow_ok(self@) && ufits(self@.phase, e@)),
    {
        let ok = (self.phase != UninstallPhase::Cleanup || (1 <= self.next_step
            && self.next_step <= self.steps.len())) && self.next_step <= self.steps.len()
            && self.steps.len() >= 1 && (self.phase != UninstallPhase::Shims || self.platform
            == Platform::Windows);
        let fit = match self.phase {
            UninstallPhase::OpenclawUninstall => matches!(e, UninstallEvent::Ran(_)),
            UninstallPhase::Cleanup => matches!(e, UninstallEvent::Cleaned(_)),
            UninstallPhase::NvmCleanup => matches!(e, UninstallEvent::NvmRemoved(_)),
            UninstallPhase::StateDir => matches!(e, UninstallEvent::StateDir(_)),
            UninstallPhase::Resolve | UninstallPhase::ResolveAgain => matches!(
                e,
                UninstallEvent::Found(_)
            ),
            UninstallPhase::Shims => matches!(e, UninstallEvent::Done),
            UninstallPhase::Finished | UninstallPhase::Failed => false,
        };
        ok && fit
    }

    /// Takes in what came of the last piece of work and gives the next one.
    pub fn step(&mut self, event: UninstallEvent) -> (a: UninstallAction)
        requires
            uflow_ok(old(self)@),
            ufits(old(self)@.phase, event@),
        ensures
            (final(self)@, a@) == unext(old(self)@, event@),
            uflow_ok(final(self)@),
    {
        proof {
            law_uninstall_stays_consistent(self@, event@);
        }
        match self.phase {
            UninstallPhase::OpenclawUninstall => match event {
                UninstallEvent::Ran(Err(m)) => self.ugo(
                    UninstallPhase::Failed,
                    no_lines(),
                    UninstallWork::Fail(m),
                ),
                UninstallEvent::Ran(Ok(c)) => {
                    let removing = owned(
                        "正在尝试移除 openclaw CLI（brew / npm / pnpm / nvm；Windows: nvm-windows / npm shim）…",
                    );
                    let logs = if c != 0 {
                        two_lines(
                            with_code(
                                "[warn] openclaw uninstall 失败（退出码 ",
                                c,
                                "），将继续尝试通过 npm/pnpm 等方式清理…",
                            ),
                            removing,
                        )
                    } else {
                        one_line(removing)
                    };
                    self.cleanup_at(0, logs)
                },
                _ => self.ugo(UninstallPhase::Failed, no_lines(), UninstallWork::Fail(String::new())),
            },
            UninstallPhase::Cleanup => {
                let logs = match &event {
                    UninstallEvent::Cleaned(o) => cleanup_report_lines(
                        self.steps[self.next_step - 1].label.as_str(),
                        o,
                    ),
                    _ => no_lines(),
                };
                if self.next_step < self.steps.len() {
                    let i = self.next_step;
                    self.cleanup_at(i, logs)
                } else {
                    self.ugo(UninstallPhase::NvmCleanup, logs, UninstallWork::NvmCleanup)
                }
            },
            UninstallPhase::NvmCleanup => match event {
                UninstallEvent::NvmRemoved(items) => {
                    let logs = nvm_report_lines(&items);
                    self.ugo(UninstallPhase::StateDir, logs, UninstallWork::RemoveStateDir)
                },
                _ => self.ugo(UninstallPhase::StateDir, no_lines(), UninstallWork::RemoveStateDir),
            },
            UninstallPhase::StateDir => {
                let logs = match &event {
                    UninstallEvent::StateDir(o) => state_dir_report_lines(o),
                    _ => no_lines(),
                };
                self.ugo(UninstallPhase::Resolve, logs, UninstallWork::Resolve)
            },
            UninstallPhase::Resolve => match event {
                UninstallEvent::Found(Some((c, src))) => {
                    let mut line = concat3("[cleanup] openclaw 仍存在：", c.as_str(), " (");
                    line.append(src.as_str());
                    line.append(")");
                    if self.platform == Platform::Windows {
                        self.ugo(UninstallPhase::Shims, one_line(line), UninstallWork::WindowsShims)
                    } else {
                        self.ugo(
                            UninstallPhase::ResolveAgain,
                            one_line(line),
                            UninstallWork::ResolveAgain,
                        )
                    }
                },
                _ => self.ugo(
                    UninstallPhase::Finished,
                    one_line(owned("卸载完成：已找不到 openclaw 命令。")),
                    UninstallWork::Finish,
                ),
            },
            UninstallPhase::Shims => self.ugo(
                UninstallPhase::ResolveAgain,
                no_lines(),
                UninstallWork::ResolveAgain,
            ),
            UninstallPhase::ResolveAgain => match event {
                UninstallEvent::Found(Some((c, src))) => {
                    let mut m = concat3("已执行卸载，但系统中仍能找到 openclaw：", c.as_str(), "（");
                    m.append(src.as_str());
                    m.append(
                        "）。\n可能原因：权限不足/多个 Node 环境。\n建议：在终端运行 `npm uninstall -g openclaw`（必要时以管理员权限），然后重启终端再试。",
                    );
                    self.ugo(UninstallPhase::Failed, no_lines(), UninstallWork::Fail(m))
                },
                _ => self.ugo(
                    UninstallPhase::Finished,
                    one_line(owned("卸载完成：已找不到 openclaw 命令。")),
                    UninstallWork::Finish,
                ),
            },
            UninstallPhase::Finished | UninstallPhase::Failed => UninstallAction {
                logs: no_lines(),
                work: UninstallWork::Finish,
            },
        }
    }
}

/// The removal's state stays consistent across every step.
pub proof fn law_uninstall_stays_consistent(s: UFlowView, e: UEventView)
    requires
        uflow_ok(s),
        ufits(s.phase, e),
    ensures
        uflow_ok(unext(s, e).0),
{
}

/// Whatever OpenClaw's own uninstaller exits with, the package-manager
/// removals follow: the first removal of the plan is asked for next.
pub proof fn law_removals_follow_own_uninstaller(s: UFlowView, code: i32)
    requires
        uflow_ok(s),
        s.phase == UninstallPhase::OpenclawUninstall,
    ensures
        unext(s, UEventView::Ran(Ok(code))).0.phase == UninstallPhase::Cleanup,
        unext(s, UEventView::Ran(Ok(code))).0.next_step == 1,
        unext(s, UEventView::Ran(Ok(code))).1.work == UWorkView::Cleanup(s.steps[0]),
{
}

/// The removals of every plan end with `npm uninstall -g openclaw` and
/// `pnpm remove -g openclaw`; on macOS they start with `brew uninstall
/// openclaw` through the three usual Homebrew places.
pub proof fn law_plan_removes_through_package_managers(
    platform: Platform,
    npm_next_to_openclaw: Option<Seq<char>>,
)
    ensures
        ({
            let p = cleanup_plan(platform, npm_next_to_openclaw);
            &&& p.len() >= 2
            &&& p[p.len() - 2].args == seq!["uninstall"@, "-g"@, "openclaw"@]
            &&& p[p.len() - 1].program == "pnpm"@
            &&& p[p.len() - 1].args == seq!["remove"@, "-g"@, "openclaw"@]
            &&& (platform == Platform::MacOs ==> {
                &&& p.len() == 5
                &&& p[0].program == "/opt/homebrew/bin/brew"@
                &&& p[1].program == "/usr/local/bin/brew"@
                &&& p[2].program == "brew"@
                &&& forall|i: int| 0 <= i < 3 ==> #[trigger] p[i].args == seq!["uninstall"@, "openclaw"@]
            })
        }),
{
}

/// The removal ends in success exactly when the command can no longer be
/// found, and fails only when OpenClaw's own uninstaller could not be run or
/// the command is still found after every other attempt.
pub proof fn law_success_iff_gone(s: UFlowView, e: UEventView)
    requires
        uflow_ok(s),
        ufits(s.phase, e),
    ensures
        unext(s, e).1.work is Finish <==> ((s.phase == UninstallPhase::Resolve || s.phase
            == UninstallPhase::ResolveAgain) && e == UEventView::Found(None)),
        unext(s, e).1.work is Fail <==> ((s.phase == UninstallPhase::OpenclawUninstall
            && e matches UEventView::Ran(Err(_))) || (s.phase == UninstallPhase::ResolveAgain
            && e matches UEventView::Found(Some(_)))),
{
}

/// Removals through the package managers are best effort: whatever one of
/// them gives, the next one in the plan is asked for, and after the last one
/// the nvm cleanup.
pub proof fn law_cleanup_is_best_effort(s: UFlowView, e: UEventView)
    requires
        uflow_ok(s),
        ufits(s.phase, e),
        s.phase == UninstallPhase::Cleanup,
    ensures
        s.next_step < s.steps.len() ==> unext(s, e).1.work == UWorkView::Cleanup(
            s.steps[s.next_step as int],
        ) && unext(s, e).0.next_step == s.next_step + 1,
        s.next_step == s.steps.len() ==> unext(s, e).1.work is NvmCleanup,
{
}

/// Every step moves the removal on: to a later phase, or to the next removal
/// of the plan, so it always comes to an end.
pub proof fn law_uninstall_moves_forward(s: UFlowView, e: UEventView)
    requires
        uflow_ok(s),
        ufits(s.phase, e),
    ensures
        urank(unext(s, e).0.phase) > urank(s.phase) || (unext(s, e).0.phase == s.phase
            && s.phase == UninstallPhase::Cleanup && unext(s, e).0.next_step == s.next_step + 1),
{
}

} // verus!
