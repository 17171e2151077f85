//! The single background task slot: which task runs, whether it may be
//! cancelled, and whether cancellation was asked for.
use vstd::prelude::*;
use crate::text::{str_eq, views};

verus! {

broadcast use vstd::string::group_string_axioms;

/// Abstract view of an optional text.
pub open spec fn opt_view(o: Option<String>) -> Option<Seq<char>> {
    match o {
        Some(s) => Some(s@),
        None => None,
    }
}

/// Abstract view of a result carrying texts.
pub open spec fn res_view(r: Result<String, String>) -> Result<Seq<char>, Seq<char>> {
    match r {
        Ok(s) => Ok(s@),
        Err(e) => Err(e@),
    }
}

/// An owned copy of a text.
pub fn owned(s: &str) -> (r: String)
    ensures
        r@ == s@,
{
    s.to_string()
}

/// A copy of an optional text.
pub fn clone_opt(o: &Option<String>) -> (r: Option<String>)
    ensures
        opt_view(r) == opt_view(*o),
{
    match o {
        Some(s) => Some(s.clone()),
        None => None,
    }
}

/// Description of a background task.
pub struct TaskMeta {
    pub kind: String,
    pub title: String,
    pub can_cancel: bool,
    pub cancel_warning: Option<String>,
}

/// Abstract view of a `TaskMeta`.
pub struct MetaView {
    pub kind: Seq<char>,
    pub title: Seq<char>,
    pub can_cancel: bool,
    pub cancel_warning: Option<Seq<char>>,
}

impl View for TaskMeta {
    type V = MetaView;

    open spec fn view(&self) -> MetaView {
        MetaView {
            kind: self.kind@,
            title: self.title@,
            can_cancel: self.can_cancel,
            cancel_warning: opt_view(self.cancel_warning),
        }
    }
}

/// A task that may be cancelled.
pub open spec fn cancelable_meta(kind: Seq<char>, title: Seq<char>) -> MetaView {
    MetaView { kind, title, can_cancel: true, cancel_warning: None }
}

/// A task that refuses cancellation with `warning`.
pub open spec fn fixed_meta(kind: Seq<char>, title: Seq<char>, warning: Seq<char>) -> MetaView {
    MetaView { kind, title, can_cancel: false, cancel_warning: Some(warning) }
}

impl TaskMeta {
    /// A task that may be cancelled.
    pub fn new(kind: &str, title: &str) -> (m: TaskMeta)
        ensures
            m@ == cancelable_meta(kind@, title@),
    {
        TaskMeta { kind: owned(kind), title: owned(title), can_cancel: true, cancel_warning: None }
    }

    /// A task that refuses cancellation and says why.
    pub fn non_cancelable(kind: &str, title: &str, cancel_warning: &str) -> (m: TaskMeta)
        ensures
            m@ == fixed_meta(kind@, title@, cancel_warning@),
    {
        TaskMeta {
            kind: owned(kind),
            title: owned(title),
            can_cancel: false,
            cancel_warning: Some(owned(cancel_warning)),
        }
    }

    /// A copy of this description.
    pub fn duplicate(&self) -> (m: TaskMeta)
        ensures
            m@ == self@,
    {
        TaskMeta {
            kind: self.kind.clone(),
            title: self.title.clone(),
            can_cancel: self.can_cancel,
            cancel_warning: clone_opt(&self.cancel_warning),
        }
    }
}

/// The description of an `openclaw` invocation, from its arguments: updates
/// refuse cancellation, gateway subcommands get their own titles.
pub open spec fn meta_for_args(args: Seq<Seq<char>>) -> MetaView {
    let command = if args.len() > 0 {
        args[0]
    } else {
        Seq::<char>::empty()
    };
    if command == "update"@ {
        fixed_meta(
            "update"@,
            "更新 OpenClaw…"@,
            "更新进行中，暂不支持取消。中断更新可能导致 OpenClaw 暂时不可用，请等待完成。"@,
        )
    } else if command == "doctor"@ {
        cancelable_meta("doctor"@, "健康检查/修复…"@)
    } else if command == "gateway"@ {
        let sub = if args.len() > 1 {
            args[1]
        } else {
            Seq::<char>::empty()
        };
        if args.len() > 1 && sub == "install"@ {
            cancelable_meta("gateway_install"@, "安装网关服务…"@)
        } else if args.len() > 1 && sub == "start"@ {
            cancelable_meta("gateway_start"@, "启动网关服务…"@)
        } else if args.len() > 1 && sub == "stop"@ {
            cancelable_meta("gateway_stop"@, "停止网关服务…"@)
        } else if args.len() > 1 && sub == "restart"@ {
            cancelable_meta("gateway_restart"@, "重启网关服务…"@)
        } else {
            cancelable_meta("gateway"@, "执行网关操作…"@)
        }
    } else if command == "config"@ {
        cancelable_meta("config"@, "保存配置…"@)
    } else {
        cancelable_meta("openclaw_command"@, "执行中…"@)
    }
}

/// Describes the task that runs `openclaw` with `args`.
pub fn task_meta_for_openclaw_args(args: &[String]) -> (m: TaskMeta)
    ensures
        m@ == meta_for_args(views(args@)),
{
    let ghost a = views(args@);
    if args.len() == 0 {
        proof {
            reveal_strlit("update");
            reveal_strlit("doctor");
            reveal_strlit("gateway");
            reveal_strlit("config");
            assert("update"@.len() == 6);
            assert("doctor"@.len() == 6);
            assert("gateway"@.len() == 7);
            assert("config"@.len() == 6);
        }
        return TaskMeta::new("openclaw_command", "执行中…");
    }
    assert(a[0] == args@[0]@);
    let command = args[0].as_str();
    if str_eq(command, "update") {
        TaskMeta::non_cancelable(
            "update",
            "更新 OpenClaw…",
            "更新进行中，暂不支持取消。中断更新可能导致 OpenClaw 暂时不可用，请等待完成。",
        )
    } else if str_eq(command, "doctor") {
        TaskMeta::new("doctor", "健康检查/修复…")
    } else if str_eq(command, "gateway") {
        if args.len() < 2 {
            return TaskMeta::new("gateway", "执行网关操作…");
        }
        assert(a[1] == args@[1]@);
        let sub = args[1].as_str();
        if str_eq(sub, "install") {
            TaskMeta::new("gateway_install", "安装网关服务…")
        } else if str_eq(sub, "start") {
            TaskMeta::new("gateway_start", "启动网关服务…")
        } else if str_eq(sub, "stop") {
            TaskMeta::new("gateway_stop", "停止网关服务…")
        } else if str_eq(sub, "restart") {
            TaskMeta::new("gateway_restart", "重启网关服务…")
        } else {
            TaskMeta::new("gateway", "执行网关操作…")
        }
    } else if str_eq(command, "config") {
        TaskMeta::new("config", "保存配置…")
    } else {
        TaskMeta::new("openclaw_command", "执行中…")
    }
}

/// The error a cancelled task ends with.
pub open spec fn canceled_message() -> Seq<char> {
    "用户取消"@
}

/// Fails with `"用户取消"` once cancellation was requested.
pub fn check_canceled(flag: bool) -> (r: Result<(), String>)
    ensures
        flag ==> (r matches Err(e) && e@ == canceled_message()),
        !flag ==> r is Ok,
{
    if flag {
        return Err(owned("用户取消"));
    }
    Ok(())
}

/// What a caller can see of the task slot.
pub struct TaskStatus {
    pub running: bool,
    pub cancel_requested: bool,
    pub kind: Option<String>,
    pub title: Option<String>,
    pub can_cancel: bool,
    pub cancel_warning: Option<String>,
}

/// Abstract view of a `TaskStatus`.
pub struct StatusView {
    pub running: bool,
    pub cancel_requested: bool,
    pub kind: Option<Seq<char>>,
    pub title: Option<Seq<char>>,
    pub can_cancel: bool,
    pub cancel_warning: Option<Seq<char>>,
}

impl View for TaskStatus {
    type V = StatusView;

    open spec fn view(&self) -> StatusView {
        StatusView {
            running: self.running,
            cancel_requested: self.cancel_requested,
            kind: opt_view(self.kind),
            title: opt_view(self.title),
            can_cancel: self.can_cancel,
            cancel_warning: opt_view(self.cancel_warning),
        }
    }
}

/// The single slot for the one background task that may run at a time.
pub struct TaskState {
    running: bool,
    cancel_flag: Option<bool>,
    meta: Option<TaskMeta>,
}

/// Abstract view of the task slot: whether a task runs, its cancellation
/// flag (present while a task runs), and its description.
pub struct SlotView {
    pub running: bool,
    pub cancel_flag: Option<bool>,
    pub meta: Option<MetaView>,
}

/// A slot is consistent when the flag and the description are there exactly
/// while a task runs.
pub open spec fn slot_ok(v: SlotView) -> bool {
    &&& v.running <==> v.cancel_flag is Some
    &&& v.running <==> v.meta is Some
}

/// The empty slot.
pub open spec fn idle_slot() -> SlotView {
    SlotView { running: false, cancel_flag: None, meta: None }
}

/// The message that refuses a second task.
pub open spec fn busy_message() -> Seq<char> {
    "已有任务正在运行，请先取消或等待完成。"@
}

/// Starting `m`: refused while a task runs, otherwise the slot holds `m`
/// with a fresh, unset cancellation flag.
pub open spec fn start_spec(v: SlotView, m: MetaView) -> (SlotView, Result<(), Seq<char>>) {
    if v.running {
        (v, Err(busy_message()))
    } else {
        (SlotView { running: true, cancel_flag: Some(false), meta: Some(m) }, Ok(()))
    }
}

/// Why a cancellation is refused: only a task that cannot be cancelled refuses,
/// with its own warning or a general one.
pub open spec fn cancel_refusal(m: Option<MetaView>) -> Option<Seq<char>> {
    match m {
        Some(meta) => if !meta.can_cancel {
            match meta.cancel_warning {
                Some(w) => Some(w),
                None => Some("当前任务进行中，暂不支持取消。"@),
            }
        } else {
            None
        },
        None => None,
    }
}

/// Asking for cancellation: refused for a task that cannot be cancelled,
/// otherwise the flag of a running task is raised.
pub open spec fn cancel_spec(v: SlotView) -> (SlotView, Result<(), Seq<char>>) {
    match cancel_refusal(v.meta) {
        Some(w) => (v, Err(w)),
        None => (
            SlotView {
                cancel_flag: match v.cancel_flag {
                    Some(_) => Some(true),
                    None => None,
                },
                ..v
            },
            Ok(()),
        ),
    }
}

/// What a snapshot of the slot reports.
pub open spec fn status_spec(v: SlotView) -> StatusView {
    match v.meta {
        Some(m) => StatusView {
            running: v.running,
            cancel_requested: v.cancel_flag == Some(true),
            kind: Some(m.kind),
            title: Some(m.title),
            can_cancel: m.can_cancel,
            cancel_warning: m.cancel_warning,
        },
        None => StatusView {
            running: v.running,
            cancel_requested: v.cancel_flag == Some(true),
            kind: None,
            title: None,
            can_cancel: false,
            cancel_warning: None,
        },
    }
}

/// Abstract view of an optional description.
pub open spec fn opt_meta(m: Option<TaskMeta>) -> Option<MetaView> {
    match m {
        Some(x) => Some(x@),
        None => None,
    }
}

impl View for TaskState {
    type V = SlotView;

    closed spec fn view(&self) -> SlotView {
        SlotView { running: self.running, cancel_flag: self.cancel_flag, meta: opt_meta(self.meta) }
    }
}

impl TaskState {
    #[verifier::type_invariant]
    closed spec fn consistent(&self) -> bool {
        slot_ok(self@)
    }

    /// The empty slot.
    pub fn new() -> (s: TaskState)
        ensures
            s@ == idle_slot(),
    {
        TaskState { running: false, cancel_flag: None, meta: None }
    }

    /// Claims the slot for a new task, or refuses while another one runs.
    pub fn start_with_meta(&mut self, meta: TaskMeta) -> (r: Result<(), String>)
        ensures
            final(self)@ == start_spec(old(self)@, meta@).0,
            match (r, start_spec(old(self)@, meta@).1) {
                (Ok(()), Ok(())) => true,
                (Err(e), Err(x)) => e@ == x,
                _ => false,
            },
    {
        proof {
            use_type_invariant(&*self);
        }
        if self.running {
            return Err(owned("已有任务正在运行，请先取消或等待完成。"));
        }
        *self = TaskState { running: true, cancel_flag: Some(false), meta: Some(meta) };
        Ok(())
    }

    /// Empties the slot when the task ends, whatever its outcome.
    pub fn finish(&mut self)
        ensures
            final(self)@ == idle_slot(),
    {
        *self = TaskState { running: false, cancel_flag: None, meta: None };
    }

    /// Asks the running task to stop, unless it refuses cancellation.
    pub fn cancel(&mut self) -> (r: Result<(), String>)
        ensures
            final(self)@ == cancel_spec(old(self)@).0,
            match (r, cancel_spec(old(self)@).1) {
                (Ok(()), Ok(())) => true,
                (Err(e), Err(x)) => e@ == x,
                _ => false,
            },
    {
        proof {
            use_type_invariant(&*self);
        }
        match &self.meta {
            Some(meta) => {
                if !meta.can_cancel {
                    return match &meta.cancel_warning {
                        Some(w) => Err(w.clone()),
                        None => Err(owned("当前任务进行中，暂不支持取消。")),
                    };
                }
            },
            None => {},
        }
        match self.cancel_flag {
            Some(_) => {
                let meta = match &self.meta {
                    Some(m) => Some(m.duplicate()),
                    None => None,
                };
                *self = TaskState { running: self.running, cancel_flag: Some(true), meta };
            },
            None => {},
        }
        Ok(())
    }

    /// Whether the running task was asked to stop.
    pub fn cancel_requested(&self) -> (b: bool)
        ensures
            b == (self@.cancel_flag == Some(true)),
    {
        match self.cancel_flag {
            Some(f) => f,
            None => false,
        }
    }

    /// What the UI shows of the slot.
    pub fn snapshot(&self) -> (s: TaskStatus)
        ensures
            s@ == status_spec(self@),
    {
        let cancel_requested = self.cancel_requested();
        match &self.meta {
            Some(m) => TaskStatus {
                running: self.running,
                cancel_requested,
                kind: Some(m.kind.clone()),
                title: Some(m.title.clone()),
                can_cancel: m.can_cancel,
                cancel_warning: clone_opt(&m.cancel_warning),
            },
            None => TaskStatus {
                running: self.running,
                cancel_requested,
                kind: None,
                title: None,
                can_cancel: false,
                cancel_warning: None,
            },
        }
    }
}

/// Only one task runs at a time: starting while a task runs is refused with
/// the busy message and leaves the slot as it was.
pub proof fn law_one_task_at_a_time(v: SlotView, m: MetaView)
    requires
        v.running,
    ensures
        start_spec(v, m).0 == v,
        start_spec(v, m).1 == Err::<(), Seq<char>>(busy_message()),
{
}

/// Finishing always frees the slot, so the next start succeeds and the slot
/// then describes the new task with no cancellation requested.
pub proof fn law_finish_frees_slot(v: SlotView, m: MetaView)
    ensures
        start_spec(idle_slot(), m).1 == Ok::<(), Seq<char>>(()),
        status_spec(start_spec(idle_slot(), m).0) == (StatusView {
            running: true,
            cancel_requested: false,
            kind: Some(m.kind),
            title: Some(m.title),
            can_cancel: m.can_cancel,
            cancel_warning: m.cancel_warning,
        }),
        slot_ok(start_spec(v, m).0) || !slot_ok(v),
{
}

/// A task that refuses cancellation is never flagged: asking to cancel it
/// answers with its warning and changes nothing, however often it is asked.
pub proof fn law_uncancelable_never_flagged(v: SlotView, m: MetaView)
    requires
        v.running,
        slot_ok(v),
        v.meta == Some(m),
        !m.can_cancel,
    ensures
        cancel_spec(v).0 == v,
        cancel_spec(v).1 is Err,
        cancel_spec(cancel_spec(v).0) == cancel_spec(v),
{
}

/// Cancelling a cancellable running task raises its flag, keeps it running
/// (it stops on its own and then finishes), and the snapshot reports it.
pub proof fn law_cancel_is_reported(v: SlotView)
    requires
        v.running,
        slot_ok(v),
        cancel_refusal(v.meta) is None,
    ensures
        cancel_spec(v).1 == Ok::<(), Seq<char>>(()),
        cancel_spec(v).0.running,
        status_spec(cancel_spec(v).0).cancel_requested,
        slot_ok(cancel_spec(v).0),
{
}

/// Only `openclaw update` refuses cancellation: a task started for any other
/// arguments (none at all included) can be cancelled, and cancelling it
/// right after it started raises its flag.
pub proof fn law_only_update_refuses_cancel(args: Seq<Seq<char>>)
    ensures
        meta_for_args(args).can_cancel <==> !(args.len() > 0 && args[0] == "update"@),
        !(args.len() > 0 && args[0] == "update"@) ==> {
            let v = start_spec(idle_slot(), meta_for_args(args)).0;
            &&& cancel_spec(v).1 == Ok::<(), Seq<char>>(())
            &&& status_spec(cancel_spec(v).0).cancel_requested
        },
{
    reveal_strlit("update");
    let command = if args.len() > 0 {
        args[0]
    } else {
        Seq::<char>::empty()
    };
    assert("update"@.len() == 6);
    if command == "update"@ {
        assert(args.len() > 0);
        assert(!meta_for_args(args).can_cancel);
    } else {
        assert(meta_for_args(args).can_cancel);
    }
}

/// Every transition keeps the slot consistent.
pub proof fn law_transitions_keep_slot_consistent(v: SlotView, m: MetaView)
    requires
        slot_ok(v),
    ensures
        slot_ok(start_spec(v, m).0),
        slot_ok(cancel_spec(v).0),
        slot_ok(idle_slot()),
{
}

} // verus!
