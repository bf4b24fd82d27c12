//! Running a command in the namespace.

use vstd::prelude::*;
use vstd::slice::slice_to_vec;
use crate::abi::{einval, eperm};
use crate::caller::Caller;
use crate::netns::{
    netns_etc, netns_etc_of, ns_path, ns_path_of, resolv_conf, resolv_conf_of, HOST_RESOLV_CONF,
};
use crate::plan::{all_succeed, law_complete, law_nothing_behind_a_failure, run, Progress};
use crate::text::views;

verus! {

/// Who a command runs as. The subcommand decides it, never the arguments.
#[derive(Clone, Copy, Debug, PartialEq, Eq, Structural)]
pub enum RunAs {
    /// Stay root. Only for `connect`: the VPN client must configure interfaces and routes.
    Root,
    /// Drop to the user who invoked sudo. For `exec` and `status`: apps never keep root.
    Caller,
}

/// How a command runs.
#[derive(Clone, Copy, Debug, PartialEq, Eq, Structural)]
pub struct ExecOpts {
    pub run_as: RunAs,
    /// Whether the command outlives the program and lets go of its terminal. A command that does
    /// not keeps the terminal, and its exit code is the program's.
    pub detach: bool,
}

impl ExecOpts {
    /// A command that stays root.
    pub fn root() -> (r: Self)
        ensures
            r.run_as == RunAs::Root,
            !r.detach,
    {
        Self { run_as: RunAs::Root, detach: false }
    }

    /// A command that runs as the user.
    pub fn caller(detach: bool) -> (r: Self)
        ensures
            r.run_as == RunAs::Caller,
            r.detach == detach,
    {
        Self { run_as: RunAs::Caller, detach }
    }
}

/// What the process of the command does before it becomes the command.
#[derive(Debug, PartialEq, Eq)]
pub enum ChildOp {
    /// Enter the network namespace that this file stands for.
    EnterNamespace { path: String },
    /// Get mounts of its own.
    UnshareMounts,
    /// Keep what it mounts to itself.
    MakeMountsPrivate,
    /// Put the namespace's name server file over the host's.
    BindResolvConf { source: String, target: String },
    /// Give up every capability that a later program could regain.
    DropBoundingSet,
    /// Take these groups.
    SetGroups { groups: Vec<u32> },
    /// Take this group.
    SetGid { gid: u32 },
    /// Become this user.
    SetUid { uid: u32 },
    /// Make sure that root cannot be regained.
    LockDown,
    /// Leave the terminal's session, in a process of its own.
    Detach,
}

/// A step of the command's process, with its texts and lists as sequences.
pub enum ChildOpView {
    EnterNamespace { path: Seq<char> },
    UnshareMounts,
    MakeMountsPrivate,
    BindResolvConf { source: Seq<char>, target: Seq<char> },
    DropBoundingSet,
    SetGroups { groups: Seq<u32> },
    SetGid { gid: u32 },
    SetUid { uid: u32 },
    LockDown,
    Detach,
}

impl View for ChildOp {
    type V = ChildOpView;

    open spec fn view(&self) -> ChildOpView {
        match self {
            ChildOp::EnterNamespace { path } => ChildOpView::EnterNamespace { path: path@ },
            ChildOp::UnshareMounts => ChildOpView::UnshareMounts,
            ChildOp::MakeMountsPrivate => ChildOpView::MakeMountsPrivate,
            ChildOp::BindResolvConf { source, target } => ChildOpView::BindResolvConf {
                source: source@,
                target: target@,
            },
            ChildOp::DropBoundingSet => ChildOpView::DropBoundingSet,
            ChildOp::SetGroups { groups } => ChildOpView::SetGroups { groups: groups@ },
            ChildOp::SetGid { gid } => ChildOpView::SetGid { gid: *gid },
            ChildOp::SetUid { uid } => ChildOpView::SetUid { uid: *uid },
            ChildOp::LockDown => ChildOpView::LockDown,
            ChildOp::Detach => ChildOpView::Detach,
        }
    }
}

/// The views of a list of steps.
pub open spec fn child_views(v: Seq<ChildOp>) -> Seq<ChildOpView> {
    Seq::new(v.len(), |i: int| v[i]@)
}

/// The steps that every command's process takes: it enters the namespace `name` and sees that
/// namespace's name server file in place of the host's.
pub open spec fn entering(name: Seq<char>) -> Seq<ChildOpView> {
    seq![
        ChildOpView::EnterNamespace { path: ns_path_of(name) },
        ChildOpView::UnshareMounts,
        ChildOpView::MakeMountsPrivate,
        ChildOpView::BindResolvConf { source: resolv_conf_of(name), target: HOST_RESOLV_CONF@ },
    ]
}

/// The steps by which a process becomes the user `c` for good.
pub open spec fn dropping(c: Caller) -> Seq<ChildOpView> {
    seq![
        ChildOpView::DropBoundingSet,
        ChildOpView::SetGroups { groups: c.groups@ },
        ChildOpView::SetGid { gid: c.gid },
        ChildOpView::SetUid { uid: c.uid },
        ChildOpView::LockDown,
    ]
}

/// The steps of the command's process, in order. There are none, and no command, where it is to run
/// as the user and the user is not known.
pub open spec fn child_ops(name: Seq<char>, opts: ExecOpts, caller: Option<Caller>) -> Option<
    Seq<ChildOpView>,
> {
    let session = if opts.detach {
        seq![ChildOpView::Detach]
    } else {
        Seq::empty()
    };
    match opts.run_as {
        RunAs::Root => Some(entering(name) + session),
        RunAs::Caller => match caller {
            Some(c) => Some(entering(name) + dropping(c) + session),
            None => None,
        },
    }
}

/// The steps of the command's process in the namespace `name`, to be taken in order until one
/// fails. Where one fails there is no command. `None` is that the command is to run as the user and
/// the user is not known: then there is no command either.
pub fn child_setup(name: &str, opts: ExecOpts, caller: &Option<Caller>) -> (r: Option<Vec<ChildOp>>)
    ensures
        match (r, child_ops(name@, opts, *caller)) {
            (Some(ops), Some(expected)) => child_views(ops@) == expected,
            (None, None) => true,
            _ => false,
        },
{
    let mut r: Vec<ChildOp> = Vec::new();
    r.push(ChildOp::EnterNamespace { path: ns_path(name) });
    r.push(ChildOp::UnshareMounts);
    r.push(ChildOp::MakeMountsPrivate);
    r.push(
        ChildOp::BindResolvConf { source: resolv_conf(name), target: HOST_RESOLV_CONF.to_owned() },
    );
    match opts.run_as {
        RunAs::Root => {},
        RunAs::Caller => match caller {
            Some(c) => {
                r.push(ChildOp::DropBoundingSet);
                r.push(ChildOp::SetGroups { groups: slice_to_vec(c.groups.as_slice()) });
                r.push(ChildOp::SetGid { gid: c.gid });
                r.push(ChildOp::SetUid { uid: c.uid });
                r.push(ChildOp::LockDown);
            },
            None => {
                return None;
            },
        },
    }
    if opts.detach {
        r.push(ChildOp::Detach);
    }
    assert(child_views(r@) =~= child_ops(name@, opts, *caller)->Some_0);
    Some(r)
}

/// Whether only root can take a step.
pub open spec fn needs_root(op: ChildOpView) -> bool {
    !(op is SetUid || op is LockDown || op is Detach)
}

/// Every step that only root can take comes before the process becomes the user, and the lock-down
/// and the detaching come after.
pub proof fn law_root_steps_come_first(
    name: Seq<char>,
    opts: ExecOpts,
    caller: Option<Caller>,
    i: int,
    j: int,
)
    requires
        child_ops(name, opts, caller) is Some,
        0 <= i < child_ops(name, opts, caller)->Some_0.len(),
        0 <= j < child_ops(name, opts, caller)->Some_0.len(),
        child_ops(name, opts, caller)->Some_0[j] is SetUid,
    ensures
        needs_root(child_ops(name, opts, caller)->Some_0[i]) <==> i < j,
        child_ops(name, opts, caller)->Some_0[i] is LockDown ==> j < i,
{
}

/// Whether the step `op` stands among `ops` and has succeeded.
pub open spec fn is_done(
    ops: Seq<ChildOpView>,
    results: spec_fn(int) -> bool,
    op: ChildOpView,
) -> bool {
    exists|i: int| 0 <= i < ops.len() && #[trigger] ops[i] == op && results(i)
}

/// Whether the command starts: the steps of its process are known, and they run to their end where
/// `results` tells which of them succeed.
pub open spec fn starts(
    name: Seq<char>,
    opts: ExecOpts,
    caller: Option<Caller>,
    results: spec_fn(int) -> bool,
) -> bool {
    match child_ops(name, opts, caller) {
        Some(ops) => run(ops.len() as usize, results).1 == Progress::Complete,
        None => false,
    }
}

/// A command starts exactly where every step of its process has succeeded. One failed step, whichever
/// it is, and there is no command.
pub proof fn law_starts_only_prepared(
    name: Seq<char>,
    opts: ExecOpts,
    caller: Option<Caller>,
    results: spec_fn(int) -> bool,
)
    ensures
        starts(name, opts, caller, results) <==> match child_ops(name, opts, caller) {
            Some(ops) => forall|i: int| 0 <= i < ops.len() ==> #[trigger] results(i),
            None => false,
        },
{
    if let Some(ops) = child_ops(name, opts, caller) {
        assert(ops.len() <= 10);
        law_complete(ops.len() as usize, results);
        assert(all_succeed(ops.len() as usize, results) <==> forall|i: int|
            0 <= i < ops.len() ==> #[trigger] results(i));
    }
}

/// A command that runs as the user starts only from a process that has given up its capabilities,
/// has taken the user's groups, group and identity and has been locked down. It never starts where
/// the user is not known.
pub proof fn law_caller_never_keeps_root(
    name: Seq<char>,
    opts: ExecOpts,
    caller: Option<Caller>,
    results: spec_fn(int) -> bool,
)
    requires
        opts.run_as == RunAs::Caller,
        starts(name, opts, caller, results),
    ensures
        ({
            let ops = child_ops(name, opts, caller)->Some_0;
            let c = caller->Some_0;
            &&& caller is Some
            &&& is_done(ops, results, ChildOpView::DropBoundingSet)
            &&& is_done(ops, results, ChildOpView::SetGroups { groups: c.groups@ })
            &&& is_done(ops, results, ChildOpView::SetGid { gid: c.gid })
            &&& is_done(ops, results, ChildOpView::SetUid { uid: c.uid })
            &&& is_done(ops, results, ChildOpView::LockDown)
        }),
{
    law_starts_only_prepared(name, opts, caller, results);
    let ops = child_ops(name, opts, caller)->Some_0;
    let c = caller->Some_0;
    assert(ops[4] == ChildOpView::DropBoundingSet && results(4));
    assert(ops[5] == (ChildOpView::SetGroups { groups: c.groups@ }) && results(5));
    assert(ops[6] == (ChildOpView::SetGid { gid: c.gid }) && results(6));
    assert(ops[7] == (ChildOpView::SetUid { uid: c.uid }) && results(7));
    assert(ops[8] == ChildOpView::LockDown && results(8));
}

/// Every command starts only inside the namespace and with the namespace's name servers, and its
/// process sees to both before anything else.
pub proof fn law_namespace_is_entered_first(
    name: Seq<char>,
    opts: ExecOpts,
    caller: Option<Caller>,
    results: spec_fn(int) -> bool,
)
    requires
        starts(name, opts, caller, results),
    ensures
        child_ops(name, opts, caller)->Some_0.take(4) == entering(name),
        forall|i: int| 0 <= i < 4 ==> #[trigger] results(i),
{
    law_starts_only_prepared(name, opts, caller, results);
    assert(child_ops(name, opts, caller)->Some_0.take(4) =~= entering(name));
}

/// What the program does to run a command.
#[derive(Debug, PartialEq, Eq)]
pub enum ExecStep {
    /// Open the file that stands for the namespace.
    OpenNamespace { path: String },
    /// Make sure that the namespace has a name server file: the directory, and the file in it.
    PrepareResolvConf { dir: String, file: String },
    /// Give the command the sanitized environment. For a command that stays root the search path
    /// is cleaned more strictly.
    SanitizeEnv { as_root: bool },
    /// Find out who the calling user is.
    ResolveCaller,
    /// Give the command the variables of the calling user.
    ApplyCallerEnv,
    /// Give the command the variables of root.
    ApplyRootEnv,
    /// Give the command no terminal.
    NullStdio,
    /// Start the command and wait for it.
    Spawn,
}

/// What the program does to run a command, with its texts as sequences.
pub enum ExecStepView {
    OpenNamespace { path: Seq<char> },
    PrepareResolvConf { dir: Seq<char>, file: Seq<char> },
    SanitizeEnv { as_root: bool },
    ResolveCaller,
    ApplyCallerEnv,
    ApplyRootEnv,
    NullStdio,
    Spawn,
}

impl View for ExecStep {
    type V = ExecStepView;

    open spec fn view(&self) -> ExecStepView {
        match self {
            ExecStep::OpenNamespace { path } => ExecStepView::OpenNamespace { path: path@ },
            ExecStep::PrepareResolvConf { dir, file } => ExecStepView::PrepareResolvConf {
                dir: dir@,
                file: file@,
            },
            ExecStep::SanitizeEnv { as_root } => ExecStepView::SanitizeEnv { as_root: *as_root },
            ExecStep::ResolveCaller => ExecStepView::ResolveCaller,
            ExecStep::ApplyCallerEnv => ExecStepView::ApplyCallerEnv,
            ExecStep::ApplyRootEnv => ExecStepView::ApplyRootEnv,
            ExecStep::NullStdio => ExecStepView::NullStdio,
            ExecStep::Spawn => ExecStepView::Spawn,
        }
    }
}

/// The views of a list of steps.
pub open spec fn exec_views(v: Seq<ExecStep>) -> Seq<ExecStepView> {
    Seq::new(v.len(), |i: int| v[i]@)
}

/// What the program does to run a command in the namespace `name`, in order.
pub open spec fn exec_steps(name: Seq<char>, opts: ExecOpts) -> Seq<ExecStepView> {
    let prepare = seq![
        ExecStepView::OpenNamespace { path: ns_path_of(name) },
        ExecStepView::PrepareResolvConf { dir: netns_etc_of(name), file: resolv_conf_of(name) },
        ExecStepView::SanitizeEnv { as_root: opts.run_as == RunAs::Root },
    ];
    let identity = if opts.run_as == RunAs::Caller {
        seq![ExecStepView::ResolveCaller, ExecStepView::ApplyCallerEnv]
    } else {
        seq![ExecStepView::ApplyRootEnv]
    };
    let stdio = if opts.detach {
        seq![ExecStepView::NullStdio]
    } else {
        Seq::empty()
    };
    prepare + identity + stdio + seq![ExecStepView::Spawn]
}

/// The command's process is made only where everything that the program does before has succeeded,
/// and for a command that runs as the user the finding out of that user is among it.
pub proof fn law_spawn_comes_last(
    name: Seq<char>,
    opts: ExecOpts,
    results: spec_fn(int) -> bool,
    k: int,
)
    requires
        0 <= k < exec_steps(name, opts).len(),
        exec_steps(name, opts)[k] is Spawn,
        run(exec_steps(name, opts).len() as usize, results).0.contains(k),
    ensures
        k == exec_steps(name, opts).len() - 1,
        forall|i: int| 0 <= i < k ==> #[trigger] results(i),
        opts.run_as == RunAs::Caller ==> exists|i: int|
            0 <= i < k && #[trigger] exec_steps(name, opts)[i] is ResolveCaller && results(i),
{
    let steps = exec_steps(name, opts);
    assert(steps.len() <= 7);
    law_nothing_behind_a_failure(steps.len() as usize, results, k);
    if opts.run_as == RunAs::Caller {
        assert(steps[3] is ResolveCaller && results(3));
    }
}

/// A command is detached exactly where its options say so: then its process leaves the terminal's
/// session as its last step, and the command gets no terminal. Otherwise it keeps both.
pub proof fn law_detached(name: Seq<char>, opts: ExecOpts, caller: Option<Caller>)
    requires
        child_ops(name, opts, caller) is Some,
    ensures
        opts.detach <==> child_ops(name, opts, caller)->Some_0.last() == ChildOpView::Detach,
        opts.detach <==> child_ops(name, opts, caller)->Some_0.contains(ChildOpView::Detach),
        opts.detach <==> exec_steps(name, opts).contains(ExecStepView::NullStdio),
{
    let ops = child_ops(name, opts, caller)->Some_0;
    let steps = exec_steps(name, opts);
    if opts.detach {
        assert(ops[ops.len() - 1] == ChildOpView::Detach);
        assert(steps[steps.len() - 2] == ExecStepView::NullStdio);
    }
}

/// A command and what is done to run it.
#[derive(Debug)]
pub struct ExecPlan {
    pub program: String,
    pub args: Vec<String>,
    /// What the program does, until a step fails.
    pub steps: Vec<ExecStep>,
}

/// What to say where there is no command.
pub const NO_COMMAND: &'static str = "no command given";

/// The plan for running `cmd`, whose first word is the program, in the namespace `name`. The error
/// is what to say where there is no word.
pub fn exec_in(name: &str, cmd: &Vec<String>, opts: ExecOpts) -> (r: Result<ExecPlan, String>)
    ensures
        match r {
            Ok(plan) => {
                &&& cmd@.len() > 0
                &&& plan.program@ == cmd@[0]@
                &&& seq![plan.program@] + views(plan.args@) == views(cmd@)
                &&& views(plan.args@) == views(cmd@).skip(1)
                &&& exec_views(plan.steps@) == exec_steps(name@, opts)
            },
            Err(text) => cmd@.len() == 0 && text@ == NO_COMMAND@,
        },
{
    if cmd.len() == 0 {
        return Err(NO_COMMAND.to_owned());
    }
    let mut args: Vec<String> = Vec::new();
    let mut i: usize = 1;
    while i < cmd.len()
        invariant
            1 <= i <= cmd.len(),
            args@.len() == i - 1,
            forall|j: int| 0 <= j < i - 1 ==> args@[j]@ == cmd@[j + 1]@,
        decreases cmd.len() - i,
    {
        args.push(cmd[i].clone());
        i = i + 1;
    }
    assert(views(args@) =~= views(cmd@).skip(1));
    assert(seq![cmd@[0]@] + views(args@) =~= views(cmd@));
    let mut steps: Vec<ExecStep> = Vec::new();
    steps.push(ExecStep::OpenNamespace { path: ns_path(name) });
    steps.push(ExecStep::PrepareResolvConf { dir: netns_etc(name), file: resolv_conf(name) });
    steps.push(ExecStep::SanitizeEnv { as_root: opts.run_as == RunAs::Root });
    match opts.run_as {
        RunAs::Caller => {
            steps.push(ExecStep::ResolveCaller);
            steps.push(ExecStep::ApplyCallerEnv);
        },
        RunAs::Root => {
            steps.push(ExecStep::ApplyRootEnv);
        },
    }
    if opts.detach {
        steps.push(ExecStep::NullStdio);
    }
    steps.push(ExecStep::Spawn);
    assert(exec_views(steps@) =~= exec_steps(name@, opts));
    Ok(ExecPlan { program: cmd[0].clone(), args, steps })
}

/// The exit code that a command's end comes to: its own, 128 and the signal that ended it, or 1
/// where it has neither. A detached command's end is not waited for: it comes to 0.
pub fn exit_code(detach: bool, code: Option<i32>, signal: Option<i32>) -> (r: i32)
    requires
        !detach && code is None && signal is Some ==> signal->Some_0 <= i32::MAX - 128,
    ensures
        r == code_of(detach, code, signal),
{
    if detach {
        return 0;
    }
    match code {
        Some(c) => c,
        None => match signal {
            Some(s) => 128 + s,
            None => 1,
        },
    }
}

/// What the dropping of capabilities does next.
#[derive(Clone, Copy, Debug, PartialEq, Eq, Structural)]
pub enum CapAction {
    /// Drop the capability of this number.
    Drop(u64),
    /// All are dropped.
    Done,
    /// This error ends it.
    Fail(i32),
}

/// How many capabilities there can be.
pub const CAP_LIMIT: u64 = 64;

/// What the result of dropping the capability `cap` leads to. `None` is that it was dropped. An
/// invalid argument is that the kernel knows no capability of that number, and none beyond it.
pub open spec fn cap_action(cap: u64, error: Option<i32>) -> CapAction {
    match error {
        None => if cap + 1 < CAP_LIMIT {
            CapAction::Drop((cap + 1) as u64)
        } else {
            CapAction::Done
        },
        Some(e) => if e == 22 {
            CapAction::Done
        } else {
            CapAction::Fail(e)
        },
    }
}

/// The first capability to drop.
pub fn drop_bounding_set() -> (r: CapAction)
    ensures
        r == CapAction::Drop(0),
{
    CapAction::Drop(0)
}

/// Decides what the result of dropping the capability `cap` leads to.
pub fn on_cap_dropped(cap: u64, error: Option<i32>) -> (r: CapAction)
    ensures
        r == cap_action(cap, error),
{
    match error {
        None => if cap < CAP_LIMIT - 1 {
            CapAction::Drop(cap + 1)
        } else {
            CapAction::Done
        },
        Some(e) => if e == einval() {
            CapAction::Done
        } else {
            CapAction::Fail(e)
        },
    }
}

/// What dropping comes to from the capability `cap` on, where `kernel` gives the result for each:
/// the capabilities that were dropped, and the end.
pub open spec fn cap_run(cap: u64, kernel: spec_fn(u64) -> Option<i32>) -> (Set<u64>, CapAction)
    decreases CAP_LIMIT - cap,
{
    let dropped: Set<u64> = if kernel(cap) is None {
        set![cap]
    } else {
        Set::empty()
    };
    match cap_action(cap, kernel(cap)) {
        CapAction::Drop(next) => if cap < next < CAP_LIMIT {
            let rest = cap_run(next, kernel);
            (dropped.union(rest.0), rest.1)
        } else {
            (dropped, CapAction::Done)
        },
        end => (dropped, end),
    }
}

/// A kernel that knows the first `n` capabilities, lets each be dropped and calls any other number
/// invalid is left with none: all that it knows are dropped, and the dropping succeeds.
pub proof fn law_all_capabilities_dropped(n: u64, kernel: spec_fn(u64) -> Option<i32>, c: u64)
    requires
        n <= CAP_LIMIT,
        forall|k: u64| k < n ==> #[trigger] kernel(k) == None::<i32>,
        forall|k: u64| k >= n ==> #[trigger] kernel(k) == Some(22i32),
    ensures
        cap_run(0, kernel).1 == CapAction::Done,
        c < n ==> cap_run(0, kernel).0.contains(c),
{
    lemma_caps_dropped(0, n, kernel, c);
}

/// The first error other than an invalid argument ends the dropping, and it fails with that error.
pub proof fn law_capability_error(m: u64, kernel: spec_fn(u64) -> Option<i32>, e: i32)
    requires
        m < CAP_LIMIT,
        forall|k: u64| k < m ==> #[trigger] kernel(k) == None::<i32>,
        kernel(m) == Some(e),
        e != 22,
    ensures
        cap_run(0, kernel).1 == CapAction::Fail(e),
{
    lemma_cap_error(0, m, kernel, e);
}

proof fn lemma_cap_error(from: u64, m: u64, kernel: spec_fn(u64) -> Option<i32>, e: i32)
    requires
        from <= m < CAP_LIMIT,
        forall|k: u64| k < m ==> #[trigger] kernel(k) == None::<i32>,
        kernel(m) == Some(e),
        e != 22,
    ensures
        cap_run(from, kernel).1 == CapAction::Fail(e),
    decreases m - from,
{
    if from < m {
        lemma_cap_error((from + 1) as u64, m, kernel, e);
    }
}

proof fn lemma_caps_dropped(from: u64, n: u64, kernel: spec_fn(u64) -> Option<i32>, c: u64)
    requires
        from < CAP_LIMIT,
        n <= CAP_LIMIT,
        forall|k: u64| k < n ==> #[trigger] kernel(k) == None::<i32>,
        forall|k: u64| k >= n ==> #[trigger] kernel(k) == Some(22i32),
    ensures
        cap_run(from, kernel).1 == CapAction::Done,
        from <= c < n ==> cap_run(from, kernel).0.contains(c),
    decreases CAP_LIMIT - from,
{
    if from < n && from + 1 < CAP_LIMIT {
        lemma_caps_dropped((from + 1) as u64, n, kernel, c);
    }
}

/// What the lock-down does next.
#[derive(Clone, Copy, Debug, PartialEq, Eq, Structural)]
pub enum LockAction {
    /// Clear the capabilities that are handed on.
    ClearAmbient,
    /// Forbid programs to raise privileges.
    ForbidNewPrivileges,
    /// Try to become root, which must fail.
    TryRoot,
    /// The process is locked down.
    Done,
    /// This error ends it.
    Fail(i32),
}

/// What the result of a step leads to. `None` is that the call succeeded.
pub open spec fn lock_action(step: LockAction, error: Option<i32>) -> LockAction {
    match (step, error) {
        (LockAction::ClearAmbient, None) => LockAction::ForbidNewPrivileges,
        (LockAction::ClearAmbient, Some(e)) => LockAction::Fail(e),
        (LockAction::ForbidNewPrivileges, None) => LockAction::TryRoot,
        (LockAction::ForbidNewPrivileges, Some(e)) => LockAction::Fail(e),
        (LockAction::TryRoot, None) => LockAction::Fail(1),
        (LockAction::TryRoot, Some(_)) => LockAction::Done,
        (end, _) => end,
    }
}

/// The first step of the lock-down.
pub fn lock_down() -> (r: LockAction)
    ensures
        r == LockAction::ClearAmbient,
{
    LockAction::ClearAmbient
}

/// Decides what the result of a step of the lock-down leads to.
pub fn on_locked(step: LockAction, error: Option<i32>) -> (r: LockAction)
    ensures
        r == lock_action(step, error),
{
    match (step, error) {
        (LockAction::ClearAmbient, None) => LockAction::ForbidNewPrivileges,
        (LockAction::ClearAmbient, Some(e)) => LockAction::Fail(e),
        (LockAction::ForbidNewPrivileges, None) => LockAction::TryRoot,
        (LockAction::ForbidNewPrivileges, Some(e)) => LockAction::Fail(e),
        (LockAction::TryRoot, None) => LockAction::Fail(eperm()),
        (LockAction::TryRoot, Some(_)) => LockAction::Done,
        (end, _) => end,
    }
}

/// What the lock-down comes to, where its three calls have these results.
pub open spec fn lock_run(
    ambient: Option<i32>,
    privileges: Option<i32>,
    root: Option<i32>,
) -> LockAction {
    let second = lock_action(LockAction::ClearAmbient, ambient);
    if second == LockAction::ForbidNewPrivileges {
        let third = lock_action(second, privileges);
        if third == LockAction::TryRoot {
            lock_action(third, root)
        } else {
            third
        }
    } else {
        second
    }
}

/// The lock-down succeeds exactly where the capabilities were cleared, new privileges were
/// forbidden and root could not be regained. In every other case it fails.
pub proof fn law_lock_down(ambient: Option<i32>, privileges: Option<i32>, root: Option<i32>)
    ensures
        lock_run(ambient, privileges, root) == LockAction::Done <==> (ambient is None && privileges
            is None && root is Some),
        lock_run(ambient, privileges, root) != LockAction::Done ==> lock_run(
            ambient,
            privileges,
            root,
        ) is Fail,
{
}

/// What a process does after it has divided in order to detach.
#[derive(Clone, Copy, Debug, PartialEq, Eq, Structural)]
pub enum ForkAction {
    /// It did not divide: report the error.
    Fail,
    /// It is the new process: begin a session of its own.
    NewSession,
    /// It is the old process: exit with success.
    Exit,
}

/// Decides what a process does after it has divided, by what the call returned to it.
pub fn on_forked(returned: i32) -> (r: ForkAction)
    ensures
        r == fork_action(returned),
{
    if returned == -1 {
        ForkAction::Fail
    } else if returned == 0 {
        ForkAction::NewSession
    } else {
        ForkAction::Exit
    }
}

/// The exit code that a command's end comes to.
pub open spec fn code_of(detach: bool, code: Option<i32>, signal: Option<i32>) -> int {
    if detach {
        0
    } else if code is Some {
        code->Some_0 as int
    } else if signal is Some {
        128 + signal->Some_0
    } else {
        1
    }
}

/// A command's own exit code is handed on as it is, whichever it is, and a signal that ended it can be
/// read from the code. A detached command counts as a success.
pub proof fn law_exit_code(detach: bool, code: Option<i32>, signal: Option<i32>)
    ensures
        detach ==> code_of(detach, code, signal) == 0,
        !detach && code is Some ==> code_of(detach, code, signal) == code->Some_0,
        !detach && code is None && signal is Some ==> code_of(detach, code, signal) - 128
            == signal->Some_0,
        !detach && code is None && signal is None ==> code_of(detach, code, signal) == 1,
{
}

/// What a process does after it has divided, by what the call returned to it.
pub open spec fn fork_action(returned: i32) -> ForkAction {
    if returned == -1 {
        ForkAction::Fail
    } else if returned == 0 {
        ForkAction::NewSession
    } else {
        ForkAction::Exit
    }
}

/// Of the two processes that a division leaves, the new one goes on, in a session of its own, and the old
/// one, which is told the other's number, exits. A division that failed is reported.
pub proof fn law_fork(pid: i32)
    ensures
        pid > 0 ==> fork_action(pid) is Exit,
        fork_action(0) is NewSession,
        fork_action(pid) is NewSession <==> pid == 0,
        fork_action(pid) is Fail <==> pid == -1,
{
}

/// The capabilities are dropped one after the other by rising numbers, none is left out, and the last is
/// number 63. Only a number that the kernel does not know ends the dropping before, and any other error
/// ends it as a failure with that error.
pub proof fn law_next_capability(cap: u64, error: Option<i32>)
    requires
        cap < 64,
    ensures
        error is None && cap < 63 ==> cap_action(cap, error) == CapAction::Drop((cap + 1) as u64),
        cap_action(63, None) == CapAction::Done,
        error is Some ==> (cap_action(cap, error) == CapAction::Done <==> error == Some(22i32)),
        error matches Some(e) ==> e != 22 ==> cap_action(cap, error) == CapAction::Fail(e),
{
}

/// The lock-down fails with the error of the first call that fails, and where root could be regained as
/// not permitted.
pub proof fn law_lock_down_errors(
    ambient: Option<i32>,
    privileges: Option<i32>,
    root: Option<i32>,
)
    ensures
        ambient matches Some(e) ==> lock_run(ambient, privileges, root) == LockAction::Fail(e),
        ambient is None ==> (privileges matches Some(e) ==> lock_run(ambient, privileges, root)
            == LockAction::Fail(e)),
        ambient is None && privileges is None && root is None ==> lock_run(ambient, privileges, root)
            == LockAction::Fail(1),
{
}

/// An end of the lock-down is an end: nothing leads on from it.
pub proof fn law_lock_down_ends(e: i32, error: Option<i32>)
    ensures
        lock_action(LockAction::Done, error) == LockAction::Done,
        lock_action(LockAction::Fail(e), error) == LockAction::Fail(e),
{
}

/// The view of a step says all that the step holds.
pub proof fn law_step_views(op: ChildOp, step: ExecStep)
    ensures
        op matches ChildOp::EnterNamespace { path } ==> op@ == (ChildOpView::EnterNamespace {
            path: path@,
        }),
        op matches ChildOp::BindResolvConf { source, target } ==> op@ == (ChildOpView::BindResolvConf {
            source: source@,
            target: target@,
        }),
        op matches ChildOp::SetGroups { groups } ==> op@ == (ChildOpView::SetGroups {
            groups: groups@,
        }),
        op matches ChildOp::SetGid { gid } ==> op@ == (ChildOpView::SetGid { gid }),
        op matches ChildOp::SetUid { uid } ==> op@ == (ChildOpView::SetUid { uid }),
        op is UnshareMounts <==> op@ is UnshareMounts,
        op is MakeMountsPrivate <==> op@ is MakeMountsPrivate,
        op is DropBoundingSet <==> op@ is DropBoundingSet,
        op is LockDown <==> op@ is LockDown,
        op is Detach <==> op@ is Detach,
        step matches ExecStep::OpenNamespace { path } ==> step@ == (ExecStepView::OpenNamespace {
            path: path@,
        }),
        step matches ExecStep::PrepareResolvConf { dir, file } ==> step@ == (
        ExecStepView::PrepareResolvConf { dir: dir@, file: file@ }),
        step matches ExecStep::SanitizeEnv { as_root } ==> step@ == (ExecStepView::SanitizeEnv {
            as_root,
        }),
        step is ResolveCaller <==> step@ is ResolveCaller,
        step is ApplyCallerEnv <==> step@ is ApplyCallerEnv,
        step is ApplyRootEnv <==> step@ is ApplyRootEnv,
        step is NullStdio <==> step@ is NullStdio,
        step is Spawn <==> step@ is Spawn,
{
}

} // verus!
