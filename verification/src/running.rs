//! What the steps of running a command come to: a model of the program and of the command's process,
//! and the state in which the command starts.

use vstd::prelude::*;
use crate::caller::Caller;
use crate::exec::{child_ops, exec_steps, ChildOpView, ExecOpts, ExecStepView, RunAs};
use crate::netns::{netns_etc_of, ns_path_of, resolv_conf_of, HOST_RESOLV_CONF};

verus! {

/// A process, as far as the steps before a command change it.
pub struct Proc {
    /// The file that stands for its network namespace. `None` is the host's own.
    pub netns: Option<Seq<char>>,
    /// Whether its mounts are its own.
    pub own_mounts: bool,
    /// Whether what it mounts stays with it.
    pub private: bool,
    /// What it sees in place of other files.
    pub binds: Map<Seq<char>, Seq<char>>,
    /// Whether it has given up every capability that a later program could regain.
    pub bounded: bool,
    /// Its groups. `None` are those that root started with.
    pub groups: Option<Seq<u32>>,
    pub gid: u32,
    pub uid: u32,
    /// Whether it can no longer raise its privileges.
    pub locked: bool,
    /// Whether it is in a session of its own.
    pub session: bool,
    /// Whether something that it did to mounts shows on the host.
    pub leaked: bool,
    /// Whether it tried what it was not allowed to do.
    pub refused: bool,
}

/// The process before its first step: root, on the host.
pub open spec fn fresh_proc() -> Proc {
    Proc {
        netns: None,
        own_mounts: false,
        private: false,
        binds: Map::empty(),
        bounded: false,
        groups: None,
        gid: 0,
        uid: 0,
        locked: false,
        session: false,
        leaked: false,
        refused: false,
    }
}

impl Proc {
    /// The process after a step that only root can take, where `next` is what the step makes of it.
    pub open spec fn as_root(self, next: Proc) -> Proc {
        if self.uid == 0 && !self.locked {
            next
        } else {
            Proc { refused: true, ..self }
        }
    }

    /// The process after a step.
    pub open spec fn after(self, op: ChildOpView) -> Proc {
        match op {
            ChildOpView::EnterNamespace { path } => self.as_root(
                Proc { netns: Some(path), ..self },
            ),
            ChildOpView::UnshareMounts => self.as_root(Proc { own_mounts: true, ..self }),
            ChildOpView::MakeMountsPrivate => self.as_root(
                Proc { private: true, leaked: self.leaked || !self.own_mounts, ..self },
            ),
            ChildOpView::BindResolvConf { source, target } => self.as_root(
                Proc {
                    binds: self.binds.insert(target, source),
                    leaked: self.leaked || !self.own_mounts || !self.private,
                    ..self
                },
            ),
            ChildOpView::DropBoundingSet => self.as_root(Proc { bounded: true, ..self }),
            ChildOpView::SetGroups { groups } => self.as_root(
                Proc { groups: Some(groups), ..self },
            ),
            ChildOpView::SetGid { gid } => self.as_root(Proc { gid, ..self }),
            ChildOpView::SetUid { uid } => self.as_root(Proc { uid, ..self }),
            ChildOpView::LockDown => if self.uid == 0 {
                Proc { refused: true, ..self }
            } else {
                Proc { locked: true, ..self }
            },
            ChildOpView::Detach => Proc { session: true, ..self },
        }
    }
}

/// The process after the steps from `i` on.
pub open spec fn proc_after(ops: Seq<ChildOpView>, i: int, p: Proc) -> Proc
    decreases ops.len() - i,
{
    if 0 <= i < ops.len() {
        proc_after(ops, i + 1, p.after(ops[i]))
    } else {
        p
    }
}

/// Whom a command runs as, where it runs: `None` is root.
pub open spec fn identity(opts: ExecOpts, caller: Option<Caller>) -> Option<Caller> {
    match opts.run_as {
        RunAs::Root => None,
        RunAs::Caller => caller,
    }
}

/// The process that a command starts from is in the namespace `name`, and sees that namespace's name
/// server file in place of the host's without anything showing on the host. Where it runs as the user
/// it has that user's groups, group and identity, has no capability to regain and is locked down.
/// Where it stays root none of that is changed. It has a session of its own exactly where it is
/// detached. No step is refused on the way.
pub proof fn law_child_run(name: Seq<char>, opts: ExecOpts, caller: Option<Caller>)
    requires
        child_ops(name, opts, caller) is Some,
        opts.run_as == RunAs::Caller ==> caller->Some_0.uid != 0,
    ensures
        ({
            let who = identity(opts, caller);
            proc_after(child_ops(name, opts, caller)->Some_0, 0, fresh_proc()) == (Proc {
                netns: Some(ns_path_of(name)),
                own_mounts: true,
                private: true,
                binds: map![HOST_RESOLV_CONF@ => resolv_conf_of(name)],
                bounded: who is Some,
                groups: match who {
                    Some(c) => Some(c.groups@),
                    None => None,
                },
                gid: match who {
                    Some(c) => c.gid,
                    None => 0,
                },
                uid: match who {
                    Some(c) => c.uid,
                    None => 0,
                },
                locked: who is Some,
                session: opts.detach,
                leaked: false,
                refused: false,
            })
        }),
{
    reveal_with_fuel(proc_after, 11);
    let end = proc_after(child_ops(name, opts, caller)->Some_0, 0, fresh_proc());
    assert(end.binds =~= map![HOST_RESOLV_CONF@ => resolv_conf_of(name)]);
}

/// There are steps for a command exactly where it is known whom it runs as, and whether it is detached
/// changes nothing of them but the last.
pub proof fn law_child_known(name: Seq<char>, run_as: RunAs, caller: Option<Caller>)
    ensures
        ({
            let attached = child_ops(name, ExecOpts { run_as, detach: false }, caller);
            let detached = child_ops(name, ExecOpts { run_as, detach: true }, caller);
            &&& attached is Some <==> run_as == RunAs::Root || caller is Some
            &&& detached is Some <==> attached is Some
            &&& attached matches Some(ops) ==> detached->Some_0 == ops.push(ChildOpView::Detach)
        }),
{
    let attached = child_ops(name, ExecOpts { run_as, detach: false }, caller);
    let detached = child_ops(name, ExecOpts { run_as, detach: true }, caller);
    if attached is Some {
        assert(detached->Some_0 =~= attached->Some_0.push(ChildOpView::Detach));
    }
}

/// The environment that a command would get.
pub enum EnvState {
    /// The whole inherited one.
    Inherited,
    /// What is left of it, with a search path cleaned for root or for a user.
    Sanitized { as_root: bool },
    /// The sanitized one with the calling user's variables.
    Callers,
    /// The sanitized one with root's variables.
    Roots,
}

/// What the program has come to in running a command.
pub struct Prepared {
    /// The file that it opened.
    pub opened: Option<Seq<char>>,
    /// The directory and the file that it made sure of.
    pub resolv: Option<(Seq<char>, Seq<char>)>,
    pub env: EnvState,
    /// Whether the calling user is known.
    pub known: bool,
    /// Whether the command gets no terminal.
    pub silent: bool,
    /// Whether the command was started.
    pub spawned: bool,
    /// Whether a step came too early, too late or twice.
    pub wrong: bool,
}

/// The program before its first step.
pub open spec fn unprepared() -> Prepared {
    Prepared {
        opened: None,
        resolv: None,
        env: EnvState::Inherited,
        known: false,
        silent: false,
        spawned: false,
        wrong: false,
    }
}

impl Prepared {
    /// The program after a step that has its place where `fits` holds.
    pub open spec fn next(self, fits: bool, next: Prepared) -> Prepared {
        if fits && !self.spawned {
            next
        } else {
            Prepared { wrong: true, ..self }
        }
    }

    /// The program after a step.
    pub open spec fn after(self, step: ExecStepView) -> Prepared {
        match step {
            ExecStepView::OpenNamespace { path } => self.next(
                self.opened is None,
                Prepared { opened: Some(path), ..self },
            ),
            ExecStepView::PrepareResolvConf { dir, file } => self.next(
                self.opened is Some && self.resolv is None,
                Prepared { resolv: Some((dir, file)), ..self },
            ),
            ExecStepView::SanitizeEnv { as_root } => self.next(
                self.env is Inherited,
                Prepared { env: EnvState::Sanitized { as_root }, ..self },
            ),
            ExecStepView::ResolveCaller => self.next(!self.known, Prepared { known: true, ..self }),
            ExecStepView::ApplyCallerEnv => self.next(
                self.known && self.env == (EnvState::Sanitized { as_root: false }),
                Prepared { env: EnvState::Callers, ..self },
            ),
            ExecStepView::ApplyRootEnv => self.next(
                self.env == (EnvState::Sanitized { as_root: true }),
                Prepared { env: EnvState::Roots, ..self },
            ),
            ExecStepView::NullStdio => self.next(!self.silent, Prepared { silent: true, ..self }),
            ExecStepView::Spawn => self.next(
                self.opened is Some && self.resolv is Some,
                Prepared { spawned: true, ..self },
            ),
        }
    }
}

/// The program after the steps from `i` on.
pub open spec fn prepared_after(steps: Seq<ExecStepView>, i: int, p: Prepared) -> Prepared
    decreases steps.len() - i,
{
    if 0 <= i < steps.len() {
        prepared_after(steps, i + 1, p.after(steps[i]))
    } else {
        p
    }
}

/// A command is started once, as the last step, with the namespace `name` opened and its name server
/// file made sure of. One that runs as the user gets the sanitized environment with that user's
/// variables, and one that stays root the one with root's, whether or not it is detached. Only a
/// detached one gets no terminal. Every step has its place.
pub proof fn law_exec_run(name: Seq<char>, opts: ExecOpts)
    ensures
        prepared_after(exec_steps(name, opts), 0, unprepared()) == (Prepared {
            opened: Some(ns_path_of(name)),
            resolv: Some((netns_etc_of(name), resolv_conf_of(name))),
            env: match opts.run_as {
                RunAs::Caller => EnvState::Callers,
                RunAs::Root => EnvState::Roots,
            },
            known: opts.run_as == RunAs::Caller,
            silent: opts.detach,
            spawned: true,
            wrong: false,
        }),
{
    reveal_with_fuel(prepared_after, 8);
}

/// Whether a command is detached changes nothing of what the program does but that it gets no terminal,
/// which is the step before it starts.
pub proof fn law_exec_detached(name: Seq<char>, run_as: RunAs)
    ensures
        ({
            let attached = exec_steps(name, ExecOpts { run_as, detach: false });
            let detached = exec_steps(name, ExecOpts { run_as, detach: true });
            &&& attached.last() is Spawn
            &&& detached == attached.drop_last().push(ExecStepView::NullStdio).push(
                ExecStepView::Spawn,
            )
        }),
{
    let attached = exec_steps(name, ExecOpts { run_as, detach: false });
    let detached = exec_steps(name, ExecOpts { run_as, detach: true });
    assert(detached =~= attached.drop_last().push(ExecStepView::NullStdio).push(
        ExecStepView::Spawn,
    ));
}

} // verus!
