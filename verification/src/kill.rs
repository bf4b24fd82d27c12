//! Ending everything that still runs in the namespace.
//!
//! Every process is asked to end, and given two seconds. Then up to five sweeps kill what is
//! there, so that what was started in between is caught.

use vstd::prelude::*;
use crate::abi::{sigkill, sigterm};

verus! {

/// How long processes have to end once they were asked to, in milliseconds.
pub const GRACE_MS: u64 = 2000;

/// How long to wait between two looks, in milliseconds.
pub const PAUSE_MS: u64 = 100;

/// How many sweeps there are at most.
pub const SWEEPS: u8 = 5;

/// What the processes are listed for.
#[derive(Clone, Copy, Debug, PartialEq, Eq, Structural)]
pub enum Looking {
    /// To see whether there are any.
    First,
    /// To see whether those that were asked to end have ended.
    Waiting,
    /// For the sweep of this number.
    Sweep(u8),
}

/// What the processes were sent a signal for.
#[derive(Clone, Copy, Debug, PartialEq, Eq, Structural)]
pub enum Signalled {
    /// They were asked to end.
    Asked,
    /// The sweep of this number killed them.
    Sweep(u8),
}

/// What a pause was for.
#[derive(Clone, Copy, Debug, PartialEq, Eq, Structural)]
pub enum Paused {
    /// For those that were asked to end.
    Waiting,
    /// For the sweep of this number.
    Sweep(u8),
}

/// What to do next.
#[derive(Debug)]
pub enum KillAction {
    /// List the processes of the namespace.
    List(Looking),
    /// Send a signal to each of these processes. A process that is gone does not matter.
    Signal { signal: i32, pids: Vec<i32>, as_part: Signalled },
    /// Start the clock, and read it.
    StartClock,
    /// Read the clock.
    ReadClock,
    /// Wait for so many milliseconds.
    Pause { ms: u64, why: Paused },
    /// It is over.
    Done,
}

/// What to do next, with its list as a sequence.
pub enum KillActionView {
    List(Looking),
    Signal { signal: i32, pids: Seq<i32>, as_part: Signalled },
    StartClock,
    ReadClock,
    Pause { ms: u64, why: Paused },
    Done,
}

impl View for KillAction {
    type V = KillActionView;

    open spec fn view(&self) -> KillActionView {
        match self {
            KillAction::List(l) => KillActionView::List(*l),
            KillAction::Signal { signal, pids, as_part } => KillActionView::Signal {
                signal: *signal,
                pids: pids@,
                as_part: *as_part,
            },
            KillAction::StartClock => KillActionView::StartClock,
            KillAction::ReadClock => KillActionView::ReadClock,
            KillAction::Pause { ms, why } => KillActionView::Pause { ms: *ms, why: *why },
            KillAction::Done => KillActionView::Done,
        }
    }
}

/// What a list of processes leads to.
pub open spec fn list_action(why: Looking, pids: Seq<i32>) -> KillActionView {
    match why {
        Looking::First => if pids.len() == 0 {
            KillActionView::List(Looking::Sweep(0))
        } else {
            KillActionView::Signal { signal: 15, pids, as_part: Signalled::Asked }
        },
        Looking::Waiting => if pids.len() == 0 {
            KillActionView::List(Looking::Sweep(0))
        } else {
            KillActionView::Pause { ms: PAUSE_MS, why: Paused::Waiting }
        },
        Looking::Sweep(n) => if pids.len() == 0 {
            KillActionView::Done
        } else {
            KillActionView::Signal { signal: 9, pids, as_part: Signalled::Sweep(n) }
        },
    }
}

/// What comes after a signal.
pub open spec fn signal_action(why: Signalled) -> KillActionView {
    match why {
        Signalled::Asked => KillActionView::StartClock,
        Signalled::Sweep(n) => KillActionView::Pause { ms: PAUSE_MS, why: Paused::Sweep(n) },
    }
}

/// What the clock leads to.
pub open spec fn clock_action(elapsed_ms: u64) -> KillActionView {
    if elapsed_ms < GRACE_MS {
        KillActionView::List(Looking::Waiting)
    } else {
        KillActionView::List(Looking::Sweep(0))
    }
}

/// What comes after a pause.
pub open spec fn pause_action(why: Paused) -> KillActionView {
    match why {
        Paused::Waiting => KillActionView::ReadClock,
        Paused::Sweep(n) => if n + 1 < SWEEPS {
            KillActionView::List(Looking::Sweep((n + 1) as u8))
        } else {
            KillActionView::Done
        },
    }
}

/// The first thing to do.
pub fn kill_all() -> (r: KillAction)
    ensures
        r@ == KillActionView::List(Looking::First),
{
    KillAction::List(Looking::First)
}

/// Decides what a list of the processes in the namespace leads to.
pub fn on_listed(why: Looking, pids: Vec<i32>) -> (r: KillAction)
    ensures
        r@ == list_action(why, pids@),
{
    if pids.len() == 0 {
        match why {
            Looking::First | Looking::Waiting => KillAction::List(Looking::Sweep(0)),
            Looking::Sweep(_) => KillAction::Done,
        }
    } else {
        match why {
            Looking::First => KillAction::Signal {
                signal: sigterm(),
                pids,
                as_part: Signalled::Asked,
            },
            Looking::Waiting => KillAction::Pause { ms: PAUSE_MS, why: Paused::Waiting },
            Looking::Sweep(n) => KillAction::Signal {
                signal: sigkill(),
                pids,
                as_part: Signalled::Sweep(n),
            },
        }
    }
}

/// Decides what comes after a signal was sent.
pub fn on_signalled(why: Signalled) -> (r: KillAction)
    ensures
        r@ == signal_action(why),
{
    match why {
        Signalled::Asked => KillAction::StartClock,
        Signalled::Sweep(n) => KillAction::Pause { ms: PAUSE_MS, why: Paused::Sweep(n) },
    }
}

/// Decides what the clock leads to, by the milliseconds since it was started.
pub fn on_clock(elapsed_ms: u64) -> (r: KillAction)
    ensures
        r@ == clock_action(elapsed_ms),
{
    if elapsed_ms < GRACE_MS {
        KillAction::List(Looking::Waiting)
    } else {
        KillAction::List(Looking::Sweep(0))
    }
}

/// Decides what comes after a pause.
pub fn on_paused(why: Paused) -> (r: KillAction)
    ensures
        r@ == pause_action(why),
{
    match why {
        Paused::Waiting => KillAction::ReadClock,
        Paused::Sweep(n) => if n < SWEEPS - 1 {
            KillAction::List(Looking::Sweep(n + 1))
        } else {
            KillAction::Done
        },
    }
}

/// The lists of processes that the sweeps kill, from sweep `n` on, where `lists` tells what is
/// there at each sweep.
pub open spec fn killed(n: u8, lists: spec_fn(u8) -> Seq<i32>) -> Seq<Seq<i32>>
    decreases SWEEPS - n,
{
    match list_action(Looking::Sweep(n), lists(n)) {
        KillActionView::Signal { signal, pids, as_part } => {
            let now = if signal == 9 {
                seq![pids]
            } else {
                Seq::empty()
            };
            match signal_action(as_part) {
                KillActionView::Pause { ms, why } => match pause_action(why) {
                    KillActionView::List(Looking::Sweep(next)) => if n < next < SWEEPS {
                        now + killed(next, lists)
                    } else {
                        now
                    },
                    _ => now,
                },
                _ => now,
            }
        },
        _ => Seq::empty(),
    }
}

/// Each sweep kills every process that is there. The sweeps stop at the first that finds none, and
/// in any case after the fifth.
pub proof fn law_sweeps(lists: spec_fn(u8) -> Seq<i32>)
    ensures
        ({
            let k = killed(0, lists);
            &&& k.len() <= SWEEPS
            &&& forall|i: int|
                0 <= i < k.len() ==> #[trigger] k[i] == lists(i as u8) && k[i].len() > 0
            &&& k.len() < SWEEPS ==> lists(k.len() as u8).len() == 0
        }),
{
    lemma_sweeps(0, lists);
}

proof fn lemma_sweeps(n: u8, lists: spec_fn(u8) -> Seq<i32>)
    requires
        n < SWEEPS,
    ensures
        ({
            let k = killed(n, lists);
            &&& k.len() <= SWEEPS - n
            &&& forall|i: int|
                0 <= i < k.len() ==> #[trigger] k[i] == lists((n + i) as u8) && k[i].len() > 0
            &&& k.len() < SWEEPS - n ==> lists((n + k.len()) as u8).len() == 0
        }),
    decreases SWEEPS - n,
{
    if lists(n).len() > 0 && n + 1 < SWEEPS {
        let m = (n + 1) as u8;
        lemma_sweeps(m, lists);
        let rest = killed(m, lists);
        let k = killed(n, lists);
        assert(k =~= seq![lists(n)] + rest);
        assert forall|i: int| 0 <= i < k.len() implies #[trigger] k[i] == lists((n + i) as u8)
            && k[i].len() > 0 by {
            if i > 0 {
                assert(k[i] == rest[i - 1]);
            }
        }
    } else if lists(n).len() > 0 {
        assert(killed(n, lists) =~= seq![lists(n)]);
    }
}

/// How many pauses there are before the sweeps, from the pause of number `k` on and up to `b`,
/// where `clock` tells what is read before each pause and `lists` what is there then.
pub open spec fn pauses(
    k: nat,
    b: nat,
    clock: spec_fn(nat) -> u64,
    lists: spec_fn(nat) -> Seq<i32>,
) -> nat
    decreases b - k,
{
    if clock_action(clock(k)) == KillActionView::List(Looking::Waiting) && list_action(
        Looking::Waiting,
        lists(k),
    ) == (KillActionView::Pause { ms: PAUSE_MS, why: Paused::Waiting }) && pause_action(
        Paused::Waiting,
    ) == KillActionView::ReadClock && k < b {
        pauses(k + 1, b, clock, lists)
    } else {
        k
    }
}

/// Whether there is time left and something still runs.
pub open spec fn is_waiting(elapsed_ms: u64, pids: Seq<i32>) -> bool {
    elapsed_ms < GRACE_MS && pids.len() > 0
}

/// What was asked to end is left alone until it has ended or its time is over: before each pause
/// there was time left and something still ran, and the sweeps begin once one of the two is no
/// longer so. `b` is some reading of the clock at which the time is over.
pub proof fn law_grace(clock: spec_fn(nat) -> u64, lists: spec_fn(nat) -> Seq<i32>, b: nat)
    requires
        clock(b) >= GRACE_MS,
    ensures
        ({
            let e = pauses(0, b, clock, lists);
            &&& e <= b
            &&& forall|j: nat| j < e ==> #[trigger] is_waiting(clock(j), lists(j))
            &&& !is_waiting(clock(e), lists(e))
        }),
{
    lemma_grace(0, b, clock, lists);
}

proof fn lemma_grace(k: nat, b: nat, clock: spec_fn(nat) -> u64, lists: spec_fn(nat) -> Seq<i32>)
    requires
        k <= b,
        clock(b) >= GRACE_MS,
    ensures
        ({
            let e = pauses(k, b, clock, lists);
            &&& k <= e <= b
            &&& forall|j: nat| k <= j < e ==> #[trigger] is_waiting(clock(j), lists(j))
            &&& !is_waiting(clock(e), lists(e))
        }),
    decreases b - k,
{
    if is_waiting(clock(k), lists(k)) {
        lemma_grace(k + 1, b, clock, lists);
        let e = pauses(k, b, clock, lists);
        assert(e == pauses(k + 1, b, clock, lists));
        assert forall|j: nat| k <= j < e implies #[trigger] is_waiting(clock(j), lists(j)) by {
            if j > k {
                assert(k + 1 <= j);
            }
        }
    }
}

/// Whatever the processes were listed for, a signal goes to every one that is listed and to no other.
/// They are asked to end exactly on the first look and killed exactly by a sweep, and there is a signal
/// in both cases wherever some process is there. Where none is, the first look and the waiting go on to
/// the sweeps and a sweep is the end.
pub proof fn law_signals(why: Looking, pids: Seq<i32>)
    ensures
        ({
            let next = list_action(why, pids);
            &&& next is Signal <==> pids.len() > 0 && !(why is Waiting)
            &&& next is Signal ==> next->Signal_pids == pids
            &&& next is Signal ==> next->signal == if why is First {
                15i32
            } else {
                9i32
            }
            &&& next is Signal ==> next->as_part == match why {
                Looking::Sweep(n) => Signalled::Sweep(n),
                _ => Signalled::Asked,
            }
            &&& pids.len() == 0 && why is Sweep ==> next is Done
            &&& pids.len() == 0 && !(why is Sweep) ==> next == KillActionView::List(Looking::Sweep(0))
            &&& pids.len() > 0 && why is Waiting ==> next == (KillActionView::Pause {
                ms: 100,
                why: Paused::Waiting,
            })
        }),
{
}

/// What was asked to end is waited for by the clock, which starts then. Every wait takes a tenth of a
/// second. The waiting is over after two seconds, and a killing sweep is followed by the next one until
/// there were five.
pub proof fn law_waits(elapsed_ms: u64, n: u8)
    ensures
        signal_action(Signalled::Asked) is StartClock,
        signal_action(Signalled::Sweep(n)) == (KillActionView::Pause { ms: 100, why: Paused::Sweep(n) }),
        clock_action(elapsed_ms) == KillActionView::List(
            if elapsed_ms < 2000 {
                Looking::Waiting
            } else {
                Looking::Sweep(0)
            },
        ),
        pause_action(Paused::Waiting) is ReadClock,
        n < 4 ==> pause_action(Paused::Sweep(n)) == KillActionView::List(Looking::Sweep((n + 1) as u8)),
        n >= 4 ==> pause_action(Paused::Sweep(n)) is Done,
{
}

/// The view of an action says all that the action holds.
pub proof fn law_kill_view(action: KillAction)
    ensures
        action matches KillAction::Signal { signal, pids, as_part } ==> action@ == (
        KillActionView::Signal { signal, pids: pids@, as_part }),
        action matches KillAction::List(why) ==> action@ == KillActionView::List(why),
        action matches KillAction::Pause { ms, why } ==> action@ == (KillActionView::Pause { ms, why }),
        action is StartClock <==> action@ is StartClock,
        action is ReadClock <==> action@ is ReadClock,
        action is Done <==> action@ is Done,
{
}

} // verus!
