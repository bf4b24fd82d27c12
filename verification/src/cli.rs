//! What the subcommands do, and what they say.

use vstd::prelude::*;
use crate::exec::{ExecOpts, RunAs};
use crate::number::{decimal, decimal_i32, decimal_of, decimal_of_int, law_decimal};
use crate::process::{process_views, NsProcess, NsProcessView};
use crate::text::{at, has_prefix, joined, led, lemma_pieces_joined, opt_chars, pieces, views};

verus! {

/// The name of the namespace.
pub const NS: &'static str = "fishnetns";

/// A part of bringing the namespace up or taking it down.
#[derive(Clone, Copy, Debug, PartialEq, Eq, Structural)]
pub enum Task {
    /// End everything that runs in the namespace.
    KillAll,
    /// Remove the rules and put the forwarding settings back.
    TeardownFirewall,
    /// Remove the pair of links.
    TeardownHostSide,
    /// Remove the namespace.
    DeleteNamespace,
    /// Make the namespace.
    CreateNamespace,
    /// Make the pair of links, and set up the host's end.
    SetupHostSide,
    /// Find the interface that leads to the internet.
    DetectUplink,
    /// Enable forwarding.
    EnableForwarding,
    /// Add the rules.
    SetupNat,
    /// Set up the namespace's end of the pair.
    SetupNsSide,
}

/// A part, and whether everything ends where it fails. Where it need not succeed, a failure is
/// passed over.
#[derive(Clone, Copy, Debug, PartialEq, Eq, Structural)]
pub struct TaskStep {
    pub task: Task,
    pub must_succeed: bool,
}

impl TaskStep {
    /// Tells whether the next part is tried, by whether this one succeeded.
    pub fn goes_on(&self, succeeded: bool) -> (r: bool)
        ensures
            r == self.continues(succeeded),
    {
        succeeded || !self.must_succeed
    }

    /// Whether the next part is tried, by whether this one succeeded.
    pub open spec fn continues(self, succeeded: bool) -> bool {
        succeeded || !self.must_succeed
    }
}

/// How many of the parts are tried, where `results` tells which of them succeed.
pub open spec fn tried(steps: Seq<TaskStep>, results: spec_fn(Task) -> bool) -> nat
    decreases steps.len(),
{
    if steps.len() == 0 {
        0
    } else if steps[0].continues(results(steps[0].task)) {
        1 + tried(steps.skip(1), results)
    } else {
        1
    }
}

/// The parts of taking the namespace down. What runs in it ends first, so that nothing talks while
/// the rest is removed. What is already gone does not keep the rest from being removed.
pub open spec fn down_steps() -> Seq<TaskStep> {
    seq![
        TaskStep { task: Task::KillAll, must_succeed: false },
        TaskStep { task: Task::TeardownFirewall, must_succeed: false },
        TaskStep { task: Task::TeardownHostSide, must_succeed: false },
        TaskStep { task: Task::DeleteNamespace, must_succeed: true },
    ]
}

/// The parts of bringing up a namespace that is not there.
pub open spec fn fresh_up_steps() -> Seq<TaskStep> {
    seq![
        TaskStep { task: Task::CreateNamespace, must_succeed: true },
        TaskStep { task: Task::SetupHostSide, must_succeed: true },
        TaskStep { task: Task::DetectUplink, must_succeed: true },
        TaskStep { task: Task::EnableForwarding, must_succeed: true },
        TaskStep { task: Task::SetupNat, must_succeed: true },
        TaskStep { task: Task::SetupNsSide, must_succeed: true },
    ]
}

/// The parts of bringing the namespace up. Where something is left of an earlier one, that is taken
/// down first.
pub open spec fn up_steps(stale: bool) -> Seq<TaskStep> {
    if stale {
        down_steps() + fresh_up_steps()
    } else {
        fresh_up_steps()
    }
}

fn required(task: Task) -> (r: TaskStep)
    ensures
        r == (TaskStep { task, must_succeed: true }),
{
    TaskStep { task, must_succeed: true }
}

fn optional(task: Task) -> (r: TaskStep)
    ensures
        r == (TaskStep { task, must_succeed: false }),
{
    TaskStep { task, must_succeed: false }
}

/// The parts of taking the namespace down, in order.
pub fn down() -> (r: Vec<TaskStep>)
    ensures
        r@ == down_steps(),
{
    let mut r: Vec<TaskStep> = Vec::new();
    r.push(optional(Task::KillAll));
    r.push(optional(Task::TeardownFirewall));
    r.push(optional(Task::TeardownHostSide));
    r.push(required(Task::DeleteNamespace));
    assert(r@ =~= down_steps());
    r
}

/// The parts of bringing the namespace up, in order. `namespace`, `host_link` and `table` tell whether
/// the namespace, the host's end of the pair and the packet filter table are there already. Each of
/// them would be in the way.
pub fn up(namespace: bool, host_link: bool, table: bool) -> (r: Vec<TaskStep>)
    ensures
        r@ == up_steps(is_stale(namespace, host_link, table)),
{
    let mut r: Vec<TaskStep> = if namespace || host_link || table {
        down()
    } else {
        Vec::new()
    };
    r.push(required(Task::CreateNamespace));
    r.push(required(Task::SetupHostSide));
    r.push(required(Task::DetectUplink));
    r.push(required(Task::EnableForwarding));
    r.push(required(Task::SetupNat));
    r.push(required(Task::SetupNsSide));
    assert(r@ =~= up_steps(is_stale(namespace, host_link, table)));
    r
}

/// Taking the namespace down always comes to removing it, whatever failed before: every part is
/// tried.
pub proof fn law_down_tries_everything(results: spec_fn(Task) -> bool)
    ensures
        tried(down_steps(), results) == down_steps().len(),
{
    let s = down_steps();
    assert(s.skip(1).skip(1) =~= s.skip(2));
    assert(s.skip(2).skip(1) =~= s.skip(3));
    assert(s.skip(3).skip(1).len() == 0);
    reveal_with_fuel(tried, 5);
}

/// Bringing the namespace up ends with the first part that must succeed and fails, and nothing behind
/// it is tried, whether or not something had to be taken down first.
pub proof fn law_up_stops_at_failure(stale: bool, results: spec_fn(Task) -> bool, k: int)
    requires
        0 <= k < up_steps(stale).len(),
        up_steps(stale)[k].must_succeed,
        !results(up_steps(stale)[k].task),
        forall|j: int|
            0 <= j < k && (#[trigger] up_steps(stale)[j]).must_succeed ==> results(
                up_steps(stale)[j].task,
            ),
    ensures
        tried(up_steps(stale), results) == k + 1,
{
    lemma_stops(up_steps(stale), results, k);
}

proof fn lemma_stops(steps: Seq<TaskStep>, results: spec_fn(Task) -> bool, k: int)
    requires
        0 <= k < steps.len(),
        steps[k].must_succeed,
        !results(steps[k].task),
        forall|j: int|
            0 <= j < k && (#[trigger] steps[j]).must_succeed ==> results(steps[j].task),
    ensures
        tried(steps, results) == k + 1,
    decreases k,
{
    if k > 0 {
        let rest = steps.skip(1);
        assert forall|j: int| 0 <= j < k - 1 && (#[trigger] rest[j]).must_succeed implies results(
            rest[j].task,
        ) by {
            assert(rest[j] == steps[j + 1]);
        }
        lemma_stops(rest, results, k - 1);
        assert(steps[0].continues(results(steps[0].task)));
    }
}

/// Bringing the namespace up tries every part where each part that must succeed does.
pub proof fn law_up_tries_everything(stale: bool, results: spec_fn(Task) -> bool)
    requires
        forall|j: int|
            0 <= j < up_steps(stale).len() && (#[trigger] up_steps(stale)[j]).must_succeed
                ==> results(up_steps(stale)[j].task),
    ensures
        tried(up_steps(stale), results) == up_steps(stale).len(),
{
    lemma_all_tried(up_steps(stale), results);
}

proof fn lemma_all_tried(steps: Seq<TaskStep>, results: spec_fn(Task) -> bool)
    requires
        forall|j: int|
            0 <= j < steps.len() && (#[trigger] steps[j]).must_succeed ==> results(steps[j].task),
    ensures
        tried(steps, results) == steps.len(),
    decreases steps.len(),
{
    if steps.len() > 0 {
        let rest = steps.skip(1);
        assert forall|j: int|
            0 <= j < rest.len() && (#[trigger] rest[j]).must_succeed implies results(
            rest[j].task,
        ) by {
            assert(rest[j] == steps[j + 1]);
        }
        lemma_all_tried(rest, results);
        assert(steps[0].continues(results(steps[0].task)));
    }
}

/// What is left of an earlier namespace is taken down whole before a new one is made.
pub proof fn law_up_rebuilds(i: int)
    requires
        0 <= i < up_steps(true).len(),
    ensures
        up_steps(true).take(down_steps().len() as int) == down_steps(),
        up_steps(true)[i].task == Task::CreateNamespace ==> i == down_steps().len(),
        up_steps(true).skip(down_steps().len() as int) == up_steps(false),
{
    assert(up_steps(true).take(4) =~= down_steps());
    assert(up_steps(true).skip(4) =~= up_steps(false));
}

/// The namespace's own end gets its routes only once the rules are there: nothing leaves the
/// namespace through the host before the host's rules are in force.
pub proof fn law_rules_before_routes(stale: bool, i: int, j: int)
    requires
        0 <= i < up_steps(stale).len(),
        0 <= j < up_steps(stale).len(),
        up_steps(stale)[i].task == Task::SetupNat,
        up_steps(stale)[j].task == Task::SetupNsSide,
    ensures
        i < j,
{
}

fn sentence(a: &str, b: &str, c: &str) -> (r: String)
    ensures
        r@ == a@ + b@ + c@,
{
    let mut r = a.to_owned();
    r.append(b);
    r.append(c);
    r
}

/// What to say of a namespace that has been brought up.
pub fn up_message(uplink: &str) -> (r: String)
    ensures
        r@ == up_text(uplink@),
{
    sentence("fishnetns is up, routed to the internet via ", uplink, ".")
}

/// What to say of whether the namespace is there.
pub fn namespace_line(present: bool) -> (r: String)
    ensures
        r@ == if present {
            "fishnetns is up."@
        } else {
            "fishnetns is down."@
        },
{
    if present {
        "fishnetns is up.".to_owned()
    } else {
        "fishnetns is down.".to_owned()
    }
}

/// What to say of the pair of links.
pub fn veth_line(present: bool) -> (r: String)
    ensures
        r@ == if present {
            "veth (vh0): up"@
        } else {
            "veth (vh0): missing"@
        },
{
    if present {
        "veth (vh0): up".to_owned()
    } else {
        "veth (vh0): missing".to_owned()
    }
}

/// What to say of the uplink. The error is why it is not known.
pub fn uplink_line(uplink: Result<String, String>) -> (r: String)
    ensures
        r@ == uplink_text(
            match uplink {
                Ok(name) => Ok(name@),
                Err(why) => Err(why@),
            },
        ),
{
    match uplink {
        Ok(name) => {
            let mut r = "uplink: ".to_owned();
            r.append(name.as_str());
            r
        },
        Err(why) => sentence("uplink: unknown (", why.as_str(), ")"),
    }
}

/// What to say of the VPN.
pub fn vpn_line(up: bool) -> (r: String)
    ensures
        r@ == if up {
            "vpn: connected (default route left the NAT fallback)"@
        } else {
            "vpn: NOT connected — exec is blocked (kill switch)"@
        },
{
    if up {
        "vpn: connected (default route left the NAT fallback)".to_owned()
    } else {
        "vpn: NOT connected — exec is blocked (kill switch)".to_owned()
    }
}

/// What to say of how many processes run in the namespace.
pub fn process_count_line(count: usize) -> (r: String)
    ensures
        r@ == count_text(count as nat),
{
    let mut r = "processes: ".to_owned();
    r.append(decimal(count as u64).as_str());
    r
}

/// The command that asks for the address under which the namespace is seen.
pub fn probe_command() -> (r: Vec<String>)
    ensures
        views(r@) == seq!["curl"@, "-s"@, "--max-time"@, "3"@, "-4"@, "ifconfig.me"@],
{
    let r = vec![
        "curl".to_owned(),
        "-s".to_owned(),
        "--max-time".to_owned(),
        "3".to_owned(),
        "-4".to_owned(),
        "ifconfig.me".to_owned(),
    ];
    assert(views(r@) =~= seq!["curl"@, "-s"@, "--max-time"@, "3"@, "-4"@, "ifconfig.me"@]);
    r
}

/// How that command runs: as the user, and only where there is a VPN interface. `None` is that it
/// does not run.
pub fn status_probe(vpn_up: bool) -> (r: Option<ExecOpts>)
    ensures
        r == probe_opts(vpn_up),
{
    if vpn_up {
        Some(ExecOpts::caller(false))
    } else {
        None
    }
}

/// What to say of how that command went: nothing where it succeeded.
pub fn probe_line(outcome: Result<i32, String>) -> (r: Option<String>)
    ensures
        opt_chars(r) == probe_text(
            match outcome {
                Ok(code) => Ok(code),
                Err(why) => Err(why@),
            },
        ),
{
    match outcome {
        Ok(code) => if code == 0 {
            None
        } else {
            Some(
                sentence(
                    "(reachability check failed: curl exited with ",
                    decimal_i32(code).as_str(),
                    ")",
                ),
            )
        },
        Err(why) => Some(
            sentence("(couldn't reach the internet from inside fishnetns: ", why.as_str(), ")"),
        ),
    }
}

/// How many characters of a command a list of processes shows, unless all are asked for.
pub const COMMAND_WIDTH: usize = 60;

/// A command as a list of processes shows it.
pub open spec fn shown_command(cmd: Seq<char>, full: bool) -> Seq<char> {
    if full || cmd.len() <= COMMAND_WIDTH {
        cmd
    } else {
        cmd.take(COMMAND_WIDTH as int)
    }
}

/// A process as a list of processes shows it.
pub open spec fn process_line(p: NsProcessView, full: bool) -> Seq<char> {
    decimal_of_int(p.pid as int) + "\t"@ + decimal_of_int(p.ppid as int) + "\t"@ + p.user + "\t"@
        + shown_command(p.cmd, full)
}

/// The list of processes: a heading, and a line for each process. `full` shows commands whole.
pub fn ps_lines(list: &Vec<NsProcess>, full: bool) -> (r: Vec<String>)
    ensures
        views(r@) == list_lines(process_views(list@), full),
{
    let mut r: Vec<String> = Vec::new();
    r.push("PID\tPPID\tUSER\tCOMMAND".to_owned());
    let mut i: usize = 0;
    while i < list.len()
        invariant
            i <= list.len(),
            r@.len() == i + 1,
            r@[0]@ == "PID\tPPID\tUSER\tCOMMAND"@,
            forall|j: int| 0 <= j < i ==> r@[j + 1]@ == process_line(list@[j]@, full),
        decreases list.len() - i,
    {
        let p = &list[i];
        let mut line = decimal_i32(p.pid);
        line.append("\t");
        line.append(decimal_i32(p.ppid).as_str());
        line.append("\t");
        line.append(p.user.as_str());
        line.append("\t");
        if full || p.cmd.as_str().unicode_len() <= COMMAND_WIDTH {
            line.append(p.cmd.as_str());
        } else {
            let cut = p.cmd.as_str().substring_char(0, COMMAND_WIDTH);
            line.append(cut);
            assert(cut@ =~= p.cmd@.take(COMMAND_WIDTH as int));
        }
        assert(line@ == process_line(list@[i as int]@, full));
        r.push(line);
        i = i + 1;
    }
    assert(views(r@) =~= seq!["PID\tPPID\tUSER\tCOMMAND"@] + process_views(list@).map_values(
        |p: NsProcessView| process_line(p, full),
    ));
    r
}

/// Whether something is left of an earlier namespace.
pub open spec fn is_stale(namespace: bool, host_link: bool, table: bool) -> bool {
    namespace || host_link || table
}

/// Something is left as soon as any of the three is there.
pub proof fn law_stale(namespace: bool, host_link: bool, table: bool)
    ensures
        is_stale(true, host_link, table) && is_stale(namespace, true, table) && is_stale(
            namespace,
            host_link,
            true,
        ),
        !is_stale(false, false, false),
{
}

/// The position of the first part that does `task`, where there is one.
pub open spec fn place_of(steps: Seq<TaskStep>, task: Task) -> Option<int> {
    if exists|i: int| 0 <= i < steps.len() && (#[trigger] steps[i]).task == task {
        Some(choose|i: int| 0 <= i < steps.len() && (#[trigger] steps[i]).task == task)
    } else {
        None
    }
}

/// Bringing up makes the namespace first and the pair of links in it next, finds the uplink before it adds
/// the rules that need it, enables forwarding, and sets up the namespace's side last. Each is done once
/// and must succeed.
pub proof fn law_up_order(i: int, j: int)
    requires
        0 <= i < up_steps(false).len(),
        0 <= j < up_steps(false).len(),
    ensures
        up_steps(false)[i].must_succeed,
        up_steps(false)[i].task == up_steps(false)[j].task ==> i == j,
        up_steps(false)[i].task == Task::CreateNamespace ==> i == 0,
        up_steps(false)[i].task == Task::SetupHostSide && up_steps(false)[j].task == Task::SetupNsSide
            ==> i < j,
        up_steps(false)[i].task == Task::DetectUplink && up_steps(false)[j].task == Task::SetupNat ==> i
            < j,
        up_steps(false)[i].task == Task::EnableForwarding && up_steps(false)[j].task
            == Task::SetupNsSide ==> i < j,
        place_of(up_steps(false), Task::CreateNamespace) is Some,
        place_of(up_steps(false), Task::SetupHostSide) is Some,
        place_of(up_steps(false), Task::DetectUplink) is Some,
        place_of(up_steps(false), Task::EnableForwarding) is Some,
        place_of(up_steps(false), Task::SetupNat) is Some,
        place_of(up_steps(false), Task::SetupNsSide) is Some,
{
    let s = up_steps(false);
    assert(s[0].task == Task::CreateNamespace && s[1].task == Task::SetupHostSide);
    assert(s[2].task == Task::DetectUplink && s[3].task == Task::EnableForwarding);
    assert(s[4].task == Task::SetupNat && s[5].task == Task::SetupNsSide);
}

/// Taking down ends what runs in the namespace before anything is removed, removes the rules, the pair of
/// links and the namespace, and the namespace last.
pub proof fn law_down_order(i: int)
    requires
        0 <= i < down_steps().len(),
    ensures
        down_steps()[i].task == Task::KillAll <==> i == 0,
        down_steps()[i].task == Task::DeleteNamespace <==> i == down_steps().len() - 1,
        place_of(down_steps(), Task::KillAll) is Some,
        place_of(down_steps(), Task::TeardownFirewall) is Some,
        place_of(down_steps(), Task::TeardownHostSide) is Some,
        place_of(down_steps(), Task::DeleteNamespace) is Some,
{
    let s = down_steps();
    assert(s[0].task == Task::KillAll && s[1].task == Task::TeardownFirewall);
    assert(s[2].task == Task::TeardownHostSide && s[3].task == Task::DeleteNamespace);
}

/// A part that need not succeed never ends the rest, and one that must does exactly where it fails.
pub proof fn law_continues(step: TaskStep, succeeded: bool)
    ensures
        succeeded ==> step.continues(succeeded),
        !succeeded ==> (step.continues(succeeded) <==> !step.must_succeed),
{
}

/// What to say of a namespace that has been brought up.
pub open spec fn up_text(uplink: Seq<char>) -> Seq<char> {
    "fishnetns is up, routed to the internet via "@ + uplink + "."@
}

/// What to say of the uplink.
pub open spec fn uplink_text(uplink: Result<Seq<char>, Seq<char>>) -> Seq<char> {
    match uplink {
        Ok(name) => "uplink: "@ + name,
        Err(why) => "uplink: unknown ("@ + why + ")"@,
    }
}

/// What to say of how many processes run in the namespace.
pub open spec fn count_text(count: nat) -> Seq<char> {
    "processes: "@ + decimal_of(count)
}

/// What to say of how the command that asks for the address went.
pub open spec fn probe_text(outcome: Result<i32, Seq<char>>) -> Option<Seq<char>> {
    match outcome {
        Ok(code) => if code == 0 {
            None
        } else {
            Some(
                "(reachability check failed: curl exited with "@ + decimal_of_int(code as int) + ")"@,
            )
        },
        Err(why) => Some("(couldn't reach the internet from inside fishnetns: "@ + why + ")"@),
    }
}

/// Whether `text` is `inner` between something that does not depend on it: `before` and `behind` are what
/// stands around it.
pub open spec fn frames(
    text: Seq<char>,
    before: Seq<char>,
    inner: Seq<char>,
    behind: Seq<char>,
) -> bool {
    &&& text.len() == before.len() + inner.len() + behind.len()
    &&& text.take(before.len() as int) == before
    &&& text.subrange(before.len() as int, (before.len() + inner.len()) as int) == inner
    &&& text.skip((before.len() + inner.len()) as int) == behind
}

proof fn lemma_frames(before: Seq<char>, inner: Seq<char>, behind: Seq<char>)
    ensures
        frames(before + inner + behind, before, inner, behind),
{
    let text = before + inner + behind;
    assert(text.take(before.len() as int) =~= before);
    assert(text.subrange(before.len() as int, (before.len() + inner.len()) as int) =~= inner);
    assert(text.skip((before.len() + inner.len()) as int) =~= behind);
}

/// What is said shows the very name, reason, number or code that it is about, whichever that is. The
/// command that asks for the address is spoken of exactly where it did not succeed.
pub proof fn law_texts(text: Seq<char>, count: nat, code: i32)
    ensures
        frames(up_text(text), "fishnetns is up, routed to the internet via "@, text, "."@),
        frames(uplink_text(Ok(text)), "uplink: "@, text, Seq::empty()),
        frames(uplink_text(Err(text)), "uplink: unknown ("@, text, ")"@),
        frames(count_text(count), "processes: "@, decimal_of(count), Seq::empty()),
        probe_text(Ok(code)) is None <==> code == 0,
        code != 0 ==> frames(
            probe_text(Ok(code))->Some_0,
            "(reachability check failed: curl exited with "@,
            decimal_of_int(code as int),
            ")"@,
        ),
        probe_text(Err(text)) is Some && frames(
            probe_text(Err(text))->Some_0,
            "(couldn't reach the internet from inside fishnetns: "@,
            text,
            ")"@,
        ),
{
    let none = Seq::<char>::empty();
    lemma_frames("fishnetns is up, routed to the internet via "@, text, "."@);
    lemma_frames("uplink: "@, text, none);
    assert("uplink: "@ + text + none =~= "uplink: "@ + text);
    lemma_frames("uplink: unknown ("@, text, ")"@);
    lemma_frames("processes: "@, decimal_of(count), none);
    assert("processes: "@ + decimal_of(count) + none =~= "processes: "@ + decimal_of(count));
    lemma_frames(
        "(reachability check failed: curl exited with "@,
        decimal_of_int(code as int),
        ")"@,
    );
    lemma_frames("(couldn't reach the internet from inside fishnetns: "@, text, ")"@);
}

/// A command is shown whole where that is asked for or where it is short, and else as its beginning, as
/// long as a line has room for.
pub proof fn law_shown_command(cmd: Seq<char>, full: bool)
    ensures
        full || cmd.len() <= 60 ==> shown_command(cmd, full) == cmd,
        !full && cmd.len() > 60 ==> shown_command(cmd, full).len() == 60,
        has_prefix(cmd, shown_command(cmd, full)),
{
    assert(cmd.take(cmd.len() as int) =~= cmd);
}

/// The line of a process is its number, its parent's, its user and its command with tabs between them,
/// whatever those hold.
pub proof fn law_process_line_parts(p: NsProcessView, full: bool)
    ensures
        process_line(p, full) == joined(
            seq![
                decimal_of_int(p.pid as int),
                decimal_of_int(p.ppid as int),
                p.user,
                shown_command(p.cmd, full),
            ],
            seq!['\t'],
        ),
{
    let tab = seq!['\t'];
    let parts = seq![
        decimal_of_int(p.pid as int),
        decimal_of_int(p.ppid as int),
        p.user,
        shown_command(p.cmd, full),
    ];
    reveal_strlit("\t");
    assert("\t"@ =~= tab);
    let s1 = parts.skip(1);
    let s2 = s1.drop_last();
    let s3 = s2.drop_last();
    reveal_with_fuel(led, 4);
    assert(s3.drop_last().len() == 0);
    assert(joined(parts, tab) =~= process_line(p, full));
}

/// Cutting the line of a process at its tabs gives its number, its parent's, its user and its command,
/// where the last two hold no tab.
pub proof fn law_process_line(p: NsProcessView, full: bool)
    requires
        !p.user.contains('\t'),
        !p.cmd.contains('\t'),
    ensures
        pieces(process_line(p, full), at('\t')) == seq![
            decimal_of_int(p.pid as int),
            decimal_of_int(p.ppid as int),
            p.user,
            shown_command(p.cmd, full),
        ],
{
    let sep = at('\t');
    let tab = seq!['\t'];
    let shown = shown_command(p.cmd, full);
    let parts = seq![
        decimal_of_int(p.pid as int),
        decimal_of_int(p.ppid as int),
        p.user,
        shown,
    ];
    reveal_strlit("\t");
    assert("\t"@ =~= tab);
    lemma_no_tab(p.pid as int);
    lemma_no_tab(p.ppid as int);
    assert forall|k: int, m: int| 0 <= k < parts.len() && 0 <= m < parts[k].len() implies !sep(
        #[trigger] parts[k][m],
    ) by {
        if k == 2 {
            assert(p.user.contains(p.user[m]));
        } else if k == 3 {
            assert(shown[m] == p.cmd[m]);
            assert(p.cmd.contains(p.cmd[m]));
        }
    }
    lemma_pieces_joined(parts, '\t', sep);
    law_process_line_parts(p, full);
}

proof fn lemma_no_tab(n: int)
    ensures
        forall|i: int|
            0 <= i < decimal_of_int(n).len() ==> #[trigger] decimal_of_int(n)[i] != '\t',
{
    let m = if n < 0 {
        (-n) as nat
    } else {
        n as nat
    };
    assert forall|i: int| 0 <= i < decimal_of_int(n).len() implies #[trigger] decimal_of_int(n)[i]
        != '\t' by {
        law_decimal(m, i);
        law_decimal(m, i - 1);
        if n < 0 && i > 0 {
            assert(decimal_of_int(n)[i] == decimal_of(m)[i - 1]);
        }
    }
}

/// A list of processes, as lines.
pub open spec fn list_lines(list: Seq<NsProcessView>, full: bool) -> Seq<Seq<char>> {
    seq!["PID\tPPID\tUSER\tCOMMAND"@] + list.map_values(|p: NsProcessView| process_line(p, full))
}

/// A list of processes has a heading and one line for each process, in the same order.
pub proof fn law_list_lines(list: Seq<NsProcessView>, full: bool, i: int)
    ensures
        list_lines(list, full).len() == list.len() + 1,
        list_lines(list, full)[0] == "PID\tPPID\tUSER\tCOMMAND"@,
        0 <= i < list.len() ==> list_lines(list, full)[i + 1] == process_line(list[i], full),
{
}

/// How the command that asks for the address runs, where it does.
pub open spec fn probe_opts(vpn_up: bool) -> Option<ExecOpts> {
    if vpn_up {
        Some(ExecOpts { run_as: RunAs::Caller, detach: false })
    } else {
        None
    }
}

/// The command that asks for the address never runs without a VPN interface and never as root, and it is
/// waited for.
pub proof fn law_probe(vpn_up: bool)
    ensures
        probe_opts(vpn_up) is Some <==> vpn_up,
        probe_opts(vpn_up) matches Some(opts) ==> opts.run_as == RunAs::Caller && !opts.detach,
{
}

} // verus!
