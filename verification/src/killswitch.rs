//! The kill switch: nothing runs in the namespace for the user unless a VPN interface is there.

use vstd::prelude::*;
use crate::exec::{ExecOpts, RunAs};
use crate::link::{attr_name, Link, LinkAttr};
use crate::netns::{ns_path, ns_path_of};
use crate::text::{has_prefix, join, joined, starts_with, views};

verus! {

/// What the names of VPN interfaces begin with.
pub const VPN_PREFIX: &'static str = "wg";

/// Whether an attribute is a name that a VPN interface has.
pub open spec fn is_vpn_name(a: LinkAttr) -> bool {
    match attr_name(a) {
        Some(n) => has_prefix(n, VPN_PREFIX@),
        None => false,
    }
}

/// Whether a link has a name that a VPN interface has.
pub open spec fn is_vpn_link(link: Link) -> bool {
    exists|i: int| 0 <= i < link.attrs@.len() && is_vpn_name(#[trigger] link.attrs@[i])
}

/// What the search for a VPN interface does next.
#[derive(Debug, PartialEq, Eq)]
pub enum VpnAction {
    /// Open the file of this path, which stands for the namespace, and enter it.
    Enter { path: String },
    /// Look at the next link of the namespace.
    NextLink,
    /// The search is over, and this is whether there is a VPN interface.
    Answer(bool),
    /// The search has failed, and it is not known whether there is a VPN interface.
    Fail,
}

/// What the search does next, with its text as a sequence.
pub enum VpnActionView {
    Enter { path: Seq<char> },
    NextLink,
    Answer(bool),
    Fail,
}

impl View for VpnAction {
    type V = VpnActionView;

    open spec fn view(&self) -> VpnActionView {
        match self {
            VpnAction::Enter { path } => VpnActionView::Enter { path: path@ },
            VpnAction::NextLink => VpnActionView::NextLink,
            VpnAction::Answer(found) => VpnActionView::Answer(*found),
            VpnAction::Fail => VpnActionView::Fail,
        }
    }
}

/// What came of looking at the next link.
#[derive(Debug)]
pub enum Looked {
    /// There is this link.
    Found(Link),
    /// There are no more links.
    End,
    /// The host could not tell.
    Failed,
}

/// What entering the namespace leads to.
pub open spec fn entered_action(succeeded: bool) -> VpnActionView {
    if succeeded {
        VpnActionView::NextLink
    } else {
        VpnActionView::Fail
    }
}

/// What looking at the next link leads to.
pub open spec fn vpn_action(looked: Looked) -> VpnActionView {
    match looked {
        Looked::Found(l) => if is_vpn_link(l) {
            VpnActionView::Answer(true)
        } else {
            VpnActionView::NextLink
        },
        Looked::End => VpnActionView::Answer(false),
        Looked::Failed => VpnActionView::Fail,
    }
}

/// Tells whether a link has a name that a VPN interface has.
pub fn has_vpn_name(link: &Link) -> (r: bool)
    ensures
        r == is_vpn_link(*link),
{
    let mut i: usize = 0;
    while i < link.attrs.len()
        invariant
            i <= link.attrs.len(),
            forall|j: int| 0 <= j < i ==> !is_vpn_name(#[trigger] link.attrs@[j]),
        decreases link.attrs.len() - i,
    {
        if let LinkAttr::IfName(n) = &link.attrs[i] {
            if starts_with(n.as_str(), VPN_PREFIX) {
                assert(is_vpn_name(link.attrs@[i as int]));
                return true;
            }
        }
        i = i + 1;
    }
    false
}

/// The first step of the search for a VPN interface in the namespace `name`: only the links inside it
/// count.
pub fn has_vpn_interface(name: &str) -> (r: VpnAction)
    ensures
        r@ == (VpnActionView::Enter { path: ns_path_of(name@) }),
{
    VpnAction::Enter { path: ns_path(name) }
}

/// Decides what entering the namespace leads to. Where that fails there is no answer.
pub fn on_entered(succeeded: bool) -> (r: VpnAction)
    ensures
        r@ == entered_action(succeeded),
{
    if succeeded {
        VpnAction::NextLink
    } else {
        VpnAction::Fail
    }
}

/// Decides what looking at the next link of the namespace leads to.
pub fn on_vpn_link(looked: Looked) -> (r: VpnAction)
    ensures
        r@ == vpn_action(looked),
{
    match looked {
        Looked::Found(link) => if has_vpn_name(&link) {
            VpnAction::Answer(true)
        } else {
            VpnAction::NextLink
        },
        Looked::End => VpnAction::Answer(false),
        Looked::Failed => VpnAction::Fail,
    }
}

/// A host as the search meets it.
pub struct Inside {
    /// Which of the files that stand for namespaces can be entered.
    pub enters: spec_fn(Seq<char>) -> bool,
    /// The links of the namespace that each of them stands for, as far as the host can tell them.
    pub links: spec_fn(Seq<char>) -> Seq<Link>,
    /// Whether the host can tell all links of the namespace.
    pub tells_all: spec_fn(Seq<char>) -> bool,
}

/// What the search comes to on the links that are left, behind which there are no more where `all`
/// holds.
pub open spec fn links_search(links: Seq<Link>, all: bool) -> VpnActionView
    decreases links.len(),
{
    if links.len() == 0 {
        vpn_action(
            if all {
                Looked::End
            } else {
                Looked::Failed
            },
        )
    } else {
        match vpn_action(Looked::Found(links[0])) {
            VpnActionView::NextLink => links_search(links.skip(1), all),
            end => end,
        }
    }
}

/// What the search comes to from its first step `first` on.
pub open spec fn vpn_search(first: VpnActionView, host: Inside) -> VpnActionView {
    match first {
        VpnActionView::Enter { path } => match entered_action((host.enters)(path)) {
            VpnActionView::NextLink => links_search((host.links)(path), (host.tells_all)(path)),
            end => end,
        },
        end => end,
    }
}

/// Whether one of the links that the host tells of the namespace `name` is a VPN interface.
pub open spec fn has_vpn_link(host: Inside, name: Seq<char>) -> bool {
    exists|i: int|
        0 <= i < (host.links)(ns_path_of(name)).len() && is_vpn_link(
            #[trigger] (host.links)(ns_path_of(name))[i],
        )
}

/// The search in the namespace `name` finds a VPN interface exactly where that namespace can be
/// entered and one of its links has the name of one. It finds that there is none only where it was
/// entered and all its links were seen. In every other case it fails.
pub proof fn law_vpn_search(name: Seq<char>, host: Inside)
    ensures
        ({
            let path = ns_path_of(name);
            let end = vpn_search(VpnActionView::Enter { path }, host);
            let entered = (host.enters)(path);
            &&& end == VpnActionView::Answer(true) <==> entered && has_vpn_link(host, name)
            &&& end == VpnActionView::Answer(false) <==> entered && !has_vpn_link(host, name)
                && (host.tells_all)(path)
            &&& end == VpnActionView::Fail <==> !entered || (!has_vpn_link(host, name)
                && !(host.tells_all)(path))
        }),
{
    let path = ns_path_of(name);
    lemma_links_search((host.links)(path), (host.tells_all)(path));
}

proof fn lemma_links_search(links: Seq<Link>, all: bool)
    ensures
        ({
            let found = exists|i: int| 0 <= i < links.len() && is_vpn_link(#[trigger] links[i]);
            links_search(links, all) == if found {
                VpnActionView::Answer(true)
            } else if all {
                VpnActionView::Answer(false)
            } else {
                VpnActionView::Fail
            }
        }),
    decreases links.len(),
{
    if links.len() > 0 {
        let rest = links.skip(1);
        lemma_links_search(rest, all);
        if exists|i: int| 0 <= i < links.len() && is_vpn_link(#[trigger] links[i]) {
            let i = choose|i: int| 0 <= i < links.len() && is_vpn_link(#[trigger] links[i]);
            if i > 0 {
                assert(rest[i - 1] == links[i]);
            }
        }
        if exists|i: int| 0 <= i < rest.len() && is_vpn_link(#[trigger] rest[i]) {
            let i = choose|i: int| 0 <= i < rest.len() && is_vpn_link(#[trigger] rest[i]);
            assert(links[i + 1] == rest[i]);
        }
    }
}

/// What to say of a namespace that is not there.
pub const NS_DOWN: &'static str = "fishnetns is down — run `fishnet up` first";

/// What to say, before the command, where the kill switch refuses it.
pub const REFUSED_BEFORE: &'static str =
    "kill switch: fishnetns's default route still points at the plain NAT fallback (no VPN has taken it over), refusing to run `";

/// What to say, behind the command, where the kill switch refuses it.
pub const REFUSED_AFTER: &'static str =
    "`. Connect your VPN first with `fishnet connect -- <command>`.";

/// What to say where the kill switch refuses a command.
pub open spec fn refusal(command: Seq<Seq<char>>) -> Seq<char> {
    REFUSED_BEFORE@ + joined(command, " "@) + REFUSED_AFTER@
}

/// What becomes of a command.
#[derive(Debug)]
pub enum Gate {
    /// It runs in this way.
    Run(ExecOpts),
    /// It depends on whether there is a VPN interface.
    AskVpn,
    /// It does not run, and this is what to say.
    Refuse(String),
}

/// What becomes of a command, with its text as a sequence.
pub enum GateView {
    Run(ExecOpts),
    AskVpn,
    Refuse(Seq<char>),
}

impl View for Gate {
    type V = GateView;

    open spec fn view(&self) -> GateView {
        match self {
            Gate::Run(opts) => GateView::Run(*opts),
            Gate::AskVpn => GateView::AskVpn,
            Gate::Refuse(text) => GateView::Refuse(text@),
        }
    }
}

/// What becomes of a command for `connect`, which must reach the internet before there is a VPN: it
/// stays root, and the kill switch does not hold it.
pub open spec fn connect_decision(present: bool) -> GateView {
    if present {
        GateView::Run(ExecOpts { run_as: RunAs::Root, detach: false })
    } else {
        GateView::Refuse(NS_DOWN@)
    }
}

/// What becomes of a command for `exec`: it runs as the user, and only where the namespace is there
/// and has a VPN interface. `vpn_up` is `None` as long as that is not known.
pub open spec fn exec_decision(
    present: bool,
    vpn_up: Option<bool>,
    detach: bool,
    command: Seq<Seq<char>>,
) -> GateView {
    if !present {
        GateView::Refuse(NS_DOWN@)
    } else {
        match vpn_up {
            None => GateView::AskVpn,
            Some(up) => if up {
                GateView::Run(ExecOpts { run_as: RunAs::Caller, detach })
            } else {
                GateView::Refuse(refusal(command))
            },
        }
    }
}

/// Decides what becomes of a command for `connect`. `present` tells whether the namespace is there.
pub fn connect_gate(present: bool) -> (r: Gate)
    ensures
        r@ == connect_decision(present),
{
    if present {
        Gate::Run(ExecOpts::root())
    } else {
        Gate::Refuse(NS_DOWN.to_owned())
    }
}

/// Decides what becomes of a command for `exec`. `present` tells whether the namespace is there,
/// and `vpn_up` whether it has a VPN interface, once that is known.
pub fn exec_gate(present: bool, vpn_up: Option<bool>, detach: bool, command: &Vec<String>) -> (r:
    Gate)
    ensures
        r@ == exec_decision(present, vpn_up, detach, views(command@)),
{
    if !present {
        return Gate::Refuse(NS_DOWN.to_owned());
    }
    match vpn_up {
        None => Gate::AskVpn,
        Some(up) => {
            if up {
                Gate::Run(ExecOpts::caller(detach))
            } else {
                let mut text = REFUSED_BEFORE.to_owned();
                text.append(join(command, " ").as_str());
                text.append(REFUSED_AFTER);
                Gate::Refuse(text)
            }
        },
    }
}

/// What the end of the search tells of whether there is a VPN interface.
pub open spec fn answer_of(end: VpnActionView) -> Option<bool> {
    match end {
        VpnActionView::Answer(found) => Some(found),
        _ => None,
    }
}

/// A command for `exec` runs exactly where the namespace `name` is there, can be entered and has a
/// link with the name of a VPN interface. Then it runs as the user. A search that fails lets nothing
/// through.
pub proof fn law_kill_switch(
    present: bool,
    name: Seq<char>,
    host: Inside,
    detach: bool,
    command: Seq<Seq<char>>,
)
    ensures
        ({
            let end = vpn_search(VpnActionView::Enter { path: ns_path_of(name) }, host);
            let decision = exec_decision(present, answer_of(end), detach, command);
            &&& decision is Run <==> present && (host.enters)(ns_path_of(name)) && has_vpn_link(
                host,
                name,
            )
            &&& decision matches GateView::Run(opts) ==> opts.run_as == RunAs::Caller
            &&& end is Fail ==> !(decision is Run)
        }),
{
    law_vpn_search(name, host);
}

/// A link is a VPN interface exactly where one of its attributes is a name that begins with the two
/// letters `wg`.
pub proof fn law_vpn_names(link: Link)
    ensures
        is_vpn_link(link) <==> exists|i: int|
            0 <= i < link.attrs@.len() && (#[trigger] link.attrs@[i]) is IfName
                && link.attrs@[i]->IfName_0@.len() >= 2 && link.attrs@[i]->IfName_0@[0] == 'w'
                && link.attrs@[i]->IfName_0@[1] == 'g',
{
    reveal_strlit("wg");
    assert forall|i: int| 0 <= i < link.attrs@.len() implies is_vpn_name(#[trigger] link.attrs@[i])
        == (link.attrs@[i] is IfName && link.attrs@[i]->IfName_0@.len() >= 2
        && link.attrs@[i]->IfName_0@[0] == 'w' && link.attrs@[i]->IfName_0@[1] == 'g') by {
        if let LinkAttr::IfName(n) = link.attrs@[i] {
            if n@.len() >= 2 {
                assert(n@.take(2)[0] == n@[0] && n@.take(2)[1] == n@[1]);
                if n@[0] == 'w' && n@[1] == 'g' {
                    assert(n@.take(2) =~= "wg"@);
                }
            }
        }
    }
    if is_vpn_link(link) {
        let i = choose|i: int| 0 <= i < link.attrs@.len() && is_vpn_name(#[trigger] link.attrs@[i]);
        assert(link.attrs@[i] is IfName);
    }
    if exists|i: int|
        0 <= i < link.attrs@.len() && (#[trigger] link.attrs@[i]) is IfName
            && link.attrs@[i]->IfName_0@.len() >= 2 && link.attrs@[i]->IfName_0@[0] == 'w'
            && link.attrs@[i]->IfName_0@[1] == 'g' {
        let i = choose|i: int|
            0 <= i < link.attrs@.len() && (#[trigger] link.attrs@[i]) is IfName
                && link.attrs@[i]->IfName_0@.len() >= 2 && link.attrs@[i]->IfName_0@[0] == 'w'
                && link.attrs@[i]->IfName_0@[1] == 'g';
        assert(is_vpn_name(link.attrs@[i]));
    }
}

/// A command for `exec` that runs is detached exactly where that was asked for, whatever the command
/// is. A command is refused where the namespace is not there, and else only where it is known that
/// there is no VPN interface; then what is said begins with the kill switch and names the whole
/// command.
pub proof fn law_exec_decision(
    present: bool,
    vpn_up: Option<bool>,
    detach: bool,
    command: Seq<Seq<char>>,
)
    ensures
        ({
            let d = exec_decision(present, vpn_up, detach, command);
            &&& d is Run <==> present && vpn_up == Some(true)
            &&& d matches GateView::Run(opts) ==> opts.detach == detach && opts.run_as
                == RunAs::Caller
            &&& d is AskVpn <==> present && vpn_up is None
            &&& !present ==> d == GateView::Refuse("fishnetns is down — run `fishnet up` first"@)
            &&& present && vpn_up == Some(false) ==> d is Refuse && has_prefix(
                d->Refuse_0,
                "kill switch: "@,
            ) && exists|a: Seq<char>, b: Seq<char>| #[trigger]
                (a + joined(command, " "@) + b) == d->Refuse_0
        }),
{
    if present && vpn_up == Some(false) {
        let text = refusal(command);
        reveal_strlit("kill switch: ");
        reveal_strlit(
            "kill switch: fishnetns's default route still points at the plain NAT fallback (no VPN has taken it over), refusing to run `",
        );
        assert(text.take("kill switch: "@.len() as int) =~= "kill switch: "@);
        assert(REFUSED_BEFORE@ + joined(command, " "@) + REFUSED_AFTER@ == text);
    }
}

/// Two commands that the kill switch refuses are told apart by what is said, unless they read alike.
pub proof fn law_refusal_names_the_command(a: Seq<Seq<char>>, b: Seq<Seq<char>>)
    ensures
        refusal(a) == refusal(b) <==> joined(a, " "@) == joined(b, " "@),
{
    let n = REFUSED_BEFORE@.len() as int;
    let m = REFUSED_AFTER@.len() as int;
    let (x, y) = (joined(a, " "@), joined(b, " "@));
    if refusal(a) == refusal(b) {
        assert(refusal(a).subrange(n, refusal(a).len() - m) =~= x);
        assert(refusal(b).subrange(n, refusal(b).len() - m) =~= y);
    }
}

/// A command for `connect` runs exactly where the namespace is there, and then as root and attached.
pub proof fn law_connect_decision(present: bool)
    ensures
        connect_decision(present) is Run <==> present,
        connect_decision(present) matches GateView::Run(opts) ==> opts.run_as == RunAs::Root
            && !opts.detach,
        !present ==> connect_decision(present) == exec_decision(false, None, false, Seq::empty()),
{
}

/// What is said of a refused command is the reason, the command itself, and the way out.
pub proof fn law_refusal_text(command: Seq<Seq<char>>)
    ensures
        has_prefix(refusal(command), REFUSED_BEFORE@),
        has_prefix(refusal(command).skip(REFUSED_BEFORE@.len() as int), joined(command, " "@)),
        refusal(command).skip((REFUSED_BEFORE@.len() + joined(command, " "@).len()) as int)
            == REFUSED_AFTER@,
{
    let text = refusal(command);
    let n = REFUSED_BEFORE@.len() as int;
    let m = joined(command, " "@).len() as int;
    assert(text.take(n) =~= REFUSED_BEFORE@);
    assert(text.skip(n).take(m) =~= joined(command, " "@));
    assert(text.skip(n + m) =~= REFUSED_AFTER@);
}

/// The view of a decision or of an action says all that it holds.
pub proof fn law_gate_view(gate: Gate, action: VpnAction)
    ensures
        gate matches Gate::Run(opts) ==> gate@ == GateView::Run(opts),
        gate matches Gate::Refuse(text) ==> gate@ == GateView::Refuse(text@),
        gate is AskVpn <==> gate@ is AskVpn,
        action matches VpnAction::Enter { path } ==> action@ == (VpnActionView::Enter { path: path@ }),
        action matches VpnAction::Answer(found) ==> action@ == VpnActionView::Answer(found),
        action is NextLink <==> action@ is NextLink,
        action is Fail <==> action@ is Fail,
{
}

} // verus!
