//! The pair of links that joins the host and the namespace.
//!
//! An IPv4 address is the `u32` and an IPv6 address the `u128` whose most significant byte is the
//! first byte of the address.

use vstd::arithmetic::power2::{lemma2_to64, lemma2_to64_rest};
use vstd::prelude::*;
use crate::netns::{ns_path, ns_path_of};
use crate::plan::{law_nothing_behind_a_failure, run};
use crate::subnet::{same_subnet4, same_subnet6};
use crate::text::opt_chars;

verus! {

/// The host's end of the pair.
pub const VETH_HOST: &'static str = "vh0";

/// The namespace's end of the pair.
pub const VETH_NS: &'static str = "vn0";

/// The loopback link.
pub const LOOPBACK: &'static str = "lo";

/// The host's IPv4 address on the pair, 10.200.1.1.
pub const HOST_ADDR: u32 = 0x0ac80101;

/// The namespace's IPv4 address on the pair, 10.200.1.2.
pub const NS_VETH_ADDR: u32 = 0x0ac80102;

/// The IPv4 network of the pair, 10.200.1.0.
pub const SUBNET: u32 = 0x0ac80100;

/// The length of the IPv4 network's prefix.
pub const PREFIX: u8 = 24;

/// The host's IPv6 address on the pair, fd00:fefe:cafe::1. It is of a range for local use, which
/// leaves the host only with a translated address. With it the namespace has an IPv6 route that a
/// VPN's own can override.
pub const HOST_ADDR6: u128 = 0xfd00_fefe_cafe_0000_0000_0000_0000_0001;

/// The namespace's IPv6 address on the pair, fd00:fefe:cafe::2.
pub const NS_VETH_ADDR6: u128 = 0xfd00_fefe_cafe_0000_0000_0000_0000_0002;

/// The IPv6 network of the pair, fd00:fefe:cafe::.
pub const SUBNET6: u128 = 0xfd00_fefe_cafe_0000_0000_0000_0000_0000;

/// The length of the IPv6 network's prefix.
pub const PREFIX6: u8 = 64;

/// The two ends have addresses of one network for each protocol, and it is the network whose
/// traffic is translated.
pub proof fn law_one_network()
    ensures
        same_subnet4(HOST_ADDR, SUBNET, PREFIX),
        same_subnet4(NS_VETH_ADDR, SUBNET, PREFIX),
        HOST_ADDR != NS_VETH_ADDR,
        same_subnet6(HOST_ADDR6, SUBNET6, PREFIX6),
        same_subnet6(NS_VETH_ADDR6, SUBNET6, PREFIX6),
        HOST_ADDR6 != NS_VETH_ADDR6,
{
    lemma2_to64();
    lemma2_to64_rest();
    assert(0x0ac80101int / 256 == 0x0ac80100int / 256 == 0x0ac80102int / 256);
    assert(0xfd00_fefe_cafe_0000_0000_0000_0000_0001int / 0x1_0000_0000_0000_0000
        == 0xfd00_fefe_cafe_0000_0000_0000_0000_0000int / 0x1_0000_0000_0000_0000
        == 0xfd00_fefe_cafe_0000_0000_0000_0000_0002int / 0x1_0000_0000_0000_0000);
}

/// A step in setting up or removing links. A step that names no link works on the link that was
/// found last.
#[derive(Debug)]
pub enum NetOp {
    /// Makes a pair of links.
    AddVethPair { host: String, peer: String },
    /// Finds the link of this name.
    FindLink { name: String },
    /// Gives the link an IPv4 address.
    AddAddress4 { addr: u32, prefix: u8 },
    /// Gives the link an IPv6 address.
    AddAddress6 { addr6: u128, prefix: u8 },
    /// Brings the link up.
    SetUp,
    /// Opens the file that stands for the namespace.
    OpenNamespace { path: String },
    /// Enters the namespace of this path, which was opened. What comes after works inside it.
    EnterNamespace { path: String },
    /// Moves the link to the namespace that was opened.
    MoveToNamespace,
    /// Routes all IPv4 addresses through this one.
    AddDefaultRoute4 { gateway: u32 },
    /// Routes all IPv6 addresses through this one.
    AddDefaultRoute6 { gateway6: u128 },
    /// Deletes the link of this name, and the other end of its pair with it.
    DeleteLink { name: String },
}

/// A step, with its texts as sequences.
pub enum NetOpView {
    AddVethPair { host: Seq<char>, peer: Seq<char> },
    FindLink { name: Seq<char> },
    AddAddress4 { addr: u32, prefix: u8 },
    AddAddress6 { addr6: u128, prefix: u8 },
    SetUp,
    OpenNamespace { path: Seq<char> },
    EnterNamespace { path: Seq<char> },
    MoveToNamespace,
    AddDefaultRoute4 { gateway: u32 },
    AddDefaultRoute6 { gateway6: u128 },
    DeleteLink { name: Seq<char> },
}

impl View for NetOp {
    type V = NetOpView;

    open spec fn view(&self) -> NetOpView {
        match self {
            NetOp::AddVethPair { host, peer } => NetOpView::AddVethPair { host: host@, peer: peer@ },
            NetOp::FindLink { name } => NetOpView::FindLink { name: name@ },
            NetOp::AddAddress4 { addr, prefix } => NetOpView::AddAddress4 {
                addr: *addr,
                prefix: *prefix,
            },
            NetOp::AddAddress6 { addr6, prefix } => NetOpView::AddAddress6 {
                addr6: *addr6,
                prefix: *prefix,
            },
            NetOp::SetUp => NetOpView::SetUp,
            NetOp::OpenNamespace { path } => NetOpView::OpenNamespace { path: path@ },
            NetOp::EnterNamespace { path } => NetOpView::EnterNamespace { path: path@ },
            NetOp::MoveToNamespace => NetOpView::MoveToNamespace,
            NetOp::AddDefaultRoute4 { gateway } => NetOpView::AddDefaultRoute4 {
                gateway: *gateway,
            },
            NetOp::AddDefaultRoute6 { gateway6 } => NetOpView::AddDefaultRoute6 {
                gateway6: *gateway6,
            },
            NetOp::DeleteLink { name } => NetOpView::DeleteLink { name: name@ },
        }
    }
}

/// A step, and what to say where it fails, if anything is to be said.
#[derive(Debug)]
pub struct NetStep {
    pub op: NetOp,
    pub context: Option<String>,
}

/// A step, with its texts as sequences.
pub struct NetStepView {
    pub op: NetOpView,
    pub context: Option<Seq<char>>,
}

impl View for NetStep {
    type V = NetStepView;

    open spec fn view(&self) -> NetStepView {
        NetStepView { op: self.op@, context: opt_chars(self.context) }
    }
}

/// The views of a list of steps.
pub open spec fn net_views(v: Seq<NetStep>) -> Seq<NetStepView> {
    Seq::new(v.len(), |i: int| v[i]@)
}

/// A step with something to say where it fails.
pub open spec fn told(op: NetOpView, context: Seq<char>) -> NetStepView {
    NetStepView { op, context: Some(context) }
}

/// The step that finds a link.
pub open spec fn finding(name: Seq<char>) -> NetStepView {
    told(NetOpView::FindLink { name }, "link "@ + name + " not found"@)
}

/// The step that brings a link up.
pub open spec fn bringing_up() -> NetStepView {
    NetStepView { op: NetOpView::SetUp, context: None }
}

/// The steps on the host's side, for the namespace `ns`.
pub open spec fn host_side(ns: Seq<char>) -> Seq<NetStepView> {
    seq![
        told(
            NetOpView::AddVethPair { host: VETH_HOST@, peer: VETH_NS@ },
            "create veth pair"@,
        ),
        finding(VETH_HOST@),
        told(
            NetOpView::AddAddress4 { addr: HOST_ADDR, prefix: PREFIX },
            "v4 addr on host veth"@,
        ),
        told(
            NetOpView::AddAddress6 { addr6: HOST_ADDR6, prefix: PREFIX6 },
            "v6 addr on host veth"@,
        ),
        bringing_up(),
        told(NetOpView::OpenNamespace { path: ns_path_of(ns) }, "open netns file"@),
        finding(VETH_NS@),
        told(NetOpView::MoveToNamespace, "move veth peer into netns"@),
    ]
}

/// The steps on the namespace's side, for the namespace `ns`. It is entered before anything else.
pub open spec fn ns_side(ns: Seq<char>) -> Seq<NetStepView> {
    seq![
        told(NetOpView::OpenNamespace { path: ns_path_of(ns) }, "open netns file"@),
        told(NetOpView::EnterNamespace { path: ns_path_of(ns) }, "setns"@),
        finding(VETH_NS@),
        told(
            NetOpView::AddAddress4 { addr: NS_VETH_ADDR, prefix: PREFIX },
            "v4 addr in namespace"@,
        ),
        told(
            NetOpView::AddAddress6 { addr6: NS_VETH_ADDR6, prefix: PREFIX6 },
            "v6 addr in namespace"@,
        ),
        bringing_up(),
        finding(LOOPBACK@),
        bringing_up(),
        told(NetOpView::AddDefaultRoute4 { gateway: HOST_ADDR }, "v4 default route"@),
        told(NetOpView::AddDefaultRoute6 { gateway6: HOST_ADDR6 }, "v6 default route"@),
    ]
}

fn step(op: NetOp, context: &str) -> (r: NetStep)
    ensures
        r@ == told(op@, context@),
{
    NetStep { op, context: Some(context.to_owned()) }
}

fn find(name: &str) -> (r: NetStep)
    ensures
        r@ == finding(name@),
{
    let mut context = "link ".to_owned();
    context.append(name);
    context.append(" not found");
    NetStep { op: NetOp::FindLink { name: name.to_owned() }, context: Some(context) }
}

fn bring_up() -> (r: NetStep)
    ensures
        r@ == bringing_up(),
{
    NetStep { op: NetOp::SetUp, context: None }
}

/// The steps on the host's side, to be taken in order until one fails: make the pair, address the
/// host's end, and move the other end to the namespace `ns`.
pub fn setup_host_side(ns: &str) -> (r: Vec<NetStep>)
    ensures
        net_views(r@) == host_side(ns@),
{
    let r = vec![
        step(
            NetOp::AddVethPair { host: VETH_HOST.to_owned(), peer: VETH_NS.to_owned() },
            "create veth pair",
        ),
        find(VETH_HOST),
        step(NetOp::AddAddress4 { addr: HOST_ADDR, prefix: PREFIX }, "v4 addr on host veth"),
        step(NetOp::AddAddress6 { addr6: HOST_ADDR6, prefix: PREFIX6 }, "v6 addr on host veth"),
        bring_up(),
        step(NetOp::OpenNamespace { path: ns_path(ns) }, "open netns file"),
        find(VETH_NS),
        step(NetOp::MoveToNamespace, "move veth peer into netns"),
    ];
    assert(net_views(r@) =~= host_side(ns@));
    r
}

/// The steps on the namespace's side, to be taken in order until one fails: enter the namespace `ns`,
/// address its end of the pair, bring it and the loopback link up, and route everything through the
/// host.
pub fn setup_ns_side(ns: &str) -> (r: Vec<NetStep>)
    ensures
        net_views(r@) == ns_side(ns@),
{
    let r = vec![
        step(NetOp::OpenNamespace { path: ns_path(ns) }, "open netns file"),
        step(NetOp::EnterNamespace { path: ns_path(ns) }, "setns"),
        find(VETH_NS),
        step(NetOp::AddAddress4 { addr: NS_VETH_ADDR, prefix: PREFIX }, "v4 addr in namespace"),
        step(
            NetOp::AddAddress6 { addr6: NS_VETH_ADDR6, prefix: PREFIX6 },
            "v6 addr in namespace",
        ),
        bring_up(),
        find(LOOPBACK),
        bring_up(),
        step(NetOp::AddDefaultRoute4 { gateway: HOST_ADDR }, "v4 default route"),
        step(NetOp::AddDefaultRoute6 { gateway6: HOST_ADDR6 }, "v6 default route"),
    ];
    assert(net_views(r@) =~= ns_side(ns@));
    r
}

/// The steps that remove the pair.
pub open spec fn host_teardown(found: bool) -> Seq<NetStepView> {
    if found {
        seq![told(NetOpView::DeleteLink { name: VETH_HOST@ }, "delete vh0"@)]
    } else {
        Seq::empty()
    }
}

/// The steps that remove the pair. `found` tells whether the host's end could be found. Where it
/// could not there is nothing to do.
pub fn teardown_host_side(found: bool) -> (r: Vec<NetStep>)
    ensures
        net_views(r@) == host_teardown(found),
{
    let mut r: Vec<NetStep> = Vec::new();
    if found {
        r.push(step(NetOp::DeleteLink { name: VETH_HOST.to_owned() }, "delete vh0"));
    }
    assert(net_views(r@) =~= host_teardown(found));
    r
}

/// The link that the step at `i` works on: the one that the last search before it is for.
pub open spec fn works_on(steps: Seq<NetStepView>, i: int) -> Option<Seq<char>>
    decreases i,
{
    if i <= 0 {
        None
    } else {
        match steps[i - 1].op {
            NetOpView::FindLink { name } => Some(name),
            _ => works_on(steps, i - 1),
        }
    }
}

/// Whether a step works on a link.
pub open spec fn is_on_link(op: NetOpView) -> bool {
    match op {
        NetOpView::AddAddress4 { .. } | NetOpView::AddAddress6 { .. } | NetOpView::SetUp
        | NetOpView::MoveToNamespace => true,
        _ => false,
    }
}

/// On the host's side only the peer moves to the namespace, and everything else is done to the
/// host's own end.
pub proof fn law_host_side_links(ns: Seq<char>, i: int)
    requires
        0 <= i < host_side(ns).len(),
        is_on_link(host_side(ns)[i].op),
    ensures
        works_on(host_side(ns), i) == Some(
            if host_side(ns)[i].op == NetOpView::MoveToNamespace {
                VETH_NS@
            } else {
                VETH_HOST@
            },
        ),
{
    reveal_with_fuel(works_on, 5);
}

/// On the namespace's side the addresses go to its end of the pair, and that end and the loopback
/// link are brought up.
pub proof fn law_ns_side_links(ns: Seq<char>, i: int)
    requires
        0 <= i < ns_side(ns).len(),
        is_on_link(ns_side(ns)[i].op),
    ensures
        works_on(ns_side(ns), i) == Some(
            if i == 7 {
                LOOPBACK@
            } else {
                VETH_NS@
            },
        ),
        i == 7 ==> ns_side(ns)[i].op == NetOpView::SetUp,
{
    reveal_with_fuel(works_on, 5);
}

/// Whether a step changes where packets go.
pub open spec fn is_route(op: NetOpView) -> bool {
    op is AddDefaultRoute4 || op is AddDefaultRoute6
}

/// The host keeps its routes: neither making nor removing the pair adds one, and neither leaves the
/// host's own network.
pub proof fn law_host_keeps_its_routes(ns: Seq<char>, found: bool, i: int)
    ensures
        0 <= i < host_side(ns).len() ==> !is_route(host_side(ns)[i].op) && !(host_side(
            ns,
        )[i].op is EnterNamespace),
        0 <= i < host_teardown(found).len() ==> !is_route(host_teardown(found)[i].op)
            && !(host_teardown(found)[i].op is EnterNamespace),
{
}

/// On the namespace's side nothing is asked for before the namespace is entered: every step but the
/// two that open and enter it is taken only where both have succeeded.
pub proof fn law_ns_side_stays_inside(ns: Seq<char>, results: spec_fn(int) -> bool, k: int)
    requires
        run(ns_side(ns).len() as usize, results).0.contains(k),
        k >= 2,
    ensures
        ns_side(ns)[0].op == (NetOpView::OpenNamespace { path: ns_path_of(ns) }) && results(0),
        ns_side(ns)[1].op == (NetOpView::EnterNamespace { path: ns_path_of(ns) }) && results(1),
{
    assert(ns_side(ns).len() == 10);
    law_nothing_behind_a_failure(ns_side(ns).len() as usize, results, k);
}

/// What is said of a step that fails names what the step does.
pub proof fn law_net_texts(ns: Seq<char>, found: bool, i: int)
    ensures
        0 <= i < host_side(ns).len() ==> is_told(host_side(ns)[i], " on host veth"@),
        0 <= i < ns_side(ns).len() ==> is_told(ns_side(ns)[i], " in namespace"@),
        0 <= i < host_teardown(found).len() ==> is_told(host_teardown(found)[i], Seq::empty()),
{
    reveal_strlit(" on host veth");
    reveal_strlit(" in namespace");
    reveal_strlit("v4 addr");
    reveal_strlit("v6 addr");
    reveal_strlit("v4 addr on host veth");
    reveal_strlit("v6 addr on host veth");
    reveal_strlit("v4 addr in namespace");
    reveal_strlit("v6 addr in namespace");
    reveal_strlit("delete ");
    reveal_strlit("vh0");
    reveal_strlit("delete vh0");
    assert("v4 addr on host veth"@ =~= "v4 addr"@ + " on host veth"@);
    assert("v6 addr on host veth"@ =~= "v6 addr"@ + " on host veth"@);
    assert("v4 addr in namespace"@ =~= "v4 addr"@ + " in namespace"@);
    assert("v6 addr in namespace"@ =~= "v6 addr"@ + " in namespace"@);
    assert("delete vh0"@ =~= "delete "@ + VETH_HOST@);
}

/// Whether what is said of a step that fails fits it, where `place` is how addresses are said to be
/// placed.
pub open spec fn is_told(step: NetStepView, place: Seq<char>) -> bool {
    match step.op {
        NetOpView::AddVethPair { .. } => step.context == Some("create veth pair"@),
        NetOpView::FindLink { name } => step.context == Some("link "@ + name + " not found"@),
        NetOpView::AddAddress4 { .. } => step.context == Some("v4 addr"@ + place),
        NetOpView::AddAddress6 { .. } => step.context == Some("v6 addr"@ + place),
        NetOpView::SetUp => step.context is None,
        NetOpView::OpenNamespace { .. } => step.context == Some("open netns file"@),
        NetOpView::EnterNamespace { .. } => step.context == Some("setns"@),
        NetOpView::MoveToNamespace => step.context == Some("move veth peer into netns"@),
        NetOpView::AddDefaultRoute4 { .. } => step.context == Some("v4 default route"@),
        NetOpView::AddDefaultRoute6 { .. } => step.context == Some("v6 default route"@),
        NetOpView::DeleteLink { name } => step.context == Some("delete "@ + name),
    }
}

/// The view of a step says all that the step holds.
pub proof fn law_net_view(step: NetStep)
    ensures
        step@.context == opt_chars(step.context),
        step.op matches NetOp::AddVethPair { host, peer } ==> step@.op == (NetOpView::AddVethPair {
            host: host@,
            peer: peer@,
        }),
        step.op matches NetOp::FindLink { name } ==> step@.op == (NetOpView::FindLink { name: name@ }),
        step.op matches NetOp::AddAddress4 { addr, prefix } ==> step@.op == (NetOpView::AddAddress4 {
            addr,
            prefix,
        }),
        step.op matches NetOp::AddAddress6 { addr6, prefix } ==> step@.op == (NetOpView::AddAddress6 {
            addr6,
            prefix,
        }),
        step.op matches NetOp::OpenNamespace { path } ==> step@.op == (NetOpView::OpenNamespace {
            path: path@,
        }),
        step.op matches NetOp::EnterNamespace { path } ==> step@.op == (NetOpView::EnterNamespace {
            path: path@,
        }),
        step.op matches NetOp::AddDefaultRoute4 { gateway } ==> step@.op == (
        NetOpView::AddDefaultRoute4 { gateway }),
        step.op matches NetOp::AddDefaultRoute6 { gateway6 } ==> step@.op == (
        NetOpView::AddDefaultRoute6 { gateway6 }),
        step.op matches NetOp::DeleteLink { name } ==> step@.op == (NetOpView::DeleteLink {
            name: name@,
        }),
        step.op is SetUp <==> step@.op is SetUp,
        step.op is MoveToNamespace <==> step@.op is MoveToNamespace,
{
}

} // verus!
