//! Forwarding and address translation for the namespace: the rules, and how they are removed.

use vstd::prelude::*;
use vstd::utf8::encode_utf8;
use crate::abi::{nfproto_ipv4, nfproto_ipv6};
use crate::nft::{
    command_views, expr_views, ChainKind, Command, CommandView, Expr, ExprView, HookPoint, Load, Policy,
};
use crate::subnet::{
    be_bytes16, be_bytes4, machine_bytes4, mask4, mask6, mask_of4, mask_of6, to_be_bytes16, to_be_bytes4,
    to_machine_bytes4, ByteOrder,
};
use crate::text::{opt_chars, same};
use crate::veth::{PREFIX, PREFIX6, SUBNET, SUBNET6, VETH_HOST};

verus! {

/// The packet filter table that holds all the rules.
pub const TABLE_NAME: &'static str = "fishnet";

/// The chain that decides which packets the host relays.
pub const FORWARD_CHAIN: &'static str = "forward";

/// The chain that translates source addresses.
pub const POSTROUTING_CHAIN: &'static str = "postrouting";

/// The state bit of a connection that has seen packets both ways.
pub const CT_ESTABLISHED: u32 = 2;

/// The state bit of a connection that another one brought about.
pub const CT_RELATED: u32 = 4;

/// The two states of reply traffic.
pub const CT_REPLY: u32 = 6;

/// The bytes of an interface name with a zero behind them, so that a comparison matches the whole
/// name and not only its beginning.
pub open spec fn iface_data(name: Seq<char>) -> Seq<u8> {
    encode_utf8(name).push(0u8)
}

/// The bytes that an interface name is compared with.
pub fn iface_bytes(name: &str) -> (r: Vec<u8>)
    ensures
        r@ == iface_data(name@),
{
    let mut b = name.as_bytes_vec();
    b.push(0u8);
    b
}

/// The rule that lets packets through from the namespace to the uplink.
pub open spec fn out_rule(veth: Seq<char>, uplink: Seq<char>) -> Seq<ExprView> {
    seq![
        ExprView::Load(Load::IifName),
        ExprView::Equal(iface_data(veth)),
        ExprView::Load(Load::OifName),
        ExprView::Equal(iface_data(uplink)),
        ExprView::Accept,
    ]
}

/// The rule that lets replies through from the uplink to the namespace, on a machine that keeps
/// numbers in the given order.
pub open spec fn in_rule(veth: Seq<char>, uplink: Seq<char>, order: ByteOrder) -> Seq<ExprView> {
    seq![
        ExprView::Load(Load::IifName),
        ExprView::Equal(iface_data(uplink)),
        ExprView::Load(Load::OifName),
        ExprView::Equal(iface_data(veth)),
        ExprView::Load(Load::CtState),
        ExprView::Bitwise { mask: machine_bytes4(CT_REPLY, order), xor: zeros(4) },
        ExprView::NotEqual(zeros(4)),
        ExprView::Accept,
    ]
}

/// `n` zero bytes.
pub open spec fn zeros(n: nat) -> Seq<u8> {
    Seq::new(n, |i: int| 0u8)
}

/// The rule that masquerades what an IPv4 network sends through the uplink.
pub open spec fn masq4_rule(uplink: Seq<char>, subnet: u32, prefix: u8) -> Seq<ExprView> {
    seq![
        ExprView::Load(Load::NfProto),
        ExprView::Equal(seq![2u8]),
        ExprView::Load(Load::Saddr4),
        ExprView::Bitwise { mask: be_bytes4(mask_of4(prefix)), xor: zeros(4) },
        ExprView::Equal(be_bytes4(subnet & mask_of4(prefix))),
        ExprView::Load(Load::OifName),
        ExprView::Equal(iface_data(uplink)),
        ExprView::Masquerade,
    ]
}

/// The rule that masquerades what an IPv6 network sends through the uplink.
pub open spec fn masq6_rule(uplink: Seq<char>, subnet: u128, prefix: u8) -> Seq<ExprView> {
    seq![
        ExprView::Load(Load::NfProto),
        ExprView::Equal(seq![10u8]),
        ExprView::Load(Load::Saddr6),
        ExprView::Bitwise { mask: be_bytes16(mask_of6(prefix)), xor: zeros(16) },
        ExprView::Equal(be_bytes16(subnet & mask_of6(prefix))),
        ExprView::Load(Load::OifName),
        ExprView::Equal(iface_data(uplink)),
        ExprView::Masquerade,
    ]
}

/// The changes that set up forwarding and address translation: one table, a chain that forwards
/// nothing but what its two rules let through, and a chain with a masquerade rule for each of the
/// two networks.
pub open spec fn nat_commands(
    veth: Seq<char>,
    uplink: Seq<char>,
    subnet4: u32,
    prefix4: u8,
    subnet6: u128,
    prefix6: u8,
    order: ByteOrder,
) -> Seq<CommandView> {
    seq![
        CommandView::AddTable { table: TABLE_NAME@ },
        CommandView::AddChain {
            table: TABLE_NAME@,
            chain: FORWARD_CHAIN@,
            kind: ChainKind::Filter,
            hook: HookPoint::Forward,
            priority: 0,
            policy: Policy::Drop,
        },
        CommandView::AddRule {
            table: TABLE_NAME@,
            chain: FORWARD_CHAIN@,
            exprs: out_rule(veth, uplink),
        },
        CommandView::AddRule {
            table: TABLE_NAME@,
            chain: FORWARD_CHAIN@,
            exprs: in_rule(veth, uplink, order),
        },
        CommandView::AddChain {
            table: TABLE_NAME@,
            chain: POSTROUTING_CHAIN@,
            kind: ChainKind::Nat,
            hook: HookPoint::PostRouting,
            priority: 100,
            policy: Policy::Accept,
        },
        CommandView::AddRule {
            table: TABLE_NAME@,
            chain: POSTROUTING_CHAIN@,
            exprs: masq4_rule(uplink, subnet4, prefix4),
        },
        CommandView::AddRule {
            table: TABLE_NAME@,
            chain: POSTROUTING_CHAIN@,
            exprs: masq6_rule(uplink, subnet6, prefix6),
        },
    ]
}

fn zero_bytes(n: usize) -> (r: Vec<u8>)
    ensures
        r@ == zeros(n as nat),
{
    let mut r: Vec<u8> = Vec::new();
    let mut i: usize = 0;
    while i < n
        invariant
            i <= n,
            r@ == zeros(i as nat),
        decreases n - i,
    {
        r.push(0u8);
        i = i + 1;
        assert(r@ =~= zeros(i as nat));
    }
    r
}

fn forward_out(veth_host: &str, uplink: &str) -> (r: Vec<Expr>)
    ensures
        expr_views(r@) == out_rule(veth_host@, uplink@),
{
    let r = vec![
        Expr::Load(Load::IifName),
        Expr::Equal(iface_bytes(veth_host)),
        Expr::Load(Load::OifName),
        Expr::Equal(iface_bytes(uplink)),
        Expr::Accept,
    ];
    assert(expr_views(r@) =~= out_rule(veth_host@, uplink@));
    r
}

fn forward_in(veth_host: &str, uplink: &str, order: ByteOrder) -> (r: Vec<Expr>)
    ensures
        expr_views(r@) == in_rule(veth_host@, uplink@, order),
{
    let r = vec![
        Expr::Load(Load::IifName),
        Expr::Equal(iface_bytes(uplink)),
        Expr::Load(Load::OifName),
        Expr::Equal(iface_bytes(veth_host)),
        Expr::Load(Load::CtState),
        Expr::Bitwise {
            mask: to_machine_bytes4(CT_ESTABLISHED | CT_RELATED, order),
            xor: zero_bytes(4),
        },
        Expr::NotEqual(zero_bytes(4)),
        Expr::Accept,
    ];
    assert(2u32 | 4u32 == 6u32) by (bit_vector);
    assert(expr_views(r@) =~= in_rule(veth_host@, uplink@, order));
    r
}

fn masquerade4(uplink: &str, subnet: u32, prefix: u8) -> (r: Vec<Expr>)
    requires
        prefix <= 32,
    ensures
        expr_views(r@) == masq4_rule(uplink@, subnet, prefix),
{
    let mask = mask4(prefix);
    let r = vec![
        Expr::Load(Load::NfProto),
        Expr::Equal(vec![nfproto_ipv4()]),
        Expr::Load(Load::Saddr4),
        Expr::Bitwise { mask: to_be_bytes4(mask), xor: zero_bytes(4) },
        Expr::Equal(to_be_bytes4(subnet & mask)),
        Expr::Load(Load::OifName),
        Expr::Equal(iface_bytes(uplink)),
        Expr::Masquerade,
    ];
    assert(r@[1]@->Equal_0 =~= seq![2u8]);
    assert(expr_views(r@) =~= masq4_rule(uplink@, subnet, prefix));
    r
}

fn masquerade6(uplink: &str, subnet: u128, prefix: u8) -> (r: Vec<Expr>)
    requires
        prefix <= 128,
    ensures
        expr_views(r@) == masq6_rule(uplink@, subnet, prefix),
{
    let mask = mask6(prefix);
    let r = vec![
        Expr::Load(Load::NfProto),
        Expr::Equal(vec![nfproto_ipv6()]),
        Expr::Load(Load::Saddr6),
        Expr::Bitwise { mask: to_be_bytes16(mask), xor: zero_bytes(16) },
        Expr::Equal(to_be_bytes16(subnet & mask)),
        Expr::Load(Load::OifName),
        Expr::Equal(iface_bytes(uplink)),
        Expr::Masquerade,
    ];
    assert(r@[1]@->Equal_0 =~= seq![10u8]);
    assert(expr_views(r@) =~= masq6_rule(uplink@, subnet, prefix));
    r
}

/// The changes that set up forwarding and address translation.
///
/// The forward chain drops by default. Traffic from `veth_host` to `uplink` is let through, and of
/// the traffic from `uplink` to `veth_host` only replies. The chain after routing masquerades what
/// the namespace's own two networks send through `uplink`. `order` is the order in which the machine
/// keeps the bytes of a number, which is how a rule sees the state of a connection.
pub fn setup_nat_and_forward(
    veth_host: &str,
    uplink: &str,
    subnet4: u32,
    prefix4: u8,
    subnet6: u128,
    prefix6: u8,
    order: ByteOrder,
) -> (r: Vec<Command>)
    requires
        prefix4 <= 32,
        prefix6 <= 128,
    ensures
        command_views(r@) == nat_commands(
            veth_host@,
            uplink@,
            subnet4,
            prefix4,
            subnet6,
            prefix6,
            order,
        ),
{
    let r = vec![
        Command::AddTable { table: TABLE_NAME.to_owned() },
        Command::AddChain {
            table: TABLE_NAME.to_owned(),
            chain: FORWARD_CHAIN.to_owned(),
            kind: ChainKind::Filter,
            hook: HookPoint::Forward,
            priority: 0,
            policy: Policy::Drop,
        },
        Command::AddRule {
            table: TABLE_NAME.to_owned(),
            chain: FORWARD_CHAIN.to_owned(),
            exprs: forward_out(veth_host, uplink),
        },
        Command::AddRule {
            table: TABLE_NAME.to_owned(),
            chain: FORWARD_CHAIN.to_owned(),
            exprs: forward_in(veth_host, uplink, order),
        },
        Command::AddChain {
            table: TABLE_NAME.to_owned(),
            chain: POSTROUTING_CHAIN.to_owned(),
            kind: ChainKind::Nat,
            hook: HookPoint::PostRouting,
            priority: 100,
            policy: Policy::Accept,
        },
        Command::AddRule {
            table: TABLE_NAME.to_owned(),
            chain: POSTROUTING_CHAIN.to_owned(),
            exprs: masquerade4(uplink, subnet4, prefix4),
        },
        Command::AddRule {
            table: TABLE_NAME.to_owned(),
            chain: POSTROUTING_CHAIN.to_owned(),
            exprs: masquerade6(uplink, subnet6, prefix6),
        },
    ];
    assert(command_views(r@) =~= nat_commands(
        veth_host@,
        uplink@,
        subnet4,
        prefix4,
        subnet6,
        prefix6,
        order,
    ));
    r
}

/// The rules of the namespace's own pair of links and of its own two networks.
pub open spec fn namespace_commands(uplink: Seq<char>, order: ByteOrder) -> Seq<CommandView> {
    nat_commands(VETH_HOST@, uplink, SUBNET, PREFIX, SUBNET6, PREFIX6, order)
}

/// The changes that set up forwarding and address translation for the namespace's own pair of links
/// and its own two networks.
pub fn namespace_rules(uplink: &str, order: ByteOrder) -> (r: Vec<Command>)
    ensures
        command_views(r@) == namespace_commands(uplink@, order),
{
    setup_nat_and_forward(VETH_HOST, uplink, SUBNET, PREFIX, SUBNET6, PREFIX6, order)
}

/// A table of the packet filter, as the host lists it.
#[derive(Debug)]
pub struct TableEntry {
    /// Whether it is of the family that holds both IPv4 and IPv6.
    pub inet: bool,
    pub name: String,
}

/// Tells whether the table that holds the rules is among `tables`.
pub fn has_table(tables: &Vec<TableEntry>) -> (r: bool)
    ensures
        r == lists_own_table(tables@),
{
    let mut i: usize = 0;
    while i < tables.len()
        invariant
            i <= tables.len(),
            forall|j: int|
                0 <= j < i ==> !((#[trigger] tables@[j]).inet && tables@[j].name@ == TABLE_NAME@),
        decreases tables.len() - i,
    {
        if tables[i].inet && same(tables[i].name.as_str(), TABLE_NAME) {
            return true;
        }
        i = i + 1;
    }
    false
}

/// The change that removes all that `setup_nat_and_forward` added.
pub open spec fn removal() -> Seq<CommandView> {
    seq![CommandView::DeleteTable { table: TABLE_NAME@ }]
}

/// What the teardown does next.
#[derive(Debug)]
pub enum TeardownAction {
    /// Send these changes to the packet filter in one batch.
    Send(Vec<Command>),
    /// Put the forwarding settings back.
    Restore,
    /// Say this, as a warning.
    Warn(String),
    /// The teardown is over, and has succeeded.
    Done,
}

/// What the teardown does next, with its texts and lists as sequences.
pub enum TeardownActionView {
    Send(Seq<CommandView>),
    Restore,
    Warn(Seq<char>),
    Done,
}

impl View for TeardownAction {
    type V = TeardownActionView;

    open spec fn view(&self) -> TeardownActionView {
        match self {
            TeardownAction::Send(commands) => TeardownActionView::Send(command_views(commands@)),
            TeardownAction::Restore => TeardownActionView::Restore,
            TeardownAction::Warn(text) => TeardownActionView::Warn(text@),
            TeardownAction::Done => TeardownActionView::Done,
        }
    }
}

/// What to say, before the reason, where the forwarding settings could not be put back.
pub const NOT_RESTORED: &'static str = "warning: couldn't restore ip forwarding sysctls: ";

/// What comes after the removal of the rules, whether or not it succeeded.
pub open spec fn removed_action(succeeded: bool) -> TeardownActionView {
    TeardownActionView::Restore
}

/// What comes after the settings were put back. The error is why they were not.
pub open spec fn restored_action(error: Option<Seq<char>>) -> TeardownActionView {
    match error {
        Some(why) => TeardownActionView::Warn(NOT_RESTORED@ + why),
        None => TeardownActionView::Done,
    }
}

/// What comes after a warning.
pub open spec fn warned_action() -> TeardownActionView {
    TeardownActionView::Done
}

/// The first thing that the teardown does: remove the rules.
pub fn teardown() -> (r: TeardownAction)
    ensures
        r@ == TeardownActionView::Send(removal()),
{
    let commands = vec![Command::DeleteTable { table: TABLE_NAME.to_owned() }];
    assert(command_views(commands@) =~= removal());
    TeardownAction::Send(commands)
}

/// Decides what comes after the removal of the rules. Rules that are already gone do not matter.
pub fn on_removed(succeeded: bool) -> (r: TeardownAction)
    ensures
        r@ == removed_action(succeeded),
{
    TeardownAction::Restore
}

/// Decides what comes after the settings were put back. The error is why they were not.
pub fn on_restored(error: Option<String>) -> (r: TeardownAction)
    ensures
        r@ == restored_action(opt_chars(error)),
{
    match error {
        Some(why) => {
            let mut text = NOT_RESTORED.to_owned();
            text.append(why.as_str());
            TeardownAction::Warn(text)
        },
        None => TeardownAction::Done,
    }
}

/// Decides what comes after a warning.
pub fn on_warned() -> (r: TeardownAction)
    ensures
        r@ == warned_action(),
{
    TeardownAction::Done
}

/// All that the teardown does, from the action `step` on, where `removed` tells whether the removal
/// of the rules succeeds and `error` why the settings are not put back, if they are not.
pub open spec fn teardown_run(
    step: TeardownActionView,
    removed: bool,
    error: Option<Seq<char>>,
) -> Seq<TeardownActionView>
    decreases
            (match step {
                TeardownActionView::Send(_) => 3int,
                TeardownActionView::Restore => 2,
                TeardownActionView::Warn(_) => 1,
                TeardownActionView::Done => 0,
            }),
{
    match step {
        TeardownActionView::Send(_) => seq![step] + teardown_run(
            removed_action(removed),
            removed,
            error,
        ),
        TeardownActionView::Restore => seq![step] + teardown_run(
            restored_action(error),
            removed,
            error,
        ),
        TeardownActionView::Warn(_) => seq![step] + teardown_run(warned_action(), removed, error),
        TeardownActionView::Done => seq![step],
    }
}

/// The teardown always succeeds. It removes the rules, then puts the settings back whether or not
/// that succeeded, and a failure there comes to a warning and nothing more. So it succeeds a second
/// time too.
pub proof fn law_teardown(removed: bool, error: Option<Seq<char>>)
    ensures
        ({
            let all = teardown_run(TeardownActionView::Send(removal()), removed, error);
            let warning = match error {
                Some(why) => seq![TeardownActionView::Warn(NOT_RESTORED@ + why)],
                None => Seq::empty(),
            };
            all == seq![TeardownActionView::Send(removal()), TeardownActionView::Restore] + warning
                + seq![TeardownActionView::Done]
        }),
{
    reveal_with_fuel(teardown_run, 4);
    let all = teardown_run(TeardownActionView::Send(removal()), removed, error);
    match error {
        Some(why) => {
            assert(all =~= seq![
                TeardownActionView::Send(removal()),
                TeardownActionView::Restore,
                TeardownActionView::Warn(NOT_RESTORED@ + why),
                TeardownActionView::Done,
            ]);
        },
        None => {
            assert(all =~= seq![
                TeardownActionView::Send(removal()),
                TeardownActionView::Restore,
                TeardownActionView::Done,
            ]);
        },
    }
}

/// Whether the table that holds the rules is among `tables`.
pub open spec fn lists_own_table(tables: Seq<TableEntry>) -> bool {
    exists|i: int|
        0 <= i < tables.len() && (#[trigger] tables[i]).inet && tables[i].name@ == TABLE_NAME@
}

/// The table is found wherever it stands among the others, and only by its family and its whole name.
pub proof fn law_own_table(a: Seq<TableEntry>, one: TableEntry, b: Seq<TableEntry>)
    ensures
        !lists_own_table(Seq::empty()),
        lists_own_table(a + seq![one] + b) <==> lists_own_table(a) || lists_own_table(b) || (one.inet
            && one.name@ == "fishnet"@),
{
    let all = a + seq![one] + b;
    if lists_own_table(a) {
        let i = choose|i: int|
            0 <= i < a.len() && (#[trigger] a[i]).inet && a[i].name@ == TABLE_NAME@;
        assert(all[i] == a[i]);
    }
    if lists_own_table(b) {
        let i = choose|i: int|
            0 <= i < b.len() && (#[trigger] b[i]).inet && b[i].name@ == TABLE_NAME@;
        assert(all[a.len() + 1 + i] == b[i]);
    }
    if one.inet && one.name@ == "fishnet"@ {
        assert(all[a.len() as int] == one);
    }
    if lists_own_table(all) {
        let i = choose|i: int|
            0 <= i < all.len() && (#[trigger] all[i]).inet && all[i].name@ == TABLE_NAME@;
        if i < a.len() {
            assert(a[i] == all[i]);
        } else if i > a.len() {
            assert(b[i - a.len() - 1] == all[i]);
        }
    }
}

/// The view of an action says all that the action holds.
pub proof fn law_teardown_view(action: TeardownAction)
    ensures
        action matches TeardownAction::Send(commands) ==> action@ == TeardownActionView::Send(
            command_views(commands@),
        ),
        action matches TeardownAction::Warn(text) ==> action@ == TeardownActionView::Warn(text@),
        action is Restore <==> action@ is Restore,
        action is Done <==> action@ is Done,
{
}

} // verus!
