//! Packet filter rules as data, and what they do to a packet.
//!
//! A rule is a list of expressions that work on one register. An expression loads the register,
//! masks it, compares it or ends the rule with a verdict. The first comparison that fails ends the
//! rule without one.

use vstd::prelude::*;
use crate::subnet::{be_bytes16, be_bytes4, machine_bytes4, ByteOrder};

verus! {

/// What an expression can load into the register.
#[derive(Clone, Copy, Debug, PartialEq, Eq, Structural)]
pub enum Load {
    /// The name of the interface that the packet came in by.
    IifName,
    /// The name of the interface that the packet leaves by.
    OifName,
    /// The number of the packet's protocol family.
    NfProto,
    /// The bits of the connection's state.
    CtState,
    /// The source address in an IPv4 header.
    Saddr4,
    /// The source address in an IPv6 header.
    Saddr6,
}

/// An expression of a rule.
#[derive(Debug)]
pub enum Expr {
    /// Loads the register.
    Load(Load),
    /// Replaces the register by its conjunction with `mask`, then flips the bits of `xor`.
    Bitwise { mask: Vec<u8>, xor: Vec<u8> },
    /// Goes on where the register begins with these bytes.
    Equal(Vec<u8>),
    /// Goes on where the register does not begin with these bytes.
    NotEqual(Vec<u8>),
    /// Accepts the packet.
    Accept,
    /// Accepts the packet and gives it the source address of the interface that it leaves by.
    Masquerade,
}

/// An expression, with its bytes as sequences.
pub enum ExprView {
    Load(Load),
    Bitwise { mask: Seq<u8>, xor: Seq<u8> },
    Equal(Seq<u8>),
    NotEqual(Seq<u8>),
    Accept,
    Masquerade,
}

impl View for Expr {
    type V = ExprView;

    open spec fn view(&self) -> ExprView {
        match self {
            Expr::Load(l) => ExprView::Load(*l),
            Expr::Bitwise { mask, xor } => ExprView::Bitwise { mask: mask@, xor: xor@ },
            Expr::Equal(d) => ExprView::Equal(d@),
            Expr::NotEqual(d) => ExprView::NotEqual(d@),
            Expr::Accept => ExprView::Accept,
            Expr::Masquerade => ExprView::Masquerade,
        }
    }
}

/// The views of a list of expressions.
pub open spec fn expr_views(v: Seq<Expr>) -> Seq<ExprView> {
    Seq::new(v.len(), |i: int| v[i]@)
}

/// What a base chain is for.
#[derive(Clone, Copy, Debug, PartialEq, Eq, Structural)]
pub enum ChainKind {
    Filter,
    Nat,
}

/// Where in a packet's way a base chain stands.
#[derive(Clone, Copy, Debug, PartialEq, Eq, Structural)]
pub enum HookPoint {
    Forward,
    PostRouting,
}

/// What happens to a packet that no rule of a chain decides on.
#[derive(Clone, Copy, Debug, PartialEq, Eq, Structural)]
pub enum Policy {
    Accept,
    Drop,
}

/// A change to the packet filter. Every table is of the family `inet`.
#[derive(Debug)]
pub enum Command {
    /// Adds a table.
    AddTable { table: String },
    /// Adds a base chain to a table.
    AddChain {
        table: String,
        chain: String,
        kind: ChainKind,
        hook: HookPoint,
        priority: i32,
        policy: Policy,
    },
    /// Appends a rule to a chain.
    AddRule { table: String, chain: String, exprs: Vec<Expr> },
    /// Deletes a table with all that it holds.
    DeleteTable { table: String },
}

/// A change to the packet filter, with its texts and lists as sequences.
pub enum CommandView {
    AddTable { table: Seq<char> },
    AddChain {
        table: Seq<char>,
        chain: Seq<char>,
        kind: ChainKind,
        hook: HookPoint,
        priority: i32,
        policy: Policy,
    },
    AddRule { table: Seq<char>, chain: Seq<char>, exprs: Seq<ExprView> },
    DeleteTable { table: Seq<char> },
}

impl View for Command {
    type V = CommandView;

    open spec fn view(&self) -> CommandView {
        match self {
            Command::AddTable { table } => CommandView::AddTable { table: table@ },
            Command::AddChain { table, chain, kind, hook, priority, policy } => {
                CommandView::AddChain {
                    table: table@,
                    chain: chain@,
                    kind: *kind,
                    hook: *hook,
                    priority: *priority,
                    policy: *policy,
                }
            },
            Command::AddRule { table, chain, exprs } => CommandView::AddRule {
                table: table@,
                chain: chain@,
                exprs: expr_views(exprs@),
            },
            Command::DeleteTable { table } => CommandView::DeleteTable { table: table@ },
        }
    }
}

/// The views of a list of changes.
pub open spec fn command_views(v: Seq<Command>) -> Seq<CommandView> {
    Seq::new(v.len(), |i: int| v[i]@)
}

/// What the rules can see of a packet.
pub struct Packet {
    /// The name of the interface that it came in by.
    pub iif: Seq<u8>,
    /// The name of the interface that it leaves by.
    pub oif: Seq<u8>,
    /// The number of its protocol family.
    pub proto: u8,
    /// The state of its connection.
    pub state: u32,
    /// The order in which the machine that handles it keeps the bytes of a number.
    pub order: ByteOrder,
    /// Its source address, read as an IPv4 header has it.
    pub saddr4: u32,
    /// Its source address, read as an IPv6 header has it.
    pub saddr6: u128,
}

/// The name of an interface has less than sixteen bytes, and none of them is zero.
pub open spec fn is_iface_name(name: Seq<u8>) -> bool {
    name.len() < 16 && !name.contains(0u8)
}

impl Packet {
    /// The packet's two interfaces have names that interfaces can have.
    pub open spec fn wf(self) -> bool {
        is_iface_name(self.iif) && is_iface_name(self.oif)
    }
}

/// An interface name in the register: sixteen bytes, with zeros behind the name.
pub open spec fn padded(name: Seq<u8>) -> Seq<u8> {
    Seq::new(
        16,
        |i: int|
            if i < name.len() {
                name[i]
            } else {
                0u8
            },
    )
}

/// What `l` loads of the packet `p`. The state of the connection stands in the register in the
/// machine's own order.
pub open spec fn loaded(p: Packet, l: Load) -> Seq<u8> {
    match l {
        Load::IifName => padded(p.iif),
        Load::OifName => padded(p.oif),
        Load::NfProto => seq![p.proto],
        Load::CtState => machine_bytes4(p.state, p.order),
        Load::Saddr4 => be_bytes4(p.saddr4),
        Load::Saddr6 => be_bytes16(p.saddr6),
    }
}

/// The register after a mask and a flip.
pub open spec fn masked(reg: Seq<u8>, mask: Seq<u8>, xor: Seq<u8>) -> Seq<u8> {
    Seq::new(mask.len(), |i: int| (reg[i] & mask[i]) ^ xor[i])
}

/// Whether the register begins with `data`.
pub open spec fn begins_with(reg: Seq<u8>, data: Seq<u8>) -> bool {
    data.len() <= reg.len() && reg.take(data.len() as int) == data
}

/// What a chain does with a packet.
pub enum Verdict {
    Accept,
    Masquerade,
    Drop,
}

/// The verdict of a rule on `p`, where it has one. `reg` is what stands in the register.
pub open spec fn rule_verdict(exprs: Seq<ExprView>, p: Packet, reg: Seq<u8>) -> Option<Verdict>
    decreases exprs.len(),
{
    if exprs.len() == 0 {
        None
    } else {
        let rest = exprs.skip(1);
        match exprs[0] {
            ExprView::Load(l) => rule_verdict(rest, p, loaded(p, l)),
            ExprView::Bitwise { mask, xor } => rule_verdict(rest, p, masked(reg, mask, xor)),
            ExprView::Equal(d) => if begins_with(reg, d) {
                rule_verdict(rest, p, reg)
            } else {
                None
            },
            ExprView::NotEqual(d) => if begins_with(reg, d) {
                None
            } else {
                rule_verdict(rest, p, reg)
            },
            ExprView::Accept => Some(Verdict::Accept),
            ExprView::Masquerade => Some(Verdict::Masquerade),
        }
    }
}

/// The rules that `commands` append to a chain, in order. Deleting its table removes them.
pub open spec fn rules_of(
    commands: Seq<CommandView>,
    table: Seq<char>,
    chain: Seq<char>,
) -> Seq<Seq<ExprView>>
    decreases commands.len(),
{
    if commands.len() == 0 {
        Seq::empty()
    } else {
        let before = rules_of(commands.drop_last(), table, chain);
        match commands.last() {
            CommandView::AddRule { table: t, chain: c, exprs } => if t == table && c == chain {
                before.push(exprs)
            } else {
                before
            },
            CommandView::DeleteTable { table: t } => if t == table {
                Seq::empty()
            } else {
                before
            },
            _ => before,
        }
    }
}

/// The verdict of the first rule that has one, and the policy's where none has.
pub open spec fn verdict(rules: Seq<Seq<ExprView>>, policy: Policy, p: Packet) -> Verdict
    decreases rules.len(),
{
    if rules.len() == 0 {
        match policy {
            Policy::Accept => Verdict::Accept,
            Policy::Drop => Verdict::Drop,
        }
    } else {
        match rule_verdict(rules[0], p, Seq::empty()) {
            Some(v) => v,
            None => verdict(rules.skip(1), policy, p),
        }
    }
}

/// What a chain that `commands` add does with the packet `p`: `None` where they leave no such chain.
pub open spec fn chain_verdict(
    commands: Seq<CommandView>,
    table: Seq<char>,
    chain: Seq<char>,
    p: Packet,
) -> Option<Verdict> {
    match chain_policy(commands, table, chain) {
        Some(policy) => Some(verdict(rules_of(commands, table, chain), policy, p)),
        None => None,
    }
}

/// The policy of a chain that `commands` add. Deleting its table removes the chain.
pub open spec fn chain_policy(
    commands: Seq<CommandView>,
    table: Seq<char>,
    chain: Seq<char>,
) -> Option<Policy>
    decreases commands.len(),
{
    if commands.len() == 0 {
        None
    } else {
        match commands.last() {
            CommandView::AddChain { table: t, chain: c, policy, .. } => if t == table && c
                == chain {
                Some(policy)
            } else {
                chain_policy(commands.drop_last(), table, chain)
            },
            CommandView::DeleteTable { table: t } => if t == table {
                None
            } else {
                chain_policy(commands.drop_last(), table, chain)
            },
            _ => chain_policy(commands.drop_last(), table, chain),
        }
    }
}

/// The view of an expression or of a change says all that it holds.
pub proof fn law_rule_views(e: Expr, c: Command, rules: Seq<Expr>, commands: Seq<Command>, i: int)
    ensures
        e matches Expr::Load(l) ==> e@ == ExprView::Load(l),
        e matches Expr::Bitwise { mask, xor } ==> e@ == (ExprView::Bitwise { mask: mask@, xor: xor@ }),
        e matches Expr::Equal(d) ==> e@ == ExprView::Equal(d@),
        e matches Expr::NotEqual(d) ==> e@ == ExprView::NotEqual(d@),
        e is Accept <==> e@ is Accept,
        e is Masquerade <==> e@ is Masquerade,
        c matches Command::AddTable { table } ==> c@ == (CommandView::AddTable { table: table@ }),
        c matches Command::DeleteTable { table } ==> c@ == (CommandView::DeleteTable { table: table@ }),
        c matches Command::AddChain { table, chain, kind, hook, priority, policy } ==> c@ == (
        CommandView::AddChain { table: table@, chain: chain@, kind, hook, priority, policy }),
        c matches Command::AddRule { table, chain, exprs } ==> c@ == (CommandView::AddRule {
            table: table@,
            chain: chain@,
            exprs: expr_views(exprs@),
        }),
        expr_views(rules).len() == rules.len(),
        0 <= i < rules.len() ==> expr_views(rules)[i] == rules[i]@,
        command_views(commands).len() == commands.len(),
        0 <= i < commands.len() ==> command_views(commands)[i] == commands[i]@,
{
}

} // verus!
