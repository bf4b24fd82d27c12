//! What the rules of the firewall do to traffic.

use vstd::prelude::*;
use vstd::utf8::encode_utf8;
use crate::firewall::{
    iface_data, in_rule, masq4_rule, masq6_rule, namespace_commands, nat_commands, out_rule, removal, zeros,
    CT_ESTABLISHED, CT_RELATED, CT_REPLY, FORWARD_CHAIN, POSTROUTING_CHAIN, TABLE_NAME,
};
use crate::nft::{
    begins_with, chain_policy, chain_verdict, is_iface_name, loaded, masked, padded, rule_verdict,
    rules_of, verdict, ChainKind, CommandView, ExprView, HookPoint, Load, Packet, Policy, Verdict,
};
use crate::subnet::{
    be_bytes16, be_bytes4, le_bytes4, lemma_same_subnet4, lemma_same_subnet6, machine_bytes4, mask_of4,
    mask_of6, same_subnet4, same_subnet6, ByteOrder,
};
use crate::veth::{
    law_one_network, NS_VETH_ADDR, NS_VETH_ADDR6, PREFIX, PREFIX6, SUBNET, SUBNET6, VETH_HOST,
};

verus! {

/// A name of the library's can be compared with an interface's: it holds no zero byte.
pub open spec fn is_plain(name: Seq<char>) -> bool {
    !encode_utf8(name).contains(0u8)
}

/// A comparison with the data of a name holds of the interface of that name alone.
pub proof fn lemma_iface_match(iface: Seq<u8>, name: Seq<char>)
    requires
        is_iface_name(iface),
        is_plain(name),
    ensures
        begins_with(padded(iface), iface_data(name)) <==> iface == encode_utf8(name),
{
    let bytes = encode_utf8(name);
    let data = iface_data(name);
    let n = bytes.len() as int;
    if begins_with(padded(iface), data) {
        assert(padded(iface).take(data.len() as int)[n] == 0u8);
        assert(iface.len() <= n) by {
            if n < iface.len() {
                assert(padded(iface)[n] == iface[n]);
                assert(iface.contains(iface[n]));
            }
        }
        assert forall|i: int| 0 <= i < n implies i < iface.len() && iface[i] == bytes[i] by {
            assert(padded(iface).take(data.len() as int)[i] == data[i]);
            assert(bytes.contains(bytes[i]));
        }
        assert(iface.len() == n) by {
            if iface.len() < n {
                assert(iface[n - 1] == bytes[n - 1]);
            }
        }
        assert(iface =~= bytes);
    }
    if iface == bytes {
        assert(padded(iface).take(data.len() as int) =~= data);
    }
}

proof fn lemma_masked_byte(a: u8, m: u8)
    ensures
        (a & m) ^ 0u8 == a & m,
{
    assert((a & m) ^ 0u8 == a & m) by (bit_vector);
}

proof fn lemma_le_masked(a: u32, m: u32)
    ensures
        masked(le_bytes4(a), le_bytes4(m), zeros(4)) == le_bytes4(a & m),
{
    assert forall|i: int| 0 <= i < 4 implies masked(le_bytes4(a), le_bytes4(m), zeros(4))[i]
        == le_bytes4(a & m)[i] by {
        let s = (8 * i) as u32;
        lemma_masked_byte((a >> s) as u8, (m >> s) as u8);
        assert(((a & m) >> s) as u8 == ((a >> s) as u8) & ((m >> s) as u8)) by (bit_vector);
    }
    assert(masked(le_bytes4(a), le_bytes4(m), zeros(4)) =~= le_bytes4(a & m));
}

proof fn lemma_be4_masked(a: u32, m: u32)
    ensures
        masked(be_bytes4(a), be_bytes4(m), zeros(4)) == be_bytes4(a & m),
{
    assert forall|i: int| 0 <= i < 4 implies masked(be_bytes4(a), be_bytes4(m), zeros(4))[i]
        == be_bytes4(a & m)[i] by {
        let s = (24 - 8 * i) as u32;
        lemma_masked_byte((a >> s) as u8, (m >> s) as u8);
        assert(((a & m) >> s) as u8 == ((a >> s) as u8) & ((m >> s) as u8)) by (bit_vector);
    }
    assert(masked(be_bytes4(a), be_bytes4(m), zeros(4)) =~= be_bytes4(a & m));
}

proof fn lemma_be16_masked(a: u128, m: u128)
    ensures
        masked(be_bytes16(a), be_bytes16(m), zeros(16)) == be_bytes16(a & m),
{
    assert forall|i: int| 0 <= i < 16 implies masked(be_bytes16(a), be_bytes16(m), zeros(16))[i]
        == be_bytes16(a & m)[i] by {
        let s = (120 - 8 * i) as u128;
        lemma_masked_byte((a >> s) as u8, (m >> s) as u8);
        assert(((a & m) >> s) as u8 == ((a >> s) as u8) & ((m >> s) as u8)) by (bit_vector);
    }
    assert(masked(be_bytes16(a), be_bytes16(m), zeros(16)) =~= be_bytes16(a & m));
}

proof fn lemma_le_zero(x: u32)
    ensures
        begins_with(le_bytes4(x), zeros(4)) <==> x == 0,
{
    let b = le_bytes4(x);
    assert(b.take(4) =~= b);
    if b == zeros(4) {
        assert(b[0] == 0 && b[1] == 0 && b[2] == 0 && b[3] == 0);
        assert((x >> 0u32) as u8 == 0 && (x >> 8u32) as u8 == 0 && (x >> 16u32) as u8 == 0 && (x
            >> 24u32) as u8 == 0 ==> x == 0) by (bit_vector);
    }
    if x == 0 {
        assert forall|i: int| 0 <= i < 4 implies b[i] == 0 by {
            let s = (8 * i) as u32;
            assert((0u32 >> s) as u8 == 0) by (bit_vector);
        }
        assert(b =~= zeros(4));
    }
}

proof fn lemma_be4_match(x: u32, y: u32)
    ensures
        begins_with(be_bytes4(x), be_bytes4(y)) <==> x == y,
{
    let a = be_bytes4(x);
    let b = be_bytes4(y);
    assert(a.take(4) =~= a);
    if a == b {
        assert(a[0] == b[0] && a[1] == b[1] && a[2] == b[2] && a[3] == b[3]);
        assert((x >> 24u32) as u8 == (y >> 24u32) as u8 && (x >> 16u32) as u8 == (y >> 16u32) as u8
            && (x >> 8u32) as u8 == (y >> 8u32) as u8 && (x >> 0u32) as u8 == (y >> 0u32) as u8
            ==> x == y) by (bit_vector);
    }
}

/// A number that a machine keeps is masked byte by byte, in whichever order it is kept.
proof fn lemma_machine_masked(a: u32, m: u32, order: ByteOrder)
    ensures
        masked(machine_bytes4(a, order), machine_bytes4(m, order), zeros(4)) == machine_bytes4(
            a & m,
            order,
        ),
        begins_with(machine_bytes4(a, order), zeros(4)) <==> a == 0,
{
    lemma_le_masked(a, m);
    lemma_be4_masked(a, m);
    lemma_le_zero(a);
    lemma_be4_match(a, 0);
    assert(be_bytes4(0) =~= zeros(4)) by {
        assert forall|i: int| 0 <= i < 4 implies be_bytes4(0)[i] == 0 by {
            let s = (24 - 8 * i) as u32;
            assert((0u32 >> s) as u8 == 0) by (bit_vector);
        }
    }
}

proof fn lemma_be16_match(x: u128, y: u128)
    ensures
        begins_with(be_bytes16(x), be_bytes16(y)) <==> x == y,
{
    let a = be_bytes16(x);
    let b = be_bytes16(y);
    assert(a.take(16) =~= a);
    if a == b {
        assert(a[0] == b[0] && a[1] == b[1] && a[2] == b[2] && a[3] == b[3]);
        assert(a[4] == b[4] && a[5] == b[5] && a[6] == b[6] && a[7] == b[7]);
        assert(a[8] == b[8] && a[9] == b[9] && a[10] == b[10] && a[11] == b[11]);
        assert(a[12] == b[12] && a[13] == b[13] && a[14] == b[14] && a[15] == b[15]);
        assert((x >> 120u128) as u8 == (y >> 120u128) as u8 && (x >> 112u128) as u8 == (y
            >> 112u128) as u8 && (x >> 104u128) as u8 == (y >> 104u128) as u8 && (x >> 96u128) as u8
            == (y >> 96u128) as u8 && (x >> 88u128) as u8 == (y >> 88u128) as u8 && (x
            >> 80u128) as u8 == (y >> 80u128) as u8 && (x >> 72u128) as u8 == (y >> 72u128) as u8
            && (x >> 64u128) as u8 == (y >> 64u128) as u8 && (x >> 56u128) as u8 == (y
            >> 56u128) as u8 && (x >> 48u128) as u8 == (y >> 48u128) as u8 && (x >> 40u128) as u8
            == (y >> 40u128) as u8 && (x >> 32u128) as u8 == (y >> 32u128) as u8 && (x
            >> 24u128) as u8 == (y >> 24u128) as u8 && (x >> 16u128) as u8 == (y >> 16u128) as u8
            && (x >> 8u128) as u8 == (y >> 8u128) as u8 && (x >> 0u128) as u8 == (y >> 0u128) as u8
            ==> x == y) by (bit_vector);
    }
}

/// A rule that loads something and compares it goes on with the rest of the rule where the
/// comparison holds, and has no verdict where it does not.
proof fn lemma_load_equal(exprs: Seq<ExprView>, p: Packet, reg: Seq<u8>)
    requires
        exprs.len() >= 2,
        exprs[0] is Load,
        exprs[1] is Equal,
    ensures
        rule_verdict(exprs, p, reg) == if begins_with(
            loaded(p, exprs[0]->Load_0),
            exprs[1]->Equal_0,
        ) {
            rule_verdict(exprs.skip(2), p, loaded(p, exprs[0]->Load_0))
        } else {
            None
        },
{
    assert(exprs.skip(1)[0] == exprs[1]);
    assert(exprs.skip(1).skip(1) =~= exprs.skip(2));
    reveal_with_fuel(rule_verdict, 3);
}

proof fn lemma_load_masked(exprs: Seq<ExprView>, p: Packet, reg: Seq<u8>)
    requires
        exprs.len() >= 3,
        exprs[0] is Load,
        exprs[1] is Bitwise,
    ensures
        rule_verdict(exprs, p, reg) == rule_verdict(
            exprs.skip(2),
            p,
            masked(loaded(p, exprs[0]->Load_0), exprs[1]->mask, exprs[1]->xor),
        ),
{
    assert(exprs.skip(1)[0] == exprs[1]);
    assert(exprs.skip(1).skip(1) =~= exprs.skip(2));
    reveal_with_fuel(rule_verdict, 3);
}

/// Whether `p` goes from the interface `from` to the interface `to`.
pub open spec fn goes(p: Packet, from: Seq<char>, to: Seq<char>) -> bool {
    p.iif == encode_utf8(from) && p.oif == encode_utf8(to)
}

/// Whether `p` belongs to a connection that is established or related.
pub open spec fn is_reply(p: Packet) -> bool {
    p.state & CT_ESTABLISHED != 0 || p.state & CT_RELATED != 0
}

proof fn lemma_out_rule(veth: Seq<char>, uplink: Seq<char>, p: Packet)
    requires
        p.wf(),
        is_plain(veth),
        is_plain(uplink),
    ensures
        rule_verdict(out_rule(veth, uplink), p, Seq::empty()) == if goes(p, veth, uplink) {
            Some(Verdict::Accept)
        } else {
            None
        },
{
    let r = out_rule(veth, uplink);
    lemma_iface_match(p.iif, veth);
    lemma_iface_match(p.oif, uplink);
    lemma_load_equal(r, p, Seq::empty());
    lemma_load_equal(r.skip(2), p, padded(p.iif));
    assert(r.skip(2).skip(2)[0] == ExprView::Accept);
}

proof fn lemma_in_rule(veth: Seq<char>, uplink: Seq<char>, order: ByteOrder, p: Packet)
    requires
        p.wf(),
        p.order == order,
        is_plain(veth),
        is_plain(uplink),
    ensures
        rule_verdict(in_rule(veth, uplink, order), p, Seq::empty()) == if goes(p, uplink, veth)
            && is_reply(p) {
            Some(Verdict::Accept)
        } else {
            None
        },
{
    let r = in_rule(veth, uplink, order);
    lemma_iface_match(p.iif, uplink);
    lemma_iface_match(p.oif, veth);
    lemma_load_equal(r, p, Seq::empty());
    lemma_load_equal(r.skip(2), p, padded(p.iif));
    let r4 = r.skip(2).skip(2);
    assert(r4 =~= r.skip(4));
    lemma_load_masked(r4, p, padded(p.oif));
    lemma_machine_masked(p.state, CT_REPLY, order);
    lemma_machine_masked(p.state & CT_REPLY, 0, order);
    let s = p.state;
    assert(s & 6 != 0 <==> (s & 2 != 0 || s & 4 != 0)) by (bit_vector);
    let r6 = r4.skip(2);
    assert(r6[0] == ExprView::NotEqual(zeros(4)));
    assert(r6.skip(1)[0] == ExprView::Accept);
    reveal_with_fuel(rule_verdict, 3);
}

proof fn lemma_masq4(uplink: Seq<char>, subnet: u32, prefix: u8, p: Packet)
    requires
        p.wf(),
        is_plain(uplink),
        prefix <= 32,
    ensures
        rule_verdict(masq4_rule(uplink, subnet, prefix), p, Seq::empty()) == if p.proto == 2
            && same_subnet4(p.saddr4, subnet, prefix) && p.oif == encode_utf8(uplink) {
            Some(Verdict::Masquerade)
        } else {
            None
        },
{
    let r = masq4_rule(uplink, subnet, prefix);
    let m = mask_of4(prefix);
    lemma_iface_match(p.oif, uplink);
    lemma_load_equal(r, p, Seq::empty());
    assert(seq![p.proto].take(1) =~= seq![p.proto]);
    assert(begins_with(seq![p.proto], seq![2u8]) <==> p.proto == 2) by {
        if seq![p.proto] == seq![2u8] {
            assert(seq![p.proto][0] == seq![2u8][0]);
        }
    }
    let r2 = r.skip(2);
    lemma_load_masked(r2, p, seq![p.proto]);
    lemma_be4_masked(p.saddr4, m);
    lemma_be4_match(p.saddr4 & m, subnet & m);
    lemma_same_subnet4(p.saddr4, subnet, prefix);
    let r4 = r2.skip(2);
    assert(r4[0] == ExprView::Equal(be_bytes4(subnet & m)));
    lemma_load_equal(r4.skip(1), p, be_bytes4(p.saddr4 & m));
    assert(r4.skip(1).skip(2)[0] == ExprView::Masquerade);
    reveal_with_fuel(rule_verdict, 2);
}

proof fn lemma_masq6(uplink: Seq<char>, subnet: u128, prefix: u8, p: Packet)
    requires
        p.wf(),
        is_plain(uplink),
        prefix <= 128,
    ensures
        rule_verdict(masq6_rule(uplink, subnet, prefix), p, Seq::empty()) == if p.proto == 10
            && same_subnet6(p.saddr6, subnet, prefix) && p.oif == encode_utf8(uplink) {
            Some(Verdict::Masquerade)
        } else {
            None
        },
{
    let r = masq6_rule(uplink, subnet, prefix);
    let m = mask_of6(prefix);
    lemma_iface_match(p.oif, uplink);
    lemma_load_equal(r, p, Seq::empty());
    assert(seq![p.proto].take(1) =~= seq![p.proto]);
    assert(begins_with(seq![p.proto], seq![10u8]) <==> p.proto == 10) by {
        if seq![p.proto] == seq![10u8] {
            assert(seq![p.proto][0] == seq![10u8][0]);
        }
    }
    let r2 = r.skip(2);
    lemma_load_masked(r2, p, seq![p.proto]);
    lemma_be16_masked(p.saddr6, m);
    lemma_be16_match(p.saddr6 & m, subnet & m);
    lemma_same_subnet6(p.saddr6, subnet, prefix);
    let r4 = r2.skip(2);
    assert(r4[0] == ExprView::Equal(be_bytes16(subnet & m)));
    lemma_load_equal(r4.skip(1), p, be_bytes16(p.saddr6 & m));
    assert(r4.skip(1).skip(2)[0] == ExprView::Masquerade);
    reveal_with_fuel(rule_verdict, 2);
}

proof fn lemma_chains(
    veth: Seq<char>,
    uplink: Seq<char>,
    subnet4: u32,
    prefix4: u8,
    subnet6: u128,
    prefix6: u8,
    order: ByteOrder,
)
    ensures
        ({
            let c = nat_commands(veth, uplink, subnet4, prefix4, subnet6, prefix6, order);
            &&& chain_policy(c, TABLE_NAME@, FORWARD_CHAIN@) == Some(Policy::Drop)
            &&& chain_policy(c, TABLE_NAME@, POSTROUTING_CHAIN@) == Some(Policy::Accept)
            &&& rules_of(c, TABLE_NAME@, FORWARD_CHAIN@) == seq![
                out_rule(veth, uplink),
                in_rule(veth, uplink, order),
            ]
            &&& rules_of(c, TABLE_NAME@, POSTROUTING_CHAIN@) == seq![
                masq4_rule(uplink, subnet4, prefix4),
                masq6_rule(uplink, subnet6, prefix6),
            ]
        }),
{
    reveal_strlit("forward");
    reveal_strlit("postrouting");
    assert(FORWARD_CHAIN@.len() != POSTROUTING_CHAIN@.len());
    let c7 = nat_commands(veth, uplink, subnet4, prefix4, subnet6, prefix6, order);
    let c6 = c7.drop_last();
    let c5 = c6.drop_last();
    let c4 = c5.drop_last();
    let c3 = c4.drop_last();
    let c2 = c3.drop_last();
    let c1 = c2.drop_last();
    let c0 = c1.drop_last();
    reveal_with_fuel(rules_of, 8);
    reveal_with_fuel(chain_policy, 8);
    assert(c0.len() == 0);
    assert(rules_of(c3, TABLE_NAME@, FORWARD_CHAIN@) =~= seq![out_rule(veth, uplink)]);
    assert(rules_of(c7, TABLE_NAME@, FORWARD_CHAIN@) =~= seq![
        out_rule(veth, uplink),
        in_rule(veth, uplink, order),
    ]);
    assert(rules_of(c7, TABLE_NAME@, POSTROUTING_CHAIN@) =~= seq![
        masq4_rule(uplink, subnet4, prefix4),
        masq6_rule(uplink, subnet6, prefix6),
    ]);
}

/// The host relays a packet exactly where it goes from the namespace to the uplink, or back from
/// the uplink to the namespace as part of a connection that is established or related. It drops
/// every other packet.
pub proof fn law_forward(
    veth: Seq<char>,
    uplink: Seq<char>,
    subnet4: u32,
    prefix4: u8,
    subnet6: u128,
    prefix6: u8,
    order: ByteOrder,
    p: Packet,
)
    requires
        p.wf(),
        p.order == order,
        is_plain(veth),
        is_plain(uplink),
    ensures
        chain_verdict(
            nat_commands(veth, uplink, subnet4, prefix4, subnet6, prefix6, order),
            TABLE_NAME@,
            FORWARD_CHAIN@,
            p,
        ) == Some(
            if goes(p, veth, uplink) || (goes(p, uplink, veth) && is_reply(p)) {
                Verdict::Accept
            } else {
                Verdict::Drop
            },
        ),
{
    lemma_chains(veth, uplink, subnet4, prefix4, subnet6, prefix6, order);
    lemma_out_rule(veth, uplink, p);
    lemma_in_rule(veth, uplink, order, p);
    let rules = seq![out_rule(veth, uplink), in_rule(veth, uplink, order)];
    assert(rules.skip(1)[0] == in_rule(veth, uplink, order));
    assert(rules.skip(1).skip(1).len() == 0);
    reveal_with_fuel(verdict, 3);
}

/// A packet that leaves is masqueraded exactly where it leaves through the uplink and comes from
/// the namespace's own IPv4 or IPv6 network. Every other packet passes unchanged.
pub proof fn law_masquerade(
    veth: Seq<char>,
    uplink: Seq<char>,
    subnet4: u32,
    prefix4: u8,
    subnet6: u128,
    prefix6: u8,
    order: ByteOrder,
    p: Packet,
)
    requires
        p.wf(),
        is_plain(uplink),
        prefix4 <= 32,
        prefix6 <= 128,
    ensures
        chain_verdict(
            nat_commands(veth, uplink, subnet4, prefix4, subnet6, prefix6, order),
            TABLE_NAME@,
            POSTROUTING_CHAIN@,
            p,
        ) == Some(
            if p.oif == encode_utf8(uplink) && ((p.proto == 2 && same_subnet4(
                p.saddr4,
                subnet4,
                prefix4,
            )) || (p.proto == 10 && same_subnet6(p.saddr6, subnet6, prefix6))) {
                Verdict::Masquerade
            } else {
                Verdict::Accept
            },
        ),
{
    lemma_chains(veth, uplink, subnet4, prefix4, subnet6, prefix6, order);
    lemma_masq4(uplink, subnet4, prefix4, p);
    lemma_masq6(uplink, subnet6, prefix6, p);
    let rules = seq![
        masq4_rule(uplink, subnet4, prefix4),
        masq6_rule(uplink, subnet6, prefix6),
    ];
    assert(rules.skip(1)[0] == masq6_rule(uplink, subnet6, prefix6));
    assert(rules.skip(1).skip(1).len() == 0);
    reveal_with_fuel(verdict, 3);
}

/// What the namespace itself sends through the uplink is masqueraded, from its IPv4 and from its IPv6
/// address, and the host relays it.
pub proof fn law_own_networks(uplink: Seq<char>, order: ByteOrder, p: Packet)
    requires
        p.wf(),
        p.order == order,
        is_plain(uplink),
        goes(p, VETH_HOST@, uplink),
        (p.proto == 2 && p.saddr4 == NS_VETH_ADDR) || (p.proto == 10 && p.saddr6 == NS_VETH_ADDR6),
    ensures
        chain_verdict(namespace_commands(uplink, order), TABLE_NAME@, FORWARD_CHAIN@, p) == Some(
            Verdict::Accept,
        ),
        chain_verdict(namespace_commands(uplink, order), TABLE_NAME@, POSTROUTING_CHAIN@, p) == Some(
            Verdict::Masquerade,
        ),
{
    law_one_network();
    lemma_veth_plain();
    law_forward(VETH_HOST@, uplink, SUBNET, PREFIX, SUBNET6, PREFIX6, order, p);
    law_masquerade(VETH_HOST@, uplink, SUBNET, PREFIX, SUBNET6, PREFIX6, order, p);
}

proof fn lemma_veth_plain()
    ensures
        is_plain(VETH_HOST@),
{
    reveal_strlit("vh0");
    vstd::utf8::is_ascii_chars_encode_utf8(VETH_HOST@);
}

/// Whatever was in the packet filter before, once the rules are removed and added again the two
/// chains do what they do on a host that had none.
pub proof fn law_rebuilt_rules(
    before: Seq<CommandView>,
    veth: Seq<char>,
    uplink: Seq<char>,
    subnet4: u32,
    prefix4: u8,
    subnet6: u128,
    prefix6: u8,
    order: ByteOrder,
    p: Packet,
)
    ensures
        ({
            let fresh = nat_commands(veth, uplink, subnet4, prefix4, subnet6, prefix6, order);
            let rebuilt = before + removal() + fresh;
            &&& chain_verdict(rebuilt, TABLE_NAME@, FORWARD_CHAIN@, p) == chain_verdict(
                fresh,
                TABLE_NAME@,
                FORWARD_CHAIN@,
                p,
            )
            &&& chain_verdict(rebuilt, TABLE_NAME@, POSTROUTING_CHAIN@, p) == chain_verdict(
                fresh,
                TABLE_NAME@,
                POSTROUTING_CHAIN@,
                p,
            )
        }),
{
    let fresh = nat_commands(veth, uplink, subnet4, prefix4, subnet6, prefix6, order);
    lemma_behind_removal(before + removal(), fresh, FORWARD_CHAIN@);
    lemma_behind_removal(before + removal(), fresh, POSTROUTING_CHAIN@);
}

/// What stands before a removal of the table has no effect on its chains.
proof fn lemma_behind_removal(a: Seq<CommandView>, b: Seq<CommandView>, chain: Seq<char>)
    requires
        a.len() > 0,
        a.last() == (CommandView::DeleteTable { table: TABLE_NAME@ }),
    ensures
        rules_of(a + b, TABLE_NAME@, chain) == rules_of(b, TABLE_NAME@, chain),
        chain_policy(a + b, TABLE_NAME@, chain) == chain_policy(b, TABLE_NAME@, chain),
    decreases b.len(),
{
    if b.len() == 0 {
        assert(a + b =~= a);
    } else {
        assert((a + b).drop_last() =~= a + b.drop_last());
        assert((a + b).last() == b.last());
        lemma_behind_removal(a, b.drop_last(), chain);
    }
}

/// The teardown leaves nothing of the two chains: they are gone, with their rules.
pub proof fn law_removal(
    veth: Seq<char>,
    uplink: Seq<char>,
    subnet4: u32,
    prefix4: u8,
    subnet6: u128,
    prefix6: u8,
    order: ByteOrder,
    p: Packet,
)
    ensures
        ({
            let after = nat_commands(veth, uplink, subnet4, prefix4, subnet6, prefix6, order)
                + removal();
            &&& chain_verdict(after, TABLE_NAME@, FORWARD_CHAIN@, p) is None
            &&& chain_verdict(after, TABLE_NAME@, POSTROUTING_CHAIN@, p) is None
        }),
{
    let after = nat_commands(veth, uplink, subnet4, prefix4, subnet6, prefix6, order) + removal();
    assert(after.last() == removal()[0]);
}

/// The table that a change is about.
pub open spec fn table_of(c: CommandView) -> Seq<char> {
    match c {
        CommandView::AddTable { table } => table,
        CommandView::AddChain { table, .. } => table,
        CommandView::AddRule { table, .. } => table,
        CommandView::DeleteTable { table } => table,
    }
}

/// The changes that set up the rules are about one table only and delete nothing. They add it first.
/// They add one chain that filters where packets are forwarded and drops by default, and one that
/// translates addresses where packets leave and accepts by default, and no other. Every rule belongs to
/// a chain that was added before it.
pub proof fn law_ruleset(
    veth: Seq<char>,
    uplink: Seq<char>,
    subnet4: u32,
    prefix4: u8,
    subnet6: u128,
    prefix6: u8,
    order: ByteOrder,
    i: int,
)
    requires
        0 <= i < nat_commands(veth, uplink, subnet4, prefix4, subnet6, prefix6, order).len(),
    ensures
        ({
            let c = nat_commands(veth, uplink, subnet4, prefix4, subnet6, prefix6, order);
            &&& table_of(c[i]) == "fishnet"@
            &&& !(c[i] is DeleteTable)
            &&& c[i] is AddTable <==> i == 0
            &&& c[i] matches CommandView::AddChain { chain, kind, hook, priority, policy, .. } ==> {
                ||| chain == "forward"@ && kind == ChainKind::Filter && hook == HookPoint::Forward
                    && priority == 0 && policy == Policy::Drop
                ||| chain == "postrouting"@ && kind == ChainKind::Nat && hook
                    == HookPoint::PostRouting && priority == 100 && policy == Policy::Accept
            }
            &&& forall|j: int|
                0 <= j < c.len() && c[i] is AddChain && #[trigger] c[j] is AddChain
                    && c[i]->AddChain_chain == c[j]->AddChain_chain ==> i == j
            &&& c[i] is AddRule ==> exists|j: int|
                0 <= j < i && #[trigger] c[j] is AddChain && c[j]->AddChain_chain
                    == c[i]->AddRule_chain
            &&& exists|j: int|
                0 <= j < c.len() && #[trigger] c[j] is AddChain && c[j]->AddChain_chain == "forward"@
            &&& exists|j: int|
                0 <= j < c.len() && #[trigger] c[j] is AddChain && c[j]->AddChain_chain
                    == "postrouting"@
        }),
{
    reveal_strlit("forward");
    reveal_strlit("postrouting");
    assert(FORWARD_CHAIN@.len() != POSTROUTING_CHAIN@.len());
    let c = nat_commands(veth, uplink, subnet4, prefix4, subnet6, prefix6, order);
    assert(c[1] is AddChain && c[1]->AddChain_chain == "forward"@);
    assert(c[4] is AddChain && c[4]->AddChain_chain == "postrouting"@);
}

/// On the namespace's own rules the host relays exactly what goes from the host's end of the pair to the
/// uplink, and replies back. It masquerades exactly what leaves by the uplink from 10.200.1.0/24 or from
/// fd00:fefe:cafe::/64.
pub proof fn law_namespace_rules(uplink: Seq<char>, order: ByteOrder, p: Packet)
    requires
        p.wf(),
        p.order == order,
        is_plain(uplink),
    ensures
        ({
            let c = namespace_commands(uplink, order);
            &&& chain_verdict(c, TABLE_NAME@, FORWARD_CHAIN@, p) == Some(
                if goes(p, "vh0"@, uplink) || (goes(p, uplink, "vh0"@) && (p.state & 2 != 0 || p.state
                    & 4 != 0)) {
                    Verdict::Accept
                } else {
                    Verdict::Drop
                },
            )
            &&& chain_verdict(c, TABLE_NAME@, POSTROUTING_CHAIN@, p) == Some(
                if p.oif == encode_utf8(uplink) && ((p.proto == 2 && p.saddr4 as int / 256
                    == 0x0ac801int) || (p.proto == 10 && p.saddr6 as int / 0x1_0000_0000_0000_0000
                    == 0xfd00_fefe_cafe_0000int)) {
                    Verdict::Masquerade
                } else {
                    Verdict::Accept
                },
            )
        }),
{
    lemma_veth_plain();
    law_forward(VETH_HOST@, uplink, SUBNET, PREFIX, SUBNET6, PREFIX6, order, p);
    law_masquerade(VETH_HOST@, uplink, SUBNET, PREFIX, SUBNET6, PREFIX6, order, p);
    vstd::arithmetic::power2::lemma2_to64();
    vstd::arithmetic::power2::lemma2_to64_rest();
    assert(SUBNET as int / 256 == 0x0ac801int);
    assert(SUBNET6 as int / 0x1_0000_0000_0000_0000 == 0xfd00_fefe_cafe_0000int);
}

/// The teardown touches no other table: what the chains of any other table do stays as it was.
pub proof fn law_removal_is_narrow(
    before: Seq<CommandView>,
    table: Seq<char>,
    chain: Seq<char>,
    p: Packet,
)
    requires
        table != "fishnet"@,
    ensures
        chain_verdict(before + removal(), table, chain, p) == chain_verdict(before, table, chain, p),
        forall|i: int|
            0 <= i < removal().len() ==> #[trigger] removal()[i] is DeleteTable && table_of(removal()[i])
                == "fishnet"@,
{
    let after = before + removal();
    assert(after.drop_last() =~= before);
    assert(after.last() == removal()[0]);
}

} // verus!
