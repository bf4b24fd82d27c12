use fishnet::firewall::{
    has_table, iface_bytes, namespace_rules, on_removed, on_restored, on_warned, setup_nat_and_forward,
    teardown, TableEntry, TeardownAction,
};
use fishnet::killswitch::{
    connect_gate, exec_gate, has_vpn_interface, has_vpn_name, on_entered, on_vpn_link, Gate, Looked, VpnAction,
};
use fishnet::link::{Link, LinkAttr, Route, RouteAttr};
use fishnet::exec::RunAs;
use fishnet::nft::{ChainKind, Command, Expr, HookPoint, Load, Policy};
use fishnet::subnet::{mask4, mask6, to_be_bytes16, to_be_bytes4, to_le_bytes4, to_machine_bytes4, ByteOrder};
use fishnet::uplink::{on_link, on_route, UplinkAction};
use fishnet::veth::{
    setup_host_side, setup_ns_side, teardown_host_side, NetOp, NetStep, HOST_ADDR, HOST_ADDR6, NS_VETH_ADDR,
    NS_VETH_ADDR6, PREFIX, PREFIX6, SUBNET, SUBNET6, VETH_HOST,
};

fn named(name: &str) -> Link {
    Link { attrs: vec![LinkAttr::Other, LinkAttr::IfName(name.to_string()), LinkAttr::Other] }
}

#[test]
fn masks_of_prefixes() {
    assert_eq!(mask4(0), 0);
    assert_eq!(mask4(1), 0x8000_0000);
    assert_eq!(mask4(24), 0xffff_ff00);
    assert_eq!(mask4(32), 0xffff_ffff);
    assert_eq!(mask6(0), 0);
    assert_eq!(mask6(64), 0xffff_ffff_ffff_ffff_0000_0000_0000_0000);
    assert_eq!(mask6(128), u128::MAX);
}

#[test]
fn bytes_of_addresses() {
    assert_eq!(to_be_bytes4(0x0ac80102), vec![10, 200, 1, 2]);
    assert_eq!(to_le_bytes4(6), vec![6, 0, 0, 0]);
    assert_eq!(to_machine_bytes4(6, ByteOrder::Little), vec![6, 0, 0, 0]);
    assert_eq!(to_machine_bytes4(6, ByteOrder::Big), vec![0, 0, 0, 6]);
    let x: u128 = 0x0102_0304_0506_0708_090a_0b0c_0d0e_0f10;
    assert_eq!(to_be_bytes16(x), x.to_be_bytes().to_vec());
}

#[test]
fn addresses_of_the_pair() {
    assert_eq!(to_be_bytes4(HOST_ADDR), vec![10, 200, 1, 1]);
    assert_eq!(to_be_bytes4(NS_VETH_ADDR), vec![10, 200, 1, 2]);
    assert_eq!(to_be_bytes4(SUBNET), vec![10, 200, 1, 0]);
    let net6 = [0xfd, 0x00, 0xfe, 0xfe, 0xca, 0xfe, 0, 0, 0, 0, 0, 0, 0, 0, 0];
    for (addr, last) in [(HOST_ADDR6, 1u8), (NS_VETH_ADDR6, 2), (SUBNET6, 0)] {
        assert_eq!(to_be_bytes16(addr)[..15], net6);
        assert_eq!(to_be_bytes16(addr)[15], last);
    }
    assert_eq!(HOST_ADDR & mask4(PREFIX), SUBNET);
    assert_eq!(NS_VETH_ADDR & mask4(PREFIX), SUBNET);
    assert_eq!(HOST_ADDR6 & mask6(PREFIX6), SUBNET6);
    assert_eq!(NS_VETH_ADDR6 & mask6(PREFIX6), SUBNET6);
}

#[test]
fn interface_names_end_in_zero() {
    assert_eq!(iface_bytes("vh0"), vec![b'v', b'h', b'0', 0]);
    assert_eq!(iface_bytes(""), vec![0]);
}

/// A packet as a rule sees it.
#[derive(Clone)]
struct Seen {
    iif: &'static str,
    oif: &'static str,
    proto: u8,
    state: u32,
    saddr4: u32,
    saddr6: u128,
    order: ByteOrder,
}

fn register(p: &Seen, load: Load) -> Vec<u8> {
    let name = |n: &str| {
        let mut b = n.as_bytes().to_vec();
        b.resize(16, 0);
        b
    };
    match load {
        Load::IifName => name(p.iif),
        Load::OifName => name(p.oif),
        Load::NfProto => vec![p.proto],
        Load::CtState if p.order == ByteOrder::Big => p.state.to_be_bytes().to_vec(),
        Load::CtState => p.state.to_le_bytes().to_vec(),
        Load::Saddr4 => p.saddr4.to_be_bytes().to_vec(),
        Load::Saddr6 => p.saddr6.to_be_bytes().to_vec(),
    }
}

fn rule(exprs: &[Expr], p: &Seen) -> Option<&'static str> {
    let mut reg = Vec::new();
    for e in exprs {
        match e {
            Expr::Load(l) => reg = register(p, *l),
            Expr::Bitwise { mask, xor } => {
                assert_eq!(mask.len(), xor.len());
                reg = (0..mask.len()).map(|i| (reg[i] & mask[i]) ^ xor[i]).collect();
            }
            Expr::Equal(d) => {
                if !reg.starts_with(d) {
                    return None;
                }
            }
            Expr::NotEqual(d) => {
                if reg.starts_with(d) {
                    return None;
                }
            }
            Expr::Accept => return Some("accept"),
            Expr::Masquerade => return Some("masquerade"),
        }
    }
    None
}

fn verdict(commands: &[Command], name: &str, p: &Seen) -> &'static str {
    let mut policy = "none";
    for c in commands {
        match c {
            Command::AddChain { chain, policy: pol, .. } if chain == name => {
                policy = match pol {
                    Policy::Accept => "accept",
                    Policy::Drop => "drop",
                };
            }
            Command::AddRule { chain, exprs, .. } if chain == name => {
                if let Some(v) = rule(exprs, p) {
                    return v;
                }
            }
            _ => {}
        }
    }
    policy
}

fn ruleset_for(order: ByteOrder) -> Vec<Command> {
    namespace_rules("eth0", order)
}

fn ruleset() -> Vec<Command> {
    ruleset_for(ByteOrder::Little)
}

fn packet() -> Seen {
    Seen { iif: "vh0", oif: "eth0", proto: 2, state: 8, saddr4: NS_VETH_ADDR, saddr6: 0, order: ByteOrder::Little }
}

#[test]
fn forwarding_is_closed_but_for_the_namespace() {
    let c = ruleset();
    assert_eq!(verdict(&c, "forward", &packet()), "accept");
    let back = Seen { iif: "eth0", oif: "vh0", ..packet() };
    assert_eq!(verdict(&c, "forward", &back), "drop");
    assert_eq!(verdict(&c, "forward", &Seen { state: 2, ..back.clone() }), "accept");
    assert_eq!(verdict(&c, "forward", &Seen { state: 4, ..back.clone() }), "accept");
    assert_eq!(verdict(&c, "forward", &Seen { state: 1, ..back.clone() }), "drop");
    assert_eq!(verdict(&c, "forward", &Seen { oif: "eth01", ..packet() }), "drop");
    assert_eq!(verdict(&c, "forward", &Seen { iif: "vh", ..packet() }), "drop");
    assert_eq!(verdict(&c, "forward", &Seen { iif: "eth0", oif: "wlan0", ..packet() }), "drop");
}

#[test]
fn replies_come_back_on_any_machine() {
    for order in [ByteOrder::Little, ByteOrder::Big] {
        let c = ruleset_for(order);
        let back = Seen { iif: "eth0", oif: "vh0", order, ..packet() };
        assert_eq!(verdict(&c, "forward", &Seen { state: 2, ..back.clone() }), "accept");
        assert_eq!(verdict(&c, "forward", &Seen { state: 4, ..back.clone() }), "accept");
        assert_eq!(verdict(&c, "forward", &Seen { state: 8, ..back.clone() }), "drop");
        assert_eq!(verdict(&c, "forward", &Seen { state: 0x0600_0000, ..back.clone() }), "drop");
    }
}

#[test]
fn rules_for_other_networks() {
    let c = setup_nat_and_forward("vx", "eth0", 0x0a000000, 8, 0, 0, ByteOrder::Little);
    assert_eq!(verdict(&c, "forward", &packet()), "drop");
    assert_eq!(verdict(&c, "forward", &Seen { iif: "vx", ..packet() }), "accept");
    assert_eq!(verdict(&c, "postrouting", &Seen { saddr4: 0x0affffff, ..packet() }), "masquerade");
    assert_eq!(verdict(&c, "postrouting", &Seen { saddr4: 0x0b000000, ..packet() }), "accept");
    assert_eq!(verdict(&c, "postrouting", &Seen { proto: 10, saddr6: 77, ..packet() }), "masquerade");
    let same = setup_nat_and_forward(VETH_HOST, "eth0", SUBNET, PREFIX, SUBNET6, PREFIX6, ByteOrder::Little);
    assert_eq!(format!("{:?}", same), format!("{:?}", ruleset()));
}

#[test]
fn table_that_is_left() {
    let table = |inet: bool, name: &str| TableEntry { inet, name: name.to_string() };
    assert!(!has_table(&vec![]));
    assert!(!has_table(&vec![table(true, "filter"), table(false, "fishnet"), table(true, "fishnet2")]));
    assert!(has_table(&vec![table(true, "filter"), table(true, "fishnet")]));
}

#[test]
fn masquerade_is_for_the_own_networks() {
    let c = ruleset();
    let p = packet();
    assert_eq!(verdict(&c, "postrouting", &p), "masquerade");
    assert_eq!(verdict(&c, "postrouting", &Seen { oif: "wlan0", ..p.clone() }), "accept");
    assert_eq!(verdict(&c, "postrouting", &Seen { saddr4: 0x0ac80202, ..p.clone() }), "accept");
    let p6 = Seen { proto: 10, saddr4: 0, saddr6: NS_VETH_ADDR6, ..p };
    assert_eq!(verdict(&c, "postrouting", &p6), "masquerade");
    assert_eq!(verdict(&c, "postrouting", &Seen { saddr6: 1, ..p6.clone() }), "accept");
    assert_eq!(verdict(&c, "postrouting", &Seen { proto: 7, ..p6 }), "accept");
}

#[test]
fn ruleset_in_order() {
    let c = ruleset();
    assert_eq!(c.len(), 7);
    assert!(matches!(&c[0], Command::AddTable { table } if table == "fishnet"));
    match &c[1] {
        Command::AddChain { table, chain, kind, hook, priority, policy } => {
            assert_eq!((table.as_str(), chain.as_str()), ("fishnet", "forward"));
            assert_eq!((*kind, *hook), (ChainKind::Filter, HookPoint::Forward));
            assert_eq!((*priority, *policy), (0, Policy::Drop));
        }
        other => panic!("{:?}", other),
    }
    match &c[4] {
        Command::AddChain { chain, kind, hook, priority, policy, .. } => {
            assert_eq!(chain, "postrouting");
            assert_eq!((*kind, *hook), (ChainKind::Nat, HookPoint::PostRouting));
            assert_eq!((*priority, *policy), (100, Policy::Accept));
        }
        other => panic!("{:?}", other),
    }
    match &c[5] {
        Command::AddRule { chain, exprs, .. } => {
            assert_eq!(chain, "postrouting");
            assert_eq!(exprs.len(), 8);
            assert!(matches!(&exprs[1], Expr::Equal(d) if *d == [2u8]));
            assert!(matches!(&exprs[3], Expr::Bitwise { mask, .. } if *mask == [255u8, 255, 255, 0]));
            assert!(matches!(&exprs[4], Expr::Equal(d) if *d == [10u8, 200, 1, 0]));
            assert!(matches!(&exprs[7], Expr::Masquerade));
        }
        other => panic!("{:?}", other),
    }
    match &c[6] {
        Command::AddRule { exprs, .. } => {
            assert!(matches!(&exprs[1], Expr::Equal(d) if *d == [10u8]));
        }
        other => panic!("{:?}", other),
    }
}

#[test]
fn teardown_always_succeeds() {
    for removed in [false, true] {
        for error in [None, Some("restore x: no".to_string())] {
            let mut said = vec![];
            let mut restored = 0;
            let mut action = teardown();
            loop {
                action = match action {
                    TeardownAction::Send(c) => {
                        assert_eq!(c.len(), 1);
                        assert!(matches!(&c[0], Command::DeleteTable { table } if table == "fishnet"));
                        on_removed(removed)
                    }
                    TeardownAction::Restore => {
                        restored += 1;
                        on_restored(error.clone())
                    }
                    TeardownAction::Warn(text) => {
                        said.push(text);
                        on_warned()
                    }
                    TeardownAction::Done => break,
                };
            }
            assert_eq!(restored, 1);
            let expected: Vec<String> = error
                .iter()
                .map(|e| format!("warning: couldn't restore ip forwarding sysctls: {e}"))
                .collect();
            assert_eq!(said, expected);
        }
    }
}

fn run_search(routes: Vec<Route>, links: &dyn Fn(u32) -> Option<Link>) -> Option<String> {
    let mut routes = routes.into_iter();
    let mut action = on_route(routes.next());
    loop {
        action = match action {
            UplinkAction::NextRoute => on_route(routes.next()),
            UplinkAction::AskLink(i) => on_link(links(i)),
            UplinkAction::Found(n) => return Some(n),
            UplinkAction::NotFound => return None,
        };
    }
}

#[test]
fn uplink_is_the_link_of_the_first_default_route() {
    let links = |i: u32| match i {
        2 => Some(named("eth0")),
        3 => Some(named("wlan0")),
        4 => Some(Link { attrs: vec![LinkAttr::Other] }),
        _ => None,
    };
    let route = |prefix_len: u8, attrs: &[RouteAttr]| Route { prefix_len, attrs: attrs.to_vec() };
    let found = run_search(
        vec![
            route(24, &[RouteAttr::Oif(2)]),
            route(0, &[RouteAttr::Destination, RouteAttr::Oif(2)]),
            route(0, &[RouteAttr::Other]),
            route(0, &[RouteAttr::Oif(9)]),
            route(0, &[RouteAttr::Oif(4)]),
            route(0, &[RouteAttr::Other, RouteAttr::Oif(3), RouteAttr::Oif(2)]),
            route(0, &[RouteAttr::Oif(2)]),
        ],
        &links,
    );
    assert_eq!(found, Some("wlan0".to_string()));
    assert_eq!(run_search(vec![], &links), None);
    assert_eq!(run_search(vec![route(8, &[RouteAttr::Oif(2)])], &links), None);
}

#[test]
fn vpn_interfaces_go_by_their_names() {
    assert!(has_vpn_name(&named("wg0")));
    assert!(has_vpn_name(&named("wg")));
    assert!(!has_vpn_name(&named("tun0")));
    assert!(!has_vpn_name(&named("mywg0")));
    assert!(!has_vpn_name(&Link { attrs: vec![] }));
    assert_eq!(on_vpn_link(Looked::Found(named("lo"))), VpnAction::NextLink);
    assert_eq!(on_vpn_link(Looked::Found(named("wg1"))), VpnAction::Answer(true));
    assert_eq!(on_vpn_link(Looked::End), VpnAction::Answer(false));
    assert_eq!(on_vpn_link(Looked::Failed), VpnAction::Fail);
}

fn search_vpn(enters: bool, links: &[&str], all: bool) -> VpnAction {
    let mut links = links.iter();
    let mut action = has_vpn_interface("ns");
    loop {
        action = match action {
            VpnAction::Enter { path } => {
                assert_eq!(path, "/var/run/netns/ns");
                on_entered(enters)
            }
            VpnAction::NextLink => on_vpn_link(match links.next() {
                Some(name) => Looked::Found(named(name)),
                None if all => Looked::End,
                None => Looked::Failed,
            }),
            end => return end,
        };
    }
}

#[test]
fn vpn_is_searched_inside_the_namespace() {
    assert_eq!(search_vpn(true, &["lo", "vn0", "wg0"], true), VpnAction::Answer(true));
    assert_eq!(search_vpn(true, &["lo", "wg0"], false), VpnAction::Answer(true));
    assert_eq!(search_vpn(true, &["lo", "vn0"], true), VpnAction::Answer(false));
    assert_eq!(search_vpn(true, &["lo", "vn0"], false), VpnAction::Fail);
    assert_eq!(search_vpn(false, &["wg0"], true), VpnAction::Fail);
}

#[test]
fn kill_switch_holds_back_exec() {
    let command = vec!["curl".to_string(), "ifconfig.me".to_string()];
    assert!(matches!(exec_gate(true, None, false, &command), Gate::AskVpn));
    match exec_gate(true, Some(true), true, &command) {
        Gate::Run(opts) => {
            assert_eq!(opts.run_as, RunAs::Caller);
            assert!(opts.detach);
        }
        other => panic!("{:?}", other),
    }
    match exec_gate(true, Some(false), false, &command) {
        Gate::Refuse(text) => assert_eq!(
            text,
            "kill switch: fishnetns's default route still points at the plain NAT fallback (no VPN has \
             taken it over), refusing to run `curl ifconfig.me`. Connect your VPN first with `fishnet \
             connect -- <command>`."
        ),
        other => panic!("{:?}", other),
    }
    for vpn in [None, Some(false), Some(true)] {
        match exec_gate(false, vpn, false, &command) {
            Gate::Refuse(text) => assert_eq!(text, "fishnetns is down — run `fishnet up` first"),
            other => panic!("{:?}", other),
        }
    }
}

#[test]
fn connect_is_not_held_back() {
    match connect_gate(true) {
        Gate::Run(opts) => {
            assert_eq!(opts.run_as, RunAs::Root);
            assert!(!opts.detach);
        }
        other => panic!("{:?}", other),
    }
    assert!(matches!(connect_gate(false), Gate::Refuse(_)));
}

fn contexts(steps: &[NetStep]) -> Vec<&str> {
    steps.iter().map(|s| s.context.as_deref().unwrap_or("-")).collect()
}

#[test]
fn host_side_steps() {
    let steps = setup_host_side("fishnetns");
    assert!(matches!(&steps[5].op, NetOp::OpenNamespace { path } if path == "/var/run/netns/fishnetns"));
    assert_eq!(
        contexts(&steps),
        vec![
            "create veth pair",
            "link vh0 not found",
            "v4 addr on host veth",
            "v6 addr on host veth",
            "-",
            "open netns file",
            "link vn0 not found",
            "move veth peer into netns",
        ]
    );
    assert!(matches!(&steps[0].op, NetOp::AddVethPair { host, peer } if host == "vh0" && peer == "vn0"));
    assert!(matches!(steps[2].op, NetOp::AddAddress4 { addr: HOST_ADDR, prefix: 24 }));
    assert!(matches!(steps[3].op, NetOp::AddAddress6 { addr6: HOST_ADDR6, prefix: 64 }));
    assert!(matches!(steps[4].op, NetOp::SetUp));
}

#[test]
fn namespace_side_steps() {
    let all = setup_ns_side("fishnetns");
    assert_eq!(all.len(), 10);
    assert_eq!(contexts(&all)[..2], ["open netns file", "setns"]);
    assert!(matches!(&all[0].op, NetOp::OpenNamespace { path } if path == "/var/run/netns/fishnetns"));
    assert!(matches!(&all[1].op, NetOp::EnterNamespace { path } if path == "/var/run/netns/fishnetns"));
    let steps = &all[2..];
    assert!(matches!(&steps[0].op, NetOp::FindLink { name } if name == "vn0"));
    assert!(matches!(steps[1].op, NetOp::AddAddress4 { addr: NS_VETH_ADDR, prefix: 24 }));
    assert!(matches!(steps[2].op, NetOp::AddAddress6 { addr6: NS_VETH_ADDR6, prefix: 64 }));
    assert!(matches!(&steps[4].op, NetOp::FindLink { name } if name == "lo"));
    assert!(matches!(steps[6].op, NetOp::AddDefaultRoute4 { gateway: HOST_ADDR }));
    assert!(matches!(steps[7].op, NetOp::AddDefaultRoute6 { gateway6: HOST_ADDR6 }));
}

#[test]
fn host_keeps_its_routes() {
    for step in setup_host_side("fishnetns").iter().chain(teardown_host_side(true).iter()) {
        assert!(!matches!(
            step.op,
            NetOp::AddDefaultRoute4 { .. } | NetOp::AddDefaultRoute6 { .. } | NetOp::EnterNamespace { .. }
        ));
    }
}

#[test]
fn removing_the_pair() {
    assert!(teardown_host_side(false).is_empty());
    let steps = teardown_host_side(true);
    assert_eq!(contexts(&steps), vec!["delete vh0"]);
    assert!(matches!(&steps[0].op, NetOp::DeleteLink { name } if name == "vh0"));
}
