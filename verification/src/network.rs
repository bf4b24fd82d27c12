//! What the steps on links come to: a model of the host's and the namespace's links and routes, and
//! the state in which setting up and removing the pair leave them.

use vstd::prelude::*;
use crate::netns::ns_path_of;
use crate::subnet::{same_subnet4, same_subnet6};
use crate::veth::{
    host_side, host_teardown, law_one_network, ns_side, NetOpView, NetStepView, HOST_ADDR, HOST_ADDR6,
    LOOPBACK, NS_VETH_ADDR, NS_VETH_ADDR6, PREFIX, PREFIX6, VETH_HOST, VETH_NS,
};

verus! {

/// A place that links can be in.
pub enum Place {
    /// The host's own network.
    Host,
    /// The namespace that the file of this path stands for.
    Inside(Seq<char>),
}

/// The state of a link.
pub struct LinkState {
    pub addr4: Set<(u32, u8)>,
    pub addr6: Set<(u128, u8)>,
    pub up: bool,
    /// Where the other end of its pair is, and how it is called there.
    pub peer: Option<(Place, Seq<char>)>,
}

/// All links and default routes, and what the thread that takes the steps has come to.
pub struct World {
    pub links: Map<(Place, Seq<char>), LinkState>,
    pub routes4: Map<Place, u32>,
    pub routes6: Map<Place, u128>,
    /// Where the thread is.
    pub at: Place,
    /// The file that it opened last.
    pub opened: Option<Seq<char>>,
    /// The link that it found last.
    pub found: Option<Seq<char>>,
    /// Whether a step could not be taken.
    pub failed: bool,
}

impl World {
    /// Whether there is a link of this name in this place.
    pub open spec fn has(self, place: Place, name: Seq<char>) -> bool {
        self.links.contains_key((place, name))
    }

    /// The world after a step that cannot be taken.
    pub open spec fn failing(self) -> World {
        World { failed: true, ..self }
    }

    /// The world with another state of the link that was found.
    pub open spec fn changed(self, state: LinkState) -> World {
        World { links: self.links.insert((self.at, self.found->Some_0), state), ..self }
    }

    /// Whether the link that was found is still there.
    pub open spec fn has_found(self) -> bool {
        self.found is Some && self.has(self.at, self.found->Some_0)
    }

    /// The state of the link that was found.
    pub open spec fn current(self) -> LinkState {
        self.links[(self.at, self.found->Some_0)]
    }

    /// Whether an IPv4 address can be reached over some link that is up.
    pub open spec fn reaches4(self, addr: u32) -> bool {
        exists|name: Seq<char>, a: u32, p: u8|
            self.has(self.at, name) && self.links[(self.at, name)].up && (#[trigger] self.links[(
                self.at,
                name,
            )].addr4.contains((a, p))) && same_subnet4(addr, a, p)
    }

    /// Whether an IPv6 address can be reached over some link that is up.
    pub open spec fn reaches6(self, addr: u128) -> bool {
        exists|name: Seq<char>, a: u128, p: u8|
            self.has(self.at, name) && self.links[(self.at, name)].up && (#[trigger] self.links[(
                self.at,
                name,
            )].addr6.contains((a, p))) && same_subnet6(addr, a, p)
    }

    /// The world after a step.
    pub open spec fn after(self, op: NetOpView) -> World {
        match op {
            NetOpView::AddVethPair { host, peer } => if host == peer || self.has(self.at, host)
                || self.has(self.at, peer) {
                self.failing()
            } else {
                World {
                    links: self.links.insert((self.at, host), new_end(self.at, peer)).insert(
                        (self.at, peer),
                        new_end(self.at, host),
                    ),
                    ..self
                }
            },
            NetOpView::FindLink { name } => if self.has(self.at, name) {
                World { found: Some(name), ..self }
            } else {
                self.failing()
            },
            NetOpView::AddAddress4 { addr, prefix } => if self.has_found() {
                self.changed(
                    LinkState {
                        addr4: self.current().addr4.insert((addr, prefix)),
                        ..self.current()
                    },
                )
            } else {
                self.failing()
            },
            NetOpView::AddAddress6 { addr6, prefix } => if self.has_found() {
                self.changed(
                    LinkState {
                        addr6: self.current().addr6.insert((addr6, prefix)),
                        ..self.current()
                    },
                )
            } else {
                self.failing()
            },
            NetOpView::SetUp => if self.has_found() {
                self.changed(LinkState { up: true, ..self.current() })
            } else {
                self.failing()
            },
            NetOpView::OpenNamespace { path } => World { opened: Some(path), ..self },
            NetOpView::EnterNamespace { path } => if self.opened == Some(path) {
                World { at: Place::Inside(path), found: None, ..self }
            } else {
                self.failing()
            },
            NetOpView::MoveToNamespace => if self.has_found() && self.opened is Some && !self.has(
                Place::Inside(self.opened->Some_0),
                self.found->Some_0,
            ) {
                self.moved(Place::Inside(self.opened->Some_0))
            } else {
                self.failing()
            },
            NetOpView::AddDefaultRoute4 { gateway } => if self.reaches4(gateway) {
                World { routes4: self.routes4.insert(self.at, gateway), ..self }
            } else {
                self.failing()
            },
            NetOpView::AddDefaultRoute6 { gateway6 } => if self.reaches6(gateway6) {
                World { routes6: self.routes6.insert(self.at, gateway6), ..self }
            } else {
                self.failing()
            },
            NetOpView::DeleteLink { name } => if self.has(self.at, name) {
                let gone = self.links.remove((self.at, name));
                World {
                    links: match self.links[(self.at, name)].peer {
                        Some(other) => gone.remove(other),
                        None => gone,
                    },
                    ..self
                }
            } else {
                self.failing()
            },
        }
    }

    /// The world after the link that was found has moved to another place. There it is down and has
    /// no address, and the other end of its pair knows it there.
    pub open spec fn moved(self, to: Place) -> World {
        let name = self.found->Some_0;
        let state = LinkState {
            addr4: Set::empty(),
            addr6: Set::empty(),
            up: false,
            peer: self.current().peer,
        };
        let away = self.links.remove((self.at, name)).insert((to, name), state);
        World {
            links: match state.peer {
                Some(other) => away.insert(
                    other,
                    LinkState { peer: Some((to, name)), ..away[other] },
                ),
                None => away,
            },
            found: None,
            ..self
        }
    }
}

/// A link that was just made, whose other end is `peer` in the same place.
pub open spec fn new_end(place: Place, peer: Seq<char>) -> LinkState {
    LinkState { addr4: Set::empty(), addr6: Set::empty(), up: false, peer: Some((place, peer)) }
}

/// The world after the steps from `i` on.
pub open spec fn world_after(steps: Seq<NetStepView>, i: int, w: World) -> World
    decreases steps.len() - i,
{
    if 0 <= i < steps.len() {
        world_after(steps, i + 1, w.after(steps[i].op))
    } else {
        w
    }
}

/// The host's end of the pair as it should be.
pub open spec fn host_end(ns: Seq<char>) -> LinkState {
    LinkState {
        addr4: set![(HOST_ADDR, PREFIX)],
        addr6: set![(HOST_ADDR6, PREFIX6)],
        up: true,
        peer: Some((Place::Inside(ns_path_of(ns)), VETH_NS@)),
    }
}

/// The namespace's end of the pair before the namespace's side is set up.
pub open spec fn bare_ns_end() -> LinkState {
    new_end(Place::Host, VETH_HOST@)
}

proof fn lemma_names()
    ensures
        VETH_HOST@ != VETH_NS@,
        LOOPBACK@ != VETH_NS@,
{
    reveal_strlit("vh0");
    reveal_strlit("vn0");
    reveal_strlit("lo");
    assert("vh0"@[1] == 'h' && "vn0"@[1] == 'n');
    assert("lo"@.len() == 2);
}

/// Where there was no such pair, the steps on the host's side all can be taken. After them the host's
/// end is on the host, up and with its two addresses, and its peer is a link of the namespace `ns`.
/// Every other link and every route is as it was, and the thread is still on the host.
pub proof fn law_host_side(ns: Seq<char>, w: World)
    requires
        w.at == Place::Host,
        !w.failed,
        !w.has(Place::Host, VETH_HOST@),
        !w.has(Place::Host, VETH_NS@),
        !w.has(Place::Inside(ns_path_of(ns)), VETH_NS@),
    ensures
        ({
            let end = world_after(host_side(ns), 0, w);
            &&& !end.failed
            &&& end.at == Place::Host
            &&& end.links == w.links.insert((Place::Host, VETH_HOST@), host_end(ns)).insert(
                (Place::Inside(ns_path_of(ns)), VETH_NS@),
                bare_ns_end(),
            )
            &&& end.routes4 == w.routes4
            &&& end.routes6 == w.routes6
        }),
{
    lemma_names();
    let s = host_side(ns);
    let w1 = w.after(s[0].op);
    let w2 = w1.after(s[1].op);
    let w3 = w2.after(s[2].op);
    let w4 = w3.after(s[3].op);
    let w5 = w4.after(s[4].op);
    let w6 = w5.after(s[5].op);
    let w7 = w6.after(s[6].op);
    let w8 = w7.after(s[7].op);
    reveal_with_fuel(world_after, 9);
    assert(world_after(s, 0, w) == w8);
    let h = (Place::Host, VETH_HOST@);
    let n = (Place::Host, VETH_NS@);
    let m = (Place::Inside(ns_path_of(ns)), VETH_NS@);
    assert(w7.links[n] == bare_ns_end());
    assert(w7.links[h].addr4 =~= set![(HOST_ADDR, PREFIX)]);
    assert(w7.links[h].addr6 =~= set![(HOST_ADDR6, PREFIX6)]);
    assert(w8.links[h] == host_end(ns));
    assert(w8.links =~= w.links.insert(h, host_end(ns)).insert(m, bare_ns_end()));
}

/// Where the peer and the loopback link are in the namespace `ns`, the steps on the namespace's side
/// all can be taken. After them both links are up, the peer has its two addresses besides those that
/// it had, and the namespace routes everything through the host's two addresses. Every other link and
/// every other route, the host's above all, is as it was.
pub proof fn law_ns_side(ns: Seq<char>, w: World)
    requires
        !w.failed,
        w.has(Place::Inside(ns_path_of(ns)), VETH_NS@),
        w.has(Place::Inside(ns_path_of(ns)), LOOPBACK@),
    ensures
        ({
            let inside = Place::Inside(ns_path_of(ns));
            let end = world_after(ns_side(ns), 0, w);
            let peer = w.links[(inside, VETH_NS@)];
            let lo = w.links[(inside, LOOPBACK@)];
            &&& !end.failed
            &&& end.at == inside
            &&& end.links == w.links.insert(
                (inside, VETH_NS@),
                LinkState {
                    addr4: peer.addr4.insert((NS_VETH_ADDR, PREFIX)),
                    addr6: peer.addr6.insert((NS_VETH_ADDR6, PREFIX6)),
                    up: true,
                    peer: peer.peer,
                },
            ).insert((inside, LOOPBACK@), LinkState { up: true, ..lo })
            &&& end.routes4 == w.routes4.insert(inside, HOST_ADDR)
            &&& end.routes6 == w.routes6.insert(inside, HOST_ADDR6)
        }),
{
    lemma_names();
    law_one_network();
    let s = ns_side(ns);
    let w1 = w.after(s[0].op);
    let w2 = w1.after(s[1].op);
    let w3 = w2.after(s[2].op);
    let w4 = w3.after(s[3].op);
    let w5 = w4.after(s[4].op);
    let w6 = w5.after(s[5].op);
    let w7 = w6.after(s[6].op);
    let w8 = w7.after(s[7].op);
    let w9 = w8.after(s[8].op);
    let w10 = w9.after(s[9].op);
    reveal_with_fuel(world_after, 11);
    assert(world_after(s, 0, w) == w10);
    let key = (Place::Inside(ns_path_of(ns)), VETH_NS@);
    assert(w8.links[key].up);
    assert(w8.links[key].addr4.contains((NS_VETH_ADDR, PREFIX)));
    assert(w8.links[key].addr6.contains((NS_VETH_ADDR6, PREFIX6)));
    assert(same_subnet4(HOST_ADDR, NS_VETH_ADDR, PREFIX));
    assert(same_subnet6(HOST_ADDR6, NS_VETH_ADDR6, PREFIX6));
    assert(w8.reaches4(HOST_ADDR));
    assert(w9.reaches6(HOST_ADDR6));
}

/// Setting up both sides on a host without the pair joins the host and the namespace `ns`: the pair's
/// ends are up in the two places with addresses of one network, and the namespace routes everything to
/// the address of the host's end.
pub proof fn law_joined(ns: Seq<char>, w: World)
    requires
        w.at == Place::Host,
        !w.failed,
        !w.has(Place::Host, VETH_HOST@),
        !w.has(Place::Host, VETH_NS@),
        !w.has(Place::Inside(ns_path_of(ns)), VETH_NS@),
        w.has(Place::Inside(ns_path_of(ns)), LOOPBACK@),
    ensures
        ({
            let inside = Place::Inside(ns_path_of(ns));
            let end = world_after(ns_side(ns), 0, world_after(host_side(ns), 0, w));
            let host = end.links[(Place::Host, VETH_HOST@)];
            let peer = end.links[(inside, VETH_NS@)];
            &&& !end.failed
            &&& end.has(Place::Host, VETH_HOST@) && host.up
            &&& end.has(inside, VETH_NS@) && peer.up
            &&& host.peer == Some((inside, VETH_NS@)) && peer.peer == Some((Place::Host, VETH_HOST@))
            &&& host.addr4 == set![(HOST_ADDR, PREFIX)] && host.addr6 == set![(HOST_ADDR6, PREFIX6)]
            &&& peer.addr4 == set![(NS_VETH_ADDR, PREFIX)] && peer.addr6 == set![
                (NS_VETH_ADDR6, PREFIX6),
            ]
            &&& end.routes4.contains_key(inside) && end.routes4[inside] == HOST_ADDR
            &&& end.routes6.contains_key(inside) && end.routes6[inside] == HOST_ADDR6
        }),
{
    lemma_names();
    law_host_side(ns, w);
    law_ns_side(ns, world_after(host_side(ns), 0, w));
}

/// Removing the pair removes both its ends, wherever the other one is, and nothing else. Where the
/// host's end is not there nothing changes. Either way every step can be taken.
pub proof fn law_host_teardown(w: World)
    requires
        w.at == Place::Host,
        !w.failed,
    ensures
        ({
            let found = w.has(Place::Host, VETH_HOST@);
            let end = world_after(host_teardown(found), 0, w);
            &&& !end.failed
            &&& !end.has(Place::Host, VETH_HOST@)
            &&& forall|k: (Place, Seq<char>)| #[trigger]
                end.links.contains_key(k) <==> w.links.contains_key(k) && k != (
                    Place::Host,
                    VETH_HOST@,
                ) && !(found && w.links[(Place::Host, VETH_HOST@)].peer == Some(k))
            &&& forall|k: (Place, Seq<char>)| #[trigger]
                end.links.contains_key(k) ==> end.links[k] == w.links[k]
            &&& end.routes4 == w.routes4 && end.routes6 == w.routes6
        }),
{
    reveal_with_fuel(world_after, 2);
}

/// What is done and what is said of a failure is the same for every namespace, but for the path of its
/// file.
pub proof fn law_same_for_every_namespace(a: Seq<char>, b: Seq<char>, i: int)
    ensures
        host_side(a).len() == host_side(b).len(),
        0 <= i < host_side(a).len() ==> host_side(a)[i].context == host_side(b)[i].context,
        ns_side(a).len() == ns_side(b).len(),
        0 <= i < ns_side(a).len() ==> ns_side(a)[i].context == ns_side(b)[i].context,
{
}

} // verus!
