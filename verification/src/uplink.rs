//! Finding the interface that connects the host to the internet.
//!
//! The search goes through the IPv4 routes one by one. For a default route it asks for the link
//! that the route leaves by. The first such link with a name is the uplink.

use vstd::prelude::*;
use crate::link::{Link, Route};

verus! {

/// What the search does next.
#[derive(Debug)]
pub enum UplinkAction {
    /// Look at the next route.
    NextRoute,
    /// Ask for the link with this index.
    AskLink(u32),
    /// The uplink has this name.
    Found(String),
    /// There is no uplink: no default route leads to a named link.
    NotFound,
}

/// A step of the search, with its text as a sequence.
pub enum UplinkActionView {
    NextRoute,
    AskLink(u32),
    Found(Seq<char>),
    NotFound,
}

impl View for UplinkAction {
    type V = UplinkActionView;

    open spec fn view(&self) -> UplinkActionView {
        match self {
            UplinkAction::NextRoute => UplinkActionView::NextRoute,
            UplinkAction::AskLink(i) => UplinkActionView::AskLink(*i),
            UplinkAction::Found(n) => UplinkActionView::Found(n@),
            UplinkAction::NotFound => UplinkActionView::NotFound,
        }
    }
}

/// What to say where there is no uplink.
pub const NO_UPLINK: &'static str = "no default route found — can't auto-detect uplink interface";

/// What a route leads to: a question for its link where it is a default route that names one.
/// `None` is the end of the routes.
pub open spec fn route_action(route: Option<Route>) -> UplinkActionView {
    match route {
        None => UplinkActionView::NotFound,
        Some(r) => if r.is_default() && r.oif_of() is Some {
            UplinkActionView::AskLink(r.oif_of()->Some_0)
        } else {
            UplinkActionView::NextRoute
        },
    }
}

/// What the answer to a question leads to. `None` is that there is no such link.
pub open spec fn link_action(link: Option<Link>) -> UplinkActionView {
    match link {
        Some(l) => match l.name_of() {
            Some(n) => UplinkActionView::Found(n),
            None => UplinkActionView::NextRoute,
        },
        None => UplinkActionView::NextRoute,
    }
}

/// Decides what a route leads to. `None` is the end of the routes.
pub fn on_route(route: Option<Route>) -> (r: UplinkAction)
    ensures
        r@ == route_action(route),
{
    match route {
        None => UplinkAction::NotFound,
        Some(route) => {
            if !route.default_route() {
                return UplinkAction::NextRoute;
            }
            match route.oif() {
                Some(index) => UplinkAction::AskLink(index),
                None => UplinkAction::NextRoute,
            }
        },
    }
}

/// Decides what the answer to a question for a link leads to. `None` is that there is none.
pub fn on_link(link: Option<Link>) -> (r: UplinkAction)
    ensures
        r@ == link_action(link),
{
    match link {
        Some(link) => match link.name() {
            Some(name) => UplinkAction::Found(name),
            None => UplinkAction::NextRoute,
        },
        None => UplinkAction::NextRoute,
    }
}

/// What the search comes to on a host with these routes, where `links` answers the questions.
pub open spec fn search(routes: Seq<Route>, links: spec_fn(u32) -> Option<Link>) -> Option<Seq<char>>
    decreases routes.len(),
{
    if routes.len() == 0 {
        match route_action(None) {
            UplinkActionView::Found(n) => Some(n),
            _ => None,
        }
    } else {
        match route_action(Some(routes[0])) {
            UplinkActionView::AskLink(index) => match link_action(links(index)) {
                UplinkActionView::Found(n) => Some(n),
                UplinkActionView::NextRoute => search(routes.skip(1), links),
                _ => None,
            },
            UplinkActionView::NextRoute => search(routes.skip(1), links),
            UplinkActionView::Found(n) => Some(n),
            UplinkActionView::NotFound => None,
        }
    }
}

/// The name of the link that a route leaves by, where it is a default route and the link has one.
pub open spec fn default_link(route: Route, links: spec_fn(u32) -> Option<Link>) -> Option<Seq<
    char,
>> {
    if route.is_default() && route.oif_of() is Some && links(route.oif_of()->Some_0) is Some {
        links(route.oif_of()->Some_0)->Some_0.name_of()
    } else {
        None
    }
}

/// The search finds the link of the first default route that leaves by a named link, and finds
/// nothing exactly where there is no such route.
pub proof fn law_first_default_route(routes: Seq<Route>, links: spec_fn(u32) -> Option<Link>)
    ensures
        match search(routes, links) {
            Some(n) => exists|k: int|
                0 <= k < routes.len() && #[trigger] default_link(routes[k], links) == Some(n)
                    && forall|j: int|
                    0 <= j < k ==> #[trigger] default_link(routes[j], links) is None,
            None => forall|j: int|
                0 <= j < routes.len() ==> #[trigger] default_link(routes[j], links) is None,
        },
    decreases routes.len(),
{
    if routes.len() > 0 {
        let rest = routes.skip(1);
        law_first_default_route(rest, links);
        assert forall|j: int| 0 <= j < rest.len() implies rest[j] == routes[j + 1] by {}
        match default_link(routes[0], links) {
            Some(n) => {
                assert(search(routes, links) == Some(n));
            },
            None => {
                assert(search(routes, links) == search(rest, links));
                match search(rest, links) {
                    Some(n) => {
                        let k = choose|k: int|
                            0 <= k < rest.len() && #[trigger] default_link(rest[k], links) == Some(n)
                                && forall|j: int|
                                0 <= j < k ==> #[trigger] default_link(rest[j], links) is None;
                        assert(default_link(routes[k + 1], links) == Some(n));
                        assert forall|j: int| 0 <= j < k + 1 implies #[trigger] default_link(
                            routes[j],
                            links,
                        ) is None by {
                            if j > 0 {
                                assert(default_link(rest[j - 1], links) is None);
                            }
                        }
                    },
                    None => {
                        assert forall|j: int| 0 <= j < routes.len() implies #[trigger] default_link(
                            routes[j],
                            links,
                        ) is None by {
                            if j > 0 {
                                assert(default_link(rest[j - 1], links) is None);
                            }
                        }
                    },
                }
            },
        }
    }
}

/// A host whose only default route leaves by a named link has that link for its uplink, whatever other
/// routes there are. A host without a default route has none.
pub proof fn law_uplink(routes: Seq<Route>, links: spec_fn(u32) -> Option<Link>, k: int)
    ensures
        (forall|j: int| 0 <= j < routes.len() ==> !(#[trigger] routes[j]).is_default()) ==> search(
            routes,
            links,
        ) is None,
        0 <= k < routes.len() && routes[k].is_default() && routes[k].oif_of() is Some && links(
            routes[k].oif_of()->Some_0,
        ) is Some && links(routes[k].oif_of()->Some_0)->Some_0.name_of() is Some && (forall|j: int|
            0 <= j < k ==> !(#[trigger] routes[j]).is_default()) ==> search(routes, links) == links(
            routes[k].oif_of()->Some_0,
        )->Some_0.name_of(),
{
    law_first_default_route(routes, links);
    if 0 <= k < routes.len() && routes[k].is_default() && routes[k].oif_of() is Some && links(
        routes[k].oif_of()->Some_0,
    ) is Some && links(routes[k].oif_of()->Some_0)->Some_0.name_of() is Some && (forall|j: int|
        0 <= j < k ==> !(#[trigger] routes[j]).is_default()) {
        assert(default_link(routes[k], links) is Some);
        assert(search(routes, links) is Some);
        let n = search(routes, links)->Some_0;
        let m = choose|m: int|
            0 <= m < routes.len() && #[trigger] default_link(routes[m], links) == Some(n)
                && forall|j: int| 0 <= j < m ==> #[trigger] default_link(routes[j], links) is None;
        if m < k {
            assert(!routes[m].is_default());
        } else if k < m {
            assert(default_link(routes[k], links) is None);
        }
    }
}

/// One route never ends the search without a result: what follows it is asked for, whether the route
/// names no link, its link is gone or its link has no name. Only the end of the routes does, and then
/// nothing else is asked.
pub proof fn law_search_goes_on(route: Route, link: Option<Link>)
    ensures
        route_action(None) is NotFound,
        !(route_action(Some(route)) is NotFound) && !(route_action(Some(route)) is Found),
        !(link_action(link) is NotFound) && !(link_action(link) is AskLink),
        link is None ==> link_action(link) is NextRoute,
        link_action(link) is Found <==> link is Some && link->Some_0.name_of() is Some,
{
}

/// The view of an action says all that the action holds.
pub proof fn law_uplink_view(action: UplinkAction)
    ensures
        action matches UplinkAction::AskLink(index) ==> action@ == UplinkActionView::AskLink(index),
        action matches UplinkAction::Found(name) ==> action@ == UplinkActionView::Found(name@),
        action is NextRoute <==> action@ is NextRoute,
        action is NotFound <==> action@ is NotFound,
{
}

} // verus!
