//! Network links and routes, as far as the decisions look at them.

use vstd::prelude::*;

verus! {

/// An attribute of a link.
#[derive(Debug)]
pub enum LinkAttr {
    /// The name of its interface.
    IfName(String),
    /// Anything else.
    Other,
}

/// A link with its attributes in the order in which the kernel gave them.
#[derive(Debug)]
pub struct Link {
    pub attrs: Vec<LinkAttr>,
}

/// The name in an attribute, where it is one.
pub open spec fn attr_name(a: LinkAttr) -> Option<Seq<char>> {
    match a {
        LinkAttr::IfName(n) => Some(n@),
        LinkAttr::Other => None,
    }
}

impl Link {
    /// Whether the attribute at `i` is the first name.
    pub open spec fn names_first_at(self, i: int) -> bool {
        &&& 0 <= i < self.attrs@.len()
        &&& attr_name(self.attrs@[i]) is Some
        &&& forall|j: int| 0 <= j < i ==> attr_name(#[trigger] self.attrs@[j]) is None
    }

    /// The first name among the attributes.
    pub open spec fn name_of(self) -> Option<Seq<char>> {
        if exists|i: int| self.names_first_at(i) {
            attr_name(self.attrs@[choose|i: int| self.names_first_at(i)])
        } else {
            None
        }
    }

    /// The first name among the attributes.
    pub fn name(&self) -> (r: Option<String>)
        ensures
            match (r, self.name_of()) {
                (Some(n), Some(m)) => n@ == m,
                (None, None) => true,
                _ => false,
            },
    {
        let mut i: usize = 0;
        while i < self.attrs.len()
            invariant
                i <= self.attrs.len(),
                forall|j: int| 0 <= j < i ==> attr_name(#[trigger] self.attrs@[j]) is None,
            decreases self.attrs.len() - i,
        {
            if let LinkAttr::IfName(n) = &self.attrs[i] {
                proof {
                    assert(self.names_first_at(i as int));
                    let k = choose|k: int| self.names_first_at(k);
                    if k < i {
                        assert(attr_name(self.attrs@[k]) is None);
                    } else if i < k {
                        assert(attr_name(self.attrs@[i as int]) is None);
                    }
                }
                return Some(n.clone());
            }
            i = i + 1;
        }
        proof {
            if exists|k: int| self.names_first_at(k) {
                let k = choose|k: int| self.names_first_at(k);
                assert(attr_name(self.attrs@[k]) is None);
            }
        }
        None
    }
}

/// An attribute of a route.
#[derive(Clone, Copy, Debug, PartialEq, Eq, Structural)]
pub enum RouteAttr {
    /// It has a destination.
    Destination,
    /// The index of the link that it leaves by.
    Oif(u32),
    /// Anything else.
    Other,
}

/// A route: the length of its destination's prefix, and its attributes in order.
#[derive(Debug)]
pub struct Route {
    pub prefix_len: u8,
    pub attrs: Vec<RouteAttr>,
}

impl Route {
    /// Whether the route is a default route: it leads to every address and names no destination.
    pub open spec fn is_default(self) -> bool {
        self.prefix_len == 0 && !self.attrs@.contains(RouteAttr::Destination)
    }

    /// Whether the attribute at `i` is the first link index.
    pub open spec fn leaves_first_at(self, i: int) -> bool {
        &&& 0 <= i < self.attrs@.len()
        &&& self.attrs@[i] is Oif
        &&& forall|j: int| 0 <= j < i ==> !(#[trigger] self.attrs@[j] is Oif)
    }

    /// The first link index among the attributes.
    pub open spec fn oif_of(self) -> Option<u32> {
        if exists|i: int| self.leaves_first_at(i) {
            Some(self.attrs@[choose|i: int| self.leaves_first_at(i)]->Oif_0)
        } else {
            None
        }
    }

    /// Tells whether the route is a default route.
    pub fn default_route(&self) -> (r: bool)
        ensures
            r == self.is_default(),
    {
        let mut i: usize = 0;
        while i < self.attrs.len()
            invariant
                i <= self.attrs.len(),
                forall|j: int| 0 <= j < i ==> self.attrs@[j] != RouteAttr::Destination,
            decreases self.attrs.len() - i,
        {
            if self.attrs[i] == RouteAttr::Destination {
                assert(self.attrs@[i as int] == RouteAttr::Destination);
                return false;
            }
            i = i + 1;
        }
        self.prefix_len == 0
    }

    /// The first link index among the attributes.
    pub fn oif(&self) -> (r: Option<u32>)
        ensures
            r == self.oif_of(),
    {
        let mut i: usize = 0;
        while i < self.attrs.len()
            invariant
                i <= self.attrs.len(),
                forall|j: int| 0 <= j < i ==> !(#[trigger] self.attrs@[j] is Oif),
            decreases self.attrs.len() - i,
        {
            if let RouteAttr::Oif(index) = self.attrs[i] {
                proof {
                    assert(self.leaves_first_at(i as int));
                    let k = choose|k: int| self.leaves_first_at(k);
                    if k < i {
                        assert(!(self.attrs@[k] is Oif));
                    } else if i < k {
                        assert(!(self.attrs@[i as int] is Oif));
                    }
                }
                return Some(index);
            }
            i = i + 1;
        }
        proof {
            if exists|k: int| self.leaves_first_at(k) {
                let k = choose|k: int| self.leaves_first_at(k);
                assert(!(self.attrs@[k] is Oif));
            }
        }
        None
    }
}

/// The name of a link is the one in the first attribute that is a name. It has none exactly where no
/// attribute is one.
pub proof fn law_first_name(l: Link, i: int)
    ensures
        0 <= i < l.attrs@.len() && l.attrs@[i] is IfName && (forall|j: int|
            0 <= j < i ==> #[trigger] l.attrs@[j] is Other) ==> l.name_of() == Some(
            l.attrs@[i]->IfName_0@,
        ),
        l.name_of() is None <==> forall|j: int|
            0 <= j < l.attrs@.len() ==> #[trigger] l.attrs@[j] is Other,
{
    if 0 <= i < l.attrs@.len() && l.attrs@[i] is IfName && (forall|j: int|
        0 <= j < i ==> #[trigger] l.attrs@[j] is Other) {
        assert(l.names_first_at(i));
        let k = choose|k: int| l.names_first_at(k);
        if k < i {
            assert(l.attrs@[k] is Other);
        } else if i < k {
            assert(attr_name(l.attrs@[i]) is None);
        }
    }
    if exists|j: int| 0 <= j < l.attrs@.len() && !(#[trigger] l.attrs@[j] is Other) {
        let j = choose|j: int| 0 <= j < l.attrs@.len() && !(#[trigger] l.attrs@[j] is Other);
        lemma_some_name(l, j);
    }
}

proof fn lemma_some_name(l: Link, j: int)
    requires
        0 <= j < l.attrs@.len(),
        l.attrs@[j] is IfName,
    ensures
        exists|i: int| l.names_first_at(i),
    decreases j,
{
    if exists|i: int| 0 <= i < j && #[trigger] l.attrs@[i] is IfName {
        let i = choose|i: int| 0 <= i < j && #[trigger] l.attrs@[i] is IfName;
        lemma_some_name(l, i);
    } else {
        assert forall|i: int| 0 <= i < j implies attr_name(#[trigger] l.attrs@[i]) is None by {
            assert(!(l.attrs@[i] is IfName));
        }
        assert(l.names_first_at(j));
    }
}

/// A route is a default route exactly where its prefix is empty and no attribute is a destination. It
/// leaves by the link in the first attribute that is a link's index, and by none exactly where no
/// attribute is one.
pub proof fn law_route(r: Route, i: int)
    ensures
        r.is_default() <==> r.prefix_len == 0 && forall|j: int|
            0 <= j < r.attrs@.len() ==> !(#[trigger] r.attrs@[j] is Destination),
        0 <= i < r.attrs@.len() && r.attrs@[i] is Oif && (forall|j: int|
            0 <= j < i ==> !(#[trigger] r.attrs@[j] is Oif)) ==> r.oif_of() == Some(
            r.attrs@[i]->Oif_0,
        ),
        r.oif_of() is None <==> forall|j: int|
            0 <= j < r.attrs@.len() ==> !(#[trigger] r.attrs@[j] is Oif),
{
    if r.attrs@.contains(RouteAttr::Destination) {
        let j = choose|j: int| 0 <= j < r.attrs@.len() && r.attrs@[j] == RouteAttr::Destination;
        assert(r.attrs@[j] is Destination);
    }
    if 0 <= i < r.attrs@.len() && r.attrs@[i] is Oif && (forall|j: int|
        0 <= j < i ==> !(#[trigger] r.attrs@[j] is Oif)) {
        assert(r.leaves_first_at(i));
        let k = choose|k: int| r.leaves_first_at(k);
        if k < i {
            assert(!(r.attrs@[k] is Oif));
        } else if i < k {
            assert(!(r.attrs@[i] is Oif));
        }
    }
    if exists|j: int| 0 <= j < r.attrs@.len() && #[trigger] r.attrs@[j] is Oif {
        let j = choose|j: int| 0 <= j < r.attrs@.len() && #[trigger] r.attrs@[j] is Oif;
        lemma_some_oif(r, j);
    }
}

proof fn lemma_some_oif(r: Route, j: int)
    requires
        0 <= j < r.attrs@.len(),
        r.attrs@[j] is Oif,
    ensures
        exists|i: int| r.leaves_first_at(i),
    decreases j,
{
    if exists|i: int| 0 <= i < j && #[trigger] r.attrs@[i] is Oif {
        let i = choose|i: int| 0 <= i < j && #[trigger] r.attrs@[i] is Oif;
        lemma_some_oif(r, i);
    } else {
        assert(r.leaves_first_at(j));
    }
}

} // verus!
