//! Unix paths as text.

use crate::text::{
    at, has_prefix, lemma_pieces_join, lemma_pieces_one, lemma_pieces_some, pieces, same, split, views,
};
use vstd::prelude::*;

verus! {

/// `name` under `dir`. An absolute `name` stands for itself.
pub open spec fn joined_path(dir: Seq<char>, name: Seq<char>) -> Seq<char> {
    if name.len() > 0 && name[0] == '/' {
        name
    } else if dir.len() == 0 || dir.last() == '/' {
        dir + name
    } else {
        dir.push('/') + name
    }
}

/// The path of `name` under `dir`.
pub fn join_path(dir: &str, name: &str) -> (r: String)
    ensures
        r@ == joined_path(dir@, name@),
{
    if !name.is_empty() && name.get_char(0) == '/' {
        return name.to_owned();
    }
    let mut r = dir.to_owned();
    let n = dir.unicode_len();
    if n > 0 && dir.get_char(n - 1) != '/' {
        r.append("/");
        proof {
            reveal_strlit("/");
            assert(r@ =~= dir@.push('/'));
        }
    }
    r.append(name);
    r
}

/// Whether `p` begins at the root.
pub open spec fn is_absolute(p: Seq<char>) -> bool {
    p.len() > 0 && p[0] == '/'
}

/// Whether a piece of a path names something: it is neither empty nor the current directory.
pub open spec fn is_name(piece: Seq<char>) -> bool {
    piece.len() > 0 && piece != seq!['.']
}

/// The components of a path below its root. Repeated slashes, a trailing slash and the current
/// directory do not count, except for a current directory that a relative path begins with.
pub open spec fn components(p: Seq<char>) -> Seq<Seq<char>> {
    let parts = pieces(p, at('/'));
    let names = parts.filter(|c: Seq<char>| is_name(c));
    if parts[0] == seq!['.'] {
        seq![seq!['.']] + names
    } else {
        names
    }
}

/// Whether two paths have the same components.
pub open spec fn same_path(a: Seq<char>, b: Seq<char>) -> bool {
    is_absolute(a) == is_absolute(b) && components(a) == components(b)
}

fn is_dot(piece: &str) -> (r: bool)
    ensures
        r == (piece@ == seq!['.']),
{
    proof {
        reveal_strlit(".");
        assert("."@ =~= seq!['.']);
    }
    same(piece, ".")
}

fn path_components(p: &str) -> (r: Vec<String>)
    ensures
        views(r@) == components(p@),
{
    let parts = split(p, '/');
    let ghost all = views(parts@);
    let ghost keep = |c: Seq<char>| is_name(c);
    proof {
        lemma_pieces_some(p@, at('/'));
        assert(all[0] == parts@[0]@);
    }
    let mut r: Vec<String> = Vec::new();
    let ghost mut lead = Seq::<Seq<char>>::empty();
    if is_dot(parts[0].as_str()) {
        r.push(".".to_owned());
        proof {
            reveal_strlit(".");
            assert("."@ =~= seq!['.']);
            lead = seq![seq!['.']];
        }
    }
    let mut i: usize = 0;
    proof {
        reveal(Seq::filter);
        assert(views(r@) =~= lead + all.take(0).filter(keep));
    }
    while i < parts.len()
        invariant
            i <= parts.len(),
            all == views(parts@),
            keep == (|c: Seq<char>| is_name(c)),
            views(r@) == lead + all.take(i as int).filter(keep),
        decreases parts.len() - i,
    {
        let ghost before = views(r@);
        proof {
            reveal(Seq::filter);
            assert(all.take(i + 1).drop_last() =~= all.take(i as int));
            assert(all.take(i + 1).last() == parts@[i as int]@);
        }
        if !parts[i].as_str().is_empty() && !is_dot(parts[i].as_str()) {
            r.push(parts[i].clone());
            assert(views(r@) =~= before.push(parts@[i as int]@));
            assert(lead + all.take(i as int).filter(keep).push(parts@[i as int]@) =~= before.push(
                parts@[i as int]@,
            ));
        }
        i = i + 1;
    }
    proof {
        assert(all.take(i as int) =~= all);
        assert(lead + all.filter(keep) =~= components(p@));
    }
    r
}

fn same_list(a: &Vec<String>, b: &Vec<String>) -> (r: bool)
    ensures
        r == (views(a@) == views(b@)),
{
    if a.len() != b.len() {
        assert(views(a@).len() != views(b@).len());
        return false;
    }
    let mut i: usize = 0;
    while i < a.len()
        invariant
            i <= a.len() == b.len(),
            forall|j: int| 0 <= j < i ==> a@[j]@ == b@[j]@,
        decreases a.len() - i,
    {
        if !same(a[i].as_str(), b[i].as_str()) {
            assert(views(a@)[i as int] != views(b@)[i as int]);
            return false;
        }
        i = i + 1;
    }
    assert(views(a@) =~= views(b@));
    true
}

/// Tells whether two paths have the same components.
pub fn path_eq(a: &str, b: &str) -> (r: bool)
    ensures
        r == same_path(a@, b@),
{
    let a_abs = !a.is_empty() && a.get_char(0) == '/';
    let b_abs = !b.is_empty() && b.get_char(0) == '/';
    a_abs == b_abs && same_list(&path_components(a), &path_components(b))
}

/// A name under a directory is the directory, the name behind it, and between them a slash exactly where
/// the directory has something that does not end in one. An absolute name stands for itself.
pub proof fn law_joined_path(dir: Seq<char>, name: Seq<char>)
    ensures
        ({
            let r = joined_path(dir, name);
            if is_absolute(name) {
                r == name
            } else {
                r == dir + name <==> dir.len() == 0 || dir.last() == '/'
            }
        }),
        !is_absolute(name) && dir.len() > 0 && dir.last() != '/' ==> joined_path(dir, name) == dir
            + seq!['/'] + name,
        !is_absolute(name) && (dir.len() == 0 || dir.last() == '/') ==> joined_path(dir, name) == dir
            + name,
{
    if !is_absolute(name) && dir.len() > 0 && dir.last() != '/' {
        assert(joined_path(dir, name) =~= dir + seq!['/'] + name);
        assert(joined_path(dir, name).len() == (dir + name).len() + 1);
    }
}

proof fn lemma_one_name(p: Seq<char>)
    requires
        !p.contains('/'),
    ensures
        pieces(p, at('/')) == seq![p],
        pieces(seq!['/'] + p, at('/')) == seq![Seq::<char>::empty(), p],
        seq![p].filter(|c: Seq<char>| is_name(c)) == if is_name(p) {
            seq![p]
        } else {
            Seq::empty()
        },
{
    let sep = at('/');
    let keep = |c: Seq<char>| is_name(c);
    assert forall|i: int| 0 <= i < p.len() implies !sep(#[trigger] p[i]) by {
        assert(p.contains(p[i]));
    }
    lemma_pieces_one(p, sep);
    lemma_pieces_join(Seq::empty(), '/', p, sep);
    assert(Seq::<char>::empty().push('/') + p =~= seq!['/'] + p);
    assert(seq![Seq::<char>::empty()] + seq![p] =~= seq![Seq::<char>::empty(), p]);
    reveal(Seq::filter);
    assert(seq![p].drop_last() =~= Seq::<Seq<char>>::empty());
    assert(seq![p].drop_last().filter(keep) =~= Seq::<Seq<char>>::empty());
    assert(seq![p].filter(keep) =~= if is_name(p) {
        seq![p]
    } else {
        Seq::empty()
    });
}

/// The components of a path are those before a slash and those behind it. A single name is one
/// component. Nothing, and the current directory behind a slash, are none.
pub proof fn law_components(a: Seq<char>, b: Seq<char>, p: Seq<char>)
    requires
        !p.contains('/'),
    ensures
        components(a + seq!['/'] + b) == components(a) + components(seq!['/'] + b),
        p.len() > 0 ==> components(p) == seq![p],
        components(Seq::empty()) == Seq::<Seq<char>>::empty(),
        components(seq!['/'] + p) == if p.len() == 0 || p == seq!['.'] {
            Seq::empty()
        } else {
            seq![p]
        },
{
    let sep = at('/');
    let keep = |c: Seq<char>| is_name(c);
    let none = Seq::<char>::empty();
    lemma_pieces_join(a, '/', b, sep);
    lemma_pieces_join(none, '/', b, sep);
    lemma_pieces_some(a, sep);
    lemma_pieces_some(b, sep);
    assert(a.push('/') + b =~= a + seq!['/'] + b);
    assert(none.push('/') + b =~= seq!['/'] + b);
    assert(pieces(none, sep) =~= seq![none]);
    Seq::filter_distributes_over_add(pieces(a, sep), pieces(b, sep), keep);
    Seq::filter_distributes_over_add(seq![none], pieces(b, sep), keep);
    reveal(Seq::filter);
    assert(seq![none].drop_last() =~= Seq::<Seq<char>>::empty());
    assert(seq![none].drop_last().filter(keep) =~= Seq::<Seq<char>>::empty());
    assert(seq![none].filter(keep) =~= Seq::<Seq<char>>::empty());
    assert(none != seq!['.']) by {
        assert(none.len() != seq!['.'].len());
    }
    assert((seq![none] + pieces(b, sep))[0] == none);
    assert(components(seq!['/'] + b) =~= pieces(b, sep).filter(keep));
    assert((pieces(a, sep) + pieces(b, sep))[0] == pieces(a, sep)[0]);
    assert(components(a + seq!['/'] + b) =~= components(a) + components(seq!['/'] + b));
    assert(components(none) =~= Seq::<Seq<char>>::empty());
    lemma_one_name(p);
    if p.len() > 0 {
        assert(components(p) =~= seq![p]);
    }
    Seq::filter_distributes_over_add(seq![none], seq![p], keep);
    assert(seq![none] + seq![p] =~= seq![none, p]);
    assert(components(seq!['/'] + p) =~= if p.len() == 0 || p == seq!['.'] {
        Seq::empty()
    } else {
        seq![p]
    });
}

/// Two paths are the same exactly where both or neither begin at the root and they have the same
/// components. A slash more, a trailing slash and the current directory change nothing.
pub proof fn law_same_path(a: Seq<char>, b: Seq<char>)
    ensures
        same_path(a, b) <==> (components(a) == components(b) && (has_prefix(a, seq!['/'])
            == has_prefix(b, seq!['/']))),
        same_path(a + seq!['/'] + b, a + seq!['/', '/'] + b),
        same_path(a + seq!['/'] + b, a + seq!['/', '.', '/'] + b),
        a.len() > 0 ==> same_path(a, a + seq!['/']),
{
    lemma_absolute(a);
    lemma_absolute(b);
    let none = Seq::<char>::empty();
    let dot = seq!['.'];
    let slash = seq!['/'];
    assert(!none.contains('/'));
    assert(!dot.contains('/'));
    law_components(a, b, none);
    law_components(a, slash + b, none);
    law_components(none, b, none);
    law_components(a, dot + slash + b, dot);
    law_components(slash + dot, b, dot);
    law_components(a, none, none);
    law_components(slash, b, none);
    assert(a + slash + (slash + b) =~= a + seq!['/', '/'] + b);
    assert(slash + slash + b =~= slash + (slash + b));
    assert(slash + none =~= slash);
    assert(components(slash + (slash + b)) =~= components(slash + b));
    assert(a + slash + (dot + slash + b) =~= a + seq!['/', '.', '/'] + b);
    assert((slash + dot) + slash + b =~= slash + (dot + slash + b));
    assert(components(slash + (dot + slash + b)) =~= components(slash + b));
    assert(a + slash + none =~= a + slash);
    assert(components(a + slash) =~= components(a));
}

proof fn lemma_absolute(p: Seq<char>)
    ensures
        is_absolute(p) <==> has_prefix(p, seq!['/']),
{
    if p.len() > 0 {
        assert(p.take(1) =~= seq![p[0]]);
        if p.take(1) == seq!['/'] {
            assert(seq![p[0]][0] == seq!['/'][0]);
        }
    }
}

} // verus!
