//! Text as sequences of characters: splitting, trimming and joining.

use vstd::prelude::*;

verus! {

/// The characters with the Unicode property `White_Space`.
pub open spec fn is_space(c: char) -> bool {
    ||| '\u{9}' <= c <= '\u{d}'
    ||| c == ' '
    ||| c == '\u{85}'
    ||| c == '\u{a0}'
    ||| c == '\u{1680}'
    ||| '\u{2000}' <= c <= '\u{200a}'
    ||| c == '\u{2028}'
    ||| c == '\u{2029}'
    ||| c == '\u{202f}'
    ||| c == '\u{205f}'
    ||| c == '\u{3000}'
}

/// Tells whether `c` is white space.
pub fn space(c: char) -> (r: bool)
    ensures
        r == is_space(c),
{
    ('\u{9}' <= c && c <= '\u{d}') || c == ' ' || c == '\u{85}' || c == '\u{a0}' || c == '\u{1680}'
        || ('\u{2000}' <= c && c <= '\u{200a}') || c == '\u{2028}' || c == '\u{2029}' || c
        == '\u{202f}' || c == '\u{205f}' || c == '\u{3000}'
}

/// The pieces of `s` between the elements that `sep` holds of: every separator opens a new piece,
/// every other element extends the last one. There is always at least one piece.
pub open spec fn pieces<T>(s: Seq<T>, sep: spec_fn(T) -> bool) -> Seq<Seq<T>>
    decreases s.len(),
{
    if s.len() == 0 {
        seq![Seq::<T>::empty()]
    } else {
        let before = pieces(s.drop_last(), sep);
        if sep(s.last()) {
            before.push(Seq::<T>::empty())
        } else {
            before.drop_last().push(before.last().push(s.last()))
        }
    }
}

/// The characters of a list of strings.
pub open spec fn views(v: Seq<String>) -> Seq<Seq<char>> {
    Seq::new(v.len(), |i: int| v[i]@)
}

/// The characters of an optional string.
pub open spec fn opt_chars(s: Option<String>) -> Option<Seq<char>> {
    match s {
        Some(s) => Some(s@),
        None => None,
    }
}

/// Cutting at the character `c`.
pub open spec fn at(c: char) -> spec_fn(char) -> bool {
    |x: char| x == c
}

/// The characters of `s`.
pub fn chars_of(s: &str) -> (r: Vec<char>)
    ensures
        r@ == s@,
{
    let mut r: Vec<char> = Vec::new();
    for c in it: s.chars()
        invariant
            r@ == it.seq().take(it.index()),
            it.seq() == s@,
    {
        r.push(c);
    }
    r
}

/// The pieces of `s` between the characters `c`.
pub fn split(s: &str, c: char) -> (r: Vec<String>)
    ensures
        views(r@) == pieces(s@, at(c)),
{
    let chars = chars_of(s);
    let mut r: Vec<String> = Vec::new();
    let mut start: usize = 0;
    let mut i: usize = 0;
    proof {
        assert(s@.subrange(0, 0) =~= Seq::<char>::empty());
        assert(views(r@).push(s@.subrange(0, 0)) =~= seq![Seq::<char>::empty()]);
    }
    while i < chars.len()
        invariant
            chars@ == s@,
            start <= i <= chars.len(),
            views(r@).push(s@.subrange(start as int, i as int)) == pieces(
                s@.take(i as int),
                at(c),
            ),
        decreases chars.len() - i,
    {
        let ghost before = views(r@);
        proof {
            assert(s@.take(i + 1).drop_last() =~= s@.take(i as int));
            assert(s@.take(i + 1).last() == s@[i as int]);
        }
        if chars[i] == c {
            r.push(s.substring_char(start, i).to_owned());
            start = i + 1;
            proof {
                assert(views(r@) =~= before.push(r@.last()@));
                assert(s@.subrange(start as int, i + 1) =~= Seq::<char>::empty());
            }
        } else {
            proof {
                let all = before.push(s@.subrange(start as int, i as int));
                assert(all.drop_last() =~= before);
                assert(s@.subrange(start as int, i + 1) =~= s@.subrange(
                    start as int,
                    i as int,
                ).push(s@[i as int]));
            }
        }
        i = i + 1;
    }
    let ghost before = views(r@);
    r.push(s.substring_char(start, i).to_owned());
    proof {
        assert(s@.take(i as int) =~= s@);
        assert(views(r@) =~= before.push(s@.subrange(start as int, i as int)));
    }
    r
}

/// The pieces that hold something, in order.
pub open spec fn filled<T>(parts: Seq<Seq<T>>) -> Seq<Seq<T>> {
    parts.filter(|p: Seq<T>| p.len() > 0)
}

/// The fields of `s`: its non-empty pieces between the characters `c`.
pub open spec fn fields_of(s: Seq<char>, c: char) -> Seq<Seq<char>> {
    filled(pieces(s, at(c)))
}

/// Keeping the filled pieces one by one.
pub proof fn lemma_filled_push<T>(parts: Seq<Seq<T>>, p: Seq<T>)
    ensures
        filled(parts.push(p)) == if p.len() > 0 {
            filled(parts).push(p)
        } else {
            filled(parts)
        },
{
    reveal(Seq::filter);
    assert(parts.push(p).drop_last() =~= parts);
}

/// Keeps the non-empty strings of a list.
pub fn keep_filled(parts: &Vec<String>) -> (r: Vec<String>)
    ensures
        views(r@) == filled(views(parts@)),
{
    let mut r: Vec<String> = Vec::new();
    let mut i: usize = 0;
    proof {
        reveal(Seq::filter);
        assert(views(r@) =~= filled(views(parts@).take(0)));
    }
    while i < parts.len()
        invariant
            i <= parts.len(),
            views(r@) == filled(views(parts@).take(i as int)),
        decreases parts.len() - i,
    {
        let ghost before = views(r@);
        proof {
            lemma_filled_push(views(parts@).take(i as int), parts@[i as int]@);
            assert(views(parts@).take(i + 1) =~= views(parts@).take(i as int).push(
                parts@[i as int]@,
            ));
        }
        if !parts[i].as_str().is_empty() {
            r.push(parts[i].clone());
            assert(views(r@) =~= before.push(parts@[i as int]@));
        }
        i = i + 1;
    }
    assert(views(parts@).take(i as int) =~= views(parts@));
    r
}

/// The fields of `s` between the characters `c`.
pub fn fields(s: &str, c: char) -> (r: Vec<String>)
    ensures
        views(r@) == fields_of(s@, c),
{
    keep_filled(&split(s, c))
}

/// Whether `s` begins with `p`.
pub open spec fn has_prefix(s: Seq<char>, p: Seq<char>) -> bool {
    p.len() <= s.len() && s.take(p.len() as int) == p
}

/// Tells whether `s` begins with `p`.
pub fn starts_with(s: &str, p: &str) -> (r: bool)
    ensures
        r == has_prefix(s@, p@),
{
    let n = p.unicode_len();
    n <= s.unicode_len() && same(s.substring_char(0, n), p)
}

/// Tells whether two strings hold the same characters.
pub fn same(a: &str, b: &str) -> (r: bool)
    ensures
        r == (a@ == b@),
{
    a.to_owned() == b.to_owned()
}

/// What follows the prefix `p` in `s`, where `s` has it.
pub fn strip_prefix(s: &str, p: &str) -> (r: Option<String>)
    ensures
        match r {
            Some(rest) => has_prefix(s@, p@) && rest@ == s@.skip(p@.len() as int),
            None => !has_prefix(s@, p@),
        },
{
    if starts_with(s, p) {
        let rest = s.substring_char(p.unicode_len(), s.unicode_len());
        assert(rest@ =~= s@.skip(p@.len() as int));
        Some(rest.to_owned())
    } else {
        None
    }
}

/// `s` without the white space that it begins with.
pub open spec fn trimmed_start(s: Seq<char>) -> Seq<char>
    decreases s.len(),
{
    if s.len() > 0 && is_space(s[0]) {
        trimmed_start(s.skip(1))
    } else {
        s
    }
}

/// `s` without the white space that it ends with.
pub open spec fn trimmed_end(s: Seq<char>) -> Seq<char>
    decreases s.len(),
{
    if s.len() > 0 && is_space(s.last()) {
        trimmed_end(s.drop_last())
    } else {
        s
    }
}

/// `s` without the white space at its two ends.
pub open spec fn trimmed(s: Seq<char>) -> Seq<char> {
    trimmed_end(trimmed_start(s))
}

/// Removes the white space at both ends of `s`.
pub fn trim(s: &str) -> (r: String)
    ensures
        r@ == trimmed(s@),
{
    let chars = chars_of(s);
    let mut from: usize = 0;
    let mut to: usize = chars.len();
    assert(s@.skip(0) =~= s@);
    while from < to && space(chars[from])
        invariant
            chars@ == s@,
            from <= to == chars.len(),
            trimmed_start(s@.skip(from as int)) == trimmed_start(s@),
        decreases to - from,
    {
        assert(s@.skip(from as int).skip(1) =~= s@.skip(from + 1));
        from = from + 1;
    }
    assert(s@.subrange(from as int, to as int) =~= s@.skip(from as int));
    while from < to && space(chars[to - 1])
        invariant
            chars@ == s@,
            from <= to <= chars.len(),
            trimmed_end(s@.subrange(from as int, to as int)) == trimmed(s@),
        decreases to - from,
    {
        assert(s@.subrange(from as int, to as int).drop_last() =~= s@.subrange(
            from as int,
            to - 1,
        ));
        to = to - 1;
    }
    s.substring_char(from, to).to_owned()
}

/// A line without the carriage return that belonged to its ending.
pub open spec fn without_cr(line: Seq<char>) -> Seq<char> {
    if line.len() > 0 && line.last() == '\r' {
        line.drop_last()
    } else {
        line
    }
}

/// The lines of `s`, each without its ending, which is a line feed or a carriage return and a line
/// feed. What follows the last line feed is a line too, where there is any.
pub open spec fn lines_of(s: Seq<char>) -> Seq<Seq<char>> {
    let parts = pieces(s, at('\n'));
    let ended = parts.drop_last().map_values(|l: Seq<char>| without_cr(l));
    if parts.last().len() == 0 {
        ended
    } else {
        ended.push(parts.last())
    }
}

/// The pieces of a text are never none.
pub proof fn lemma_pieces_some<T>(s: Seq<T>, sep: spec_fn(T) -> bool)
    ensures
        pieces(s, sep).len() >= 1,
    decreases s.len(),
{
    if s.len() > 0 {
        lemma_pieces_some(s.drop_last(), sep);
    }
}

/// A text without a separator is one piece.
pub proof fn lemma_pieces_one<T>(s: Seq<T>, sep: spec_fn(T) -> bool)
    requires
        forall|i: int| 0 <= i < s.len() ==> !sep(#[trigger] s[i]),
    ensures
        pieces(s, sep) == seq![s],
    decreases s.len(),
{
    if s.len() == 0 {
        assert(s =~= Seq::<T>::empty());
    } else {
        lemma_pieces_one(s.drop_last(), sep);
        assert(s.drop_last().push(s.last()) =~= s);
        assert(!sep(s[s.len() - 1]));
        assert(pieces(s, sep) =~= seq![s]);
    }
}

/// A separator parts the pieces before it from those behind it.
pub proof fn lemma_pieces_join<T>(a: Seq<T>, c: T, b: Seq<T>, sep: spec_fn(T) -> bool)
    requires
        sep(c),
    ensures
        pieces(a.push(c) + b, sep) == pieces(a, sep) + pieces(b, sep),
    decreases b.len(),
{
    let s = a.push(c) + b;
    if b.len() == 0 {
        assert(s =~= a.push(c));
        assert(s.drop_last() =~= a);
        assert(pieces(b, sep) =~= seq![Seq::<T>::empty()]);
        assert(pieces(s, sep) =~= pieces(a, sep) + pieces(b, sep));
    } else {
        let rest = b.drop_last();
        lemma_pieces_join(a, c, rest, sep);
        lemma_pieces_some(rest, sep);
        assert(s.drop_last() =~= a.push(c) + rest);
        assert(s.last() == b.last());
        let before = pieces(a, sep) + pieces(rest, sep);
        assert(before.drop_last() =~= pieces(a, sep) + pieces(rest, sep).drop_last());
        assert(pieces(s, sep) =~= pieces(a, sep) + pieces(b, sep));
    }
}

/// The lines of `s`.
pub fn lines(s: &str) -> (r: Vec<String>)
    ensures
        views(r@) == lines_of(s@),
{
    let parts = split(s, '\n');
    let ghost all = views(parts@);
    proof {
        lemma_pieces_some(s@, at('\n'));
    }
    let ghost ended = all.drop_last().map_values(|l: Seq<char>| without_cr(l));
    let last: usize = parts.len() - 1;
    let mut r: Vec<String> = Vec::new();
    let mut i: usize = 0;
    while i < last
        invariant
            last == parts.len() - 1,
            i <= last,
            all == views(parts@),
            ended == all.drop_last().map_values(|l: Seq<char>| without_cr(l)),
            views(r@) == ended.take(i as int),
        decreases last - i,
    {
        let ghost before = views(r@);
        let line = parts[i].as_str();
        let n = line.unicode_len();
        if n > 0 && line.get_char(n - 1) == '\r' {
            let cut = line.substring_char(0, n - 1);
            assert(cut@ =~= line@.drop_last());
            r.push(cut.to_owned());
        } else {
            r.push(parts[i].clone());
        }
        assert(r@.last()@ == ended[i as int]);
        assert(views(r@) =~= before.push(ended[i as int]));
        assert(ended.take(i + 1) =~= before.push(ended[i as int]));
        i = i + 1;
    }
    assert(ended.take(i as int) =~= ended);
    if !parts[last].as_str().is_empty() {
        let ghost before = views(r@);
        r.push(parts[last].clone());
        assert(views(r@) =~= before.push(all.last()));
    }
    r
}

/// What stands before and after the first `c` in `s`.
pub open spec fn cut(s: Seq<char>, c: char) -> Option<(Seq<char>, Seq<char>)> {
    match s.index_of_first(c) {
        Some(i) => Some((s.take(i), s.skip(i + 1))),
        None => None,
    }
}

/// A text with one `c` in front of which there is none is cut there.
pub proof fn lemma_cut(a: Seq<char>, c: char, b: Seq<char>)
    requires
        !a.contains(c),
    ensures
        cut(a.push(c) + b, c) == Some((a, b)),
{
    let s = a.push(c) + b;
    s.index_of_first_ensures(c);
    assert(s[a.len() as int] == c);
    assert(s.contains(c));
    let i = s.index_of_first(c)->Some_0;
    if i < a.len() {
        assert(s[i] == a[i]);
    }
    assert(i == a.len());
    assert(s.take(i) =~= a);
    assert(s.skip(i + 1) =~= b);
}

/// Cuts `s` at its first `c`.
pub fn split_once(s: &str, c: char) -> (r: Option<(String, String)>)
    ensures
        match (r, cut(s@, c)) {
            (Some(p), Some(q)) => p.0@ == q.0 && p.1@ == q.1,
            (None, None) => true,
            _ => false,
        },
{
    let chars = chars_of(s);
    let mut i: usize = 0;
    proof {
        s@.index_of_first_ensures(c);
    }
    while i < chars.len()
        invariant
            chars@ == s@,
            i <= chars.len(),
            forall|j: int| 0 <= j < i ==> s@[j] != c,
        decreases chars.len() - i,
    {
        if chars[i] == c {
            let a = s.substring_char(0, i);
            let b = s.substring_char(i + 1, chars.len());
            proof {
                assert(a@ =~= s@.take(i as int));
                assert(b@ =~= s@.skip(i + 1));
                assert(s@ =~= a@.push(c) + b@);
                lemma_cut(a@, c, b@);
            }
            return Some((a.to_owned(), b.to_owned()));
        }
        i = i + 1;
    }
    None
}

/// The parts, each with `sep` in front of it.
pub open spec fn led(parts: Seq<Seq<char>>, sep: Seq<char>) -> Seq<char>
    decreases parts.len(),
{
    if parts.len() == 0 {
        Seq::empty()
    } else {
        led(parts.drop_last(), sep) + sep + parts.last()
    }
}

/// The parts in order, with `sep` between every two.
pub open spec fn joined(parts: Seq<Seq<char>>, sep: Seq<char>) -> Seq<char> {
    if parts.len() == 0 {
        Seq::empty()
    } else {
        parts[0] + led(parts.skip(1), sep)
    }
}

/// No piece holds a separator.
pub proof fn lemma_pieces_plain<T>(s: Seq<T>, sep: spec_fn(T) -> bool, i: int, j: int)
    requires
        0 <= i < pieces(s, sep).len(),
        0 <= j < pieces(s, sep)[i].len(),
    ensures
        !sep(pieces(s, sep)[i][j]),
    decreases s.len(),
{
    if s.len() > 0 {
        let before = pieces(s.drop_last(), sep);
        lemma_pieces_some(s.drop_last(), sep);
        if i < before.len() && j < before[i].len() {
            lemma_pieces_plain(s.drop_last(), sep, i, j);
        }
    }
}

/// Cutting what was joined gives the parts back, where there are some and none holds a separator.
pub proof fn lemma_pieces_joined(parts: Seq<Seq<char>>, c: char, sep: spec_fn(char) -> bool)
    requires
        parts.len() > 0,
        sep(c),
        forall|k: int, m: int|
            0 <= k < parts.len() && 0 <= m < parts[k].len() ==> !sep(#[trigger] parts[k][m]),
    ensures
        pieces(joined(parts, seq![c]), sep) == parts,
    decreases parts.len(),
{
    let last = parts.last();
    assert forall|m: int| 0 <= m < last.len() implies !sep(#[trigger] last[m]) by {
        assert(last[m] == parts[parts.len() - 1][m]);
    }
    lemma_pieces_one(last, sep);
    if parts.len() == 1 {
        assert(joined(parts, seq![c]) =~= last);
        assert(parts =~= seq![last]);
    } else {
        let rest = parts.drop_last();
        assert forall|k: int, m: int| 0 <= k < rest.len() && 0 <= m < rest[k].len() implies !sep(
            #[trigger] rest[k][m],
        ) by {
            assert(rest[k][m] == parts[k][m]);
        }
        lemma_pieces_joined(rest, c, sep);
        assert(parts.skip(1).drop_last() =~= rest.skip(1));
        assert(joined(parts, seq![c]) =~= joined(rest, seq![c]).push(c) + last);
        lemma_pieces_join(joined(rest, seq![c]), c, last, sep);
        assert(parts =~= rest + seq![last]);
    }
}

/// Joins strings with `sep` between every two.
pub fn join(parts: &Vec<String>, sep: &str) -> (r: String)
    ensures
        r@ == joined(views(parts@), sep@),
{
    let mut r = String::new();
    if parts.len() == 0 {
        return r;
    }
    let ghost rest = views(parts@).skip(1);
    r.append(parts[0].as_str());
    let mut i: usize = 1;
    proof {
        assert(rest.take(0) =~= Seq::<Seq<char>>::empty());
        assert(r@ =~= parts@[0]@ + led(rest.take(0), sep@));
    }
    while i < parts.len()
        invariant
            1 <= i <= parts.len(),
            rest == views(parts@).skip(1),
            r@ == parts@[0]@ + led(rest.take(i - 1), sep@),
        decreases parts.len() - i,
    {
        r.append(sep);
        r.append(parts[i].as_str());
        proof {
            assert(rest.take(i as int).drop_last() =~= rest.take(i - 1));
            assert(rest.take(i as int).last() == parts@[i as int]@);
            assert(r@ =~= parts@[0]@ + led(rest.take(i as int), sep@));
        }
        i = i + 1;
    }
    assert(rest.take(i - 1) =~= rest);
    r
}

proof fn lemma_joined_push(parts: Seq<Seq<char>>, p: Seq<char>, sep: Seq<char>)
    ensures
        joined(parts.push(p), sep) == if parts.len() == 0 {
            p
        } else {
            joined(parts, sep) + sep + p
        },
{
    let all = parts.push(p);
    if parts.len() == 0 {
        assert(all.skip(1) =~= Seq::<Seq<char>>::empty());
        assert(joined(all, sep) =~= p);
    } else {
        assert(all.skip(1).drop_last() =~= parts.skip(1));
        assert(joined(all, sep) =~= joined(parts, sep) + sep + p);
    }
}

/// Joining puts the separator between what two lists come to, and leaves a single part as it is.
pub proof fn law_joined(a: Seq<Seq<char>>, b: Seq<Seq<char>>, p: Seq<char>, sep: Seq<char>)
    ensures
        joined(Seq::empty(), sep) == Seq::<char>::empty(),
        joined(seq![p], sep) == p,
        a.len() > 0 && b.len() > 0 ==> joined(a + b, sep) == joined(a, sep) + sep + joined(b, sep),
    decreases b.len(),
{
    assert(seq![p] =~= Seq::<Seq<char>>::empty().push(p));
    lemma_joined_push(Seq::empty(), p, sep);
    if a.len() > 0 && b.len() > 0 {
        let rest = b.drop_last();
        assert(a + b =~= (a + rest).push(b.last()));
        assert(b =~= rest.push(b.last()));
        lemma_joined_push(a + rest, b.last(), sep);
        lemma_joined_push(rest, b.last(), sep);
        law_joined(a, rest, p, sep);
        if rest.len() == 0 {
            assert(a + rest =~= a);
        } else {
            assert(joined(a, sep) + sep + joined(rest, sep) + sep + b.last() =~= joined(a, sep) + sep
                + (joined(rest, sep) + sep + b.last()));
        }
    }
}

/// The pieces of a text between the characters `c` come to that text again when they are joined with
/// `c`, and none of them holds a `c`.
pub proof fn law_pieces(s: Seq<char>, c: char)
    ensures
        joined(pieces(s, at(c)), seq![c]) == s,
        pieces(s, at(c)).len() >= 1,
        forall|i: int| 0 <= i < pieces(s, at(c)).len() ==> !(#[trigger] pieces(s, at(c))[i]).contains(c),
    decreases s.len(),
{
    let sep = at(c);
    lemma_pieces_some(s, sep);
    assert forall|i: int| 0 <= i < pieces(s, sep).len() implies !(#[trigger] pieces(s, sep)[i]).contains(
        c,
    ) by {
        if pieces(s, sep)[i].contains(c) {
            let j = choose|j: int| 0 <= j < pieces(s, sep)[i].len() && pieces(s, sep)[i][j] == c;
            lemma_pieces_plain(s, sep, i, j);
        }
    }
    if s.len() == 0 {
        law_joined(Seq::empty(), Seq::empty(), Seq::empty(), seq![c]);
        assert(s =~= Seq::<char>::empty());
    } else {
        let before = pieces(s.drop_last(), sep);
        law_pieces(s.drop_last(), c);
        lemma_pieces_some(s.drop_last(), sep);
        if sep(s.last()) {
            lemma_joined_push(before, Seq::empty(), seq![c]);
            assert(joined(before, seq![c]) + seq![c] + Seq::<char>::empty() =~= s);
        } else {
            let init = before.drop_last();
            let last = before.last();
            assert(before =~= init.push(last));
            lemma_joined_push(init, last, seq![c]);
            lemma_joined_push(init, last.push(s.last()), seq![c]);
            assert(joined(pieces(s, sep), seq![c]) =~= joined(before, seq![c]).push(s.last()));
            assert(s.drop_last().push(s.last()) =~= s);
        }
    }
}

/// Of the fields between the characters `c`, only empty ones are left out, and their order stays: parts
/// without a `c` that are joined with it are cut again into those that hold something.
pub proof fn law_fields(parts: Seq<Seq<char>>, c: char)
    requires
        forall|i: int| 0 <= i < parts.len() ==> !(#[trigger] parts[i]).contains(c),
    ensures
        fields_of(joined(parts, seq![c]), c) == filled(parts),
        (forall|i: int| 0 <= i < parts.len() ==> (#[trigger] parts[i]).len() > 0) ==> filled(parts)
            == parts,
    decreases parts.len(),
{
    let sep = at(c);
    if parts.len() == 0 {
        let none = Seq::<Seq<char>>::empty();
        assert(parts =~= none);
        lemma_filled_push(none, Seq::<char>::empty());
        assert(none.push(Seq::<char>::empty()) =~= seq![Seq::<char>::empty()]);
        reveal(Seq::filter);
        assert(filled(none) =~= none);
    } else {
        assert forall|k: int, m: int| 0 <= k < parts.len() && 0 <= m < parts[k].len() implies !sep(
            #[trigger] parts[k][m],
        ) by {
            assert(parts[k].contains(parts[k][m]));
        }
        lemma_pieces_joined(parts, c, sep);
        if forall|i: int| 0 <= i < parts.len() ==> (#[trigger] parts[i]).len() > 0 {
            let rest = parts.drop_last();
            assert forall|i: int| 0 <= i < rest.len() implies !(#[trigger] rest[i]).contains(c)
                && rest[i].len() > 0 by {
                assert(rest[i] == parts[i]);
            }
            law_fields(rest, c);
            lemma_filled_push(rest, parts.last());
            assert(rest.push(parts.last()) =~= parts);
            assert(parts[parts.len() - 1].len() > 0);
        }
    }
}

/// Whether a text is white space throughout.
pub open spec fn is_blank(s: Seq<char>) -> bool {
    forall|i: int| 0 <= i < s.len() ==> is_space(#[trigger] s[i])
}

/// Trimming takes away the white space before and behind a text, all of it and nothing else.
pub proof fn law_trimmed(a: Seq<char>, s: Seq<char>, b: Seq<char>)
    requires
        is_blank(a),
        is_blank(b),
        s.len() > 0 ==> !is_space(s[0]) && !is_space(s.last()),
    ensures
        trimmed(a + s + b) == s,
{
    lemma_trimmed_start(a, s + b);
    assert(a + s + b =~= a + (s + b));
    if s.len() == 0 {
        assert(s + b =~= b);
        lemma_trimmed_start(b, Seq::empty());
        assert(b + Seq::<char>::empty() =~= b);
        assert(s =~= Seq::<char>::empty());
    } else {
        assert((s + b)[0] == s[0]);
        lemma_trimmed_end(s, b);
    }
}

proof fn lemma_trimmed_start(a: Seq<char>, s: Seq<char>)
    requires
        is_blank(a),
    ensures
        trimmed_start(a + s) == trimmed_start(s),
    decreases a.len(),
{
    if a.len() == 0 {
        assert(a + s =~= s);
    } else {
        let rest = a.skip(1);
        assert forall|i: int| 0 <= i < rest.len() implies is_space(#[trigger] rest[i]) by {
            assert(is_space(a[i + 1]));
        }
        lemma_trimmed_start(rest, s);
        assert((a + s).skip(1) =~= rest + s);
        assert(is_space(a[0]));
    }
}

proof fn lemma_trimmed_end(s: Seq<char>, b: Seq<char>)
    requires
        is_blank(b),
        s.len() > 0,
        !is_space(s.last()),
    ensures
        trimmed_end(s + b) == s,
    decreases b.len(),
{
    if b.len() == 0 {
        assert(s + b =~= s);
    } else {
        let rest = b.drop_last();
        assert forall|i: int| 0 <= i < rest.len() implies is_space(#[trigger] rest[i]) by {
            assert(is_space(b[i]));
        }
        lemma_trimmed_end(s, rest);
        assert((s + b).drop_last() =~= s + rest);
        assert(is_space(b[b.len() - 1]));
    }
}

/// A text is its first line and the lines behind it. A line that ends in a line feed, or in a carriage
/// return and a line feed, is told without that ending, and a last line needs none.
pub proof fn law_lines(line: Seq<char>, rest: Seq<char>)
    requires
        !line.contains('\n'),
    ensures
        lines_of(Seq::empty()) == Seq::<Seq<char>>::empty(),
        line.len() > 0 ==> lines_of(line) == seq![line],
        line.len() == 0 || line.last() != '\r' ==> lines_of(line + seq!['\n'] + rest) == seq![line]
            + lines_of(rest),
        lines_of(line + seq!['\r', '\n'] + rest) == seq![line] + lines_of(rest),
{
    let sep = at('\n');
    assert(seq![Seq::<char>::empty()].drop_last() =~= Seq::<Seq<char>>::empty());
    assert(lines_of(Seq::empty()) =~= Seq::<Seq<char>>::empty());
    assert forall|i: int| 0 <= i < line.len() implies !sep(#[trigger] line[i]) by {
        assert(line.contains(line[i]));
    }
    lemma_pieces_one(line, sep);
    assert(seq![line].drop_last() =~= Seq::<Seq<char>>::empty());
    assert(line.len() > 0 ==> lines_of(line) =~= seq![line]);
    lemma_first_line(line, rest);
    let with_cr = line.push('\r');
    assert forall|i: int| 0 <= i < with_cr.len() implies with_cr[i] != '\n' by {
        if i < line.len() {
            assert(line.contains(line[i]));
        }
    }
    lemma_first_line(with_cr, rest);
    assert(with_cr.drop_last() =~= line);
    assert(line + seq!['\n'] + rest =~= line.push('\n') + rest);
    assert(line + seq!['\r', '\n'] + rest =~= with_cr.push('\n') + rest);
}

proof fn lemma_first_line(line: Seq<char>, rest: Seq<char>)
    requires
        forall|i: int| 0 <= i < line.len() ==> line[i] != '\n',
    ensures
        lines_of(line.push('\n') + rest) == seq![without_cr(line)] + lines_of(rest),
{
    let sep = at('\n');
    let strip = |l: Seq<char>| without_cr(l);
    lemma_pieces_one(line, sep);
    lemma_pieces_join(line, '\n', rest, sep);
    lemma_pieces_some(rest, sep);
    let parts = pieces(rest, sep);
    let all = seq![line] + parts;
    assert(all.drop_last() =~= seq![line] + parts.drop_last());
    assert(all.last() == parts.last());
    assert(all.drop_last().map_values(strip) =~= seq![without_cr(line)] + parts.drop_last().map_values(
        strip,
    ));
    assert(lines_of(line.push('\n') + rest) =~= seq![without_cr(line)] + lines_of(rest));
}

/// A text begins with `p` exactly where it is `p` and something behind it.
pub proof fn law_prefix(s: Seq<char>, p: Seq<char>, rest: Seq<char>)
    ensures
        has_prefix(p + rest, p),
        has_prefix(s, p) ==> s == p + s.skip(p.len() as int),
{
    assert((p + rest).take(p.len() as int) =~= p);
    if has_prefix(s, p) {
        assert(s =~= p + s.skip(p.len() as int));
    }
}

/// A text is cut at its first `c`: what stands before and behind it, with the `c` between them, is the
/// text, and what stands before it holds none. A text without a `c` is not cut.
pub proof fn law_cut(s: Seq<char>, c: char)
    ensures
        cut(s, c) is None <==> !s.contains(c),
        cut(s, c) matches Some(p) ==> s == p.0 + seq![c] + p.1 && !p.0.contains(c),
{
    s.index_of_first_ensures(c);
    if let Some(i) = s.index_of_first(c) {
        assert(s =~= s.take(i) + seq![c] + s.skip(i + 1));
        if s.take(i).contains(c) {
            let j = choose|j: int| 0 <= j < i && s.take(i)[j] == c;
            assert(s[j] == c);
        }
    }
}

/// Each part is kept or left out by itself: it is kept exactly where it holds something.
pub proof fn law_filled<T>(a: Seq<Seq<T>>, b: Seq<Seq<T>>, p: Seq<T>)
    ensures
        filled(a + b) == filled(a) + filled(b),
        p.len() > 0 ==> filled(seq![p]) == seq![p],
        p.len() == 0 ==> filled(seq![p]) == Seq::<Seq<T>>::empty(),
{
    Seq::filter_distributes_over_add(a, b, |p: Seq<T>| p.len() > 0);
    let none = Seq::<Seq<T>>::empty();
    lemma_filled_push(none, p);
    assert(none.push(p) =~= seq![p]);
    reveal(Seq::filter);
    assert(filled(none) =~= none);
}

/// White space is what Unicode calls so: in ASCII the space and the five control characters from the tab
/// to the carriage return, and beyond it the characters of these code points and no others.
pub proof fn law_space(c: char)
    ensures
        (c as u32) < 128 ==> (is_space(c) <==> c == ' ' || 9 <= c as u32 <= 13),
        (c as u32) >= 128 ==> (is_space(c) <==> seq![
            0x85u32, 0xa0u32, 0x1680u32, 0x2000u32, 0x2001u32, 0x2002u32, 0x2003u32, 0x2004u32,
            0x2005u32, 0x2006u32, 0x2007u32, 0x2008u32, 0x2009u32, 0x200au32, 0x2028u32, 0x2029u32,
            0x202fu32, 0x205fu32, 0x3000u32,
        ].contains(c as u32)),
{
    let points = seq![
        0x85u32, 0xa0u32, 0x1680u32, 0x2000u32, 0x2001u32, 0x2002u32, 0x2003u32, 0x2004u32,
        0x2005u32, 0x2006u32, 0x2007u32, 0x2008u32, 0x2009u32, 0x200au32, 0x2028u32, 0x2029u32,
        0x202fu32, 0x205fu32, 0x3000u32,
    ];
    assert(points.len() == 19);
    assert(forall|i: int| 0 <= i < 3 ==> points[i] < 0x2000);
    assert(points[0] == 0x85 && points[1] == 0xa0 && points[2] == 0x1680);
    assert forall|i: int| 3 <= i < 14 implies #[trigger] points[i] == 0x2000 + i - 3 by {}
    assert(points[14] == 0x2028 && points[15] == 0x2029 && points[16] == 0x202f);
    assert(points[17] == 0x205f && points[18] == 0x3000);
    if 0x2000 <= c as u32 <= 0x200a {
        assert(points[c as int - 0x2000 + 3] == c as u32);
    }
}

/// Strings stand for their characters, one for one and in order.
pub proof fn law_views(v: Seq<String>, i: int, s: Option<String>)
    ensures
        views(v).len() == v.len(),
        0 <= i < v.len() ==> views(v)[i] == v[i]@,
        opt_chars(s) is Some <==> s is Some,
        s matches Some(t) ==> opt_chars(s) == Some(t@),
{
}

} // verus!
