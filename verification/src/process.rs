//! The processes that live in a network namespace.

use vstd::prelude::*;
use vstd::slice::slice_subrange;
use vstd::slice::slice_to_vec;
use vstd::utf8::{decode_utf8, valid_utf8};
use crate::number::{
    decimal, decimal_of, decimal_of_int, i32_of, law_decimal_read_back_i32, parse_i32,
};
use crate::text::{
    filled, has_prefix, join, joined, law_filled, lemma_filled_push, lemma_pieces_join, lemma_pieces_one, lemma_pieces_some, lines, lines_of, opt_chars,
    pieces, strip_prefix, trim, trimmed, views,
};

verus! {

/// What identifies a file: its device and its number there. Two names lead to the same namespace
/// exactly where they lead to the same file.
#[derive(Clone, Copy, Debug, PartialEq, Eq, Structural)]
pub struct FileId {
    pub dev: u64,
    pub ino: u64,
}

/// The processes that the names of entries stand for, in order, but for the process `me`.
pub open spec fn other_pids(names: Seq<Seq<char>>, me: i32) -> Seq<i32>
    decreases names.len(),
{
    if names.len() == 0 {
        Seq::empty()
    } else {
        let before = other_pids(names.drop_last(), me);
        match i32_of(names.last()) {
            Some(pid) => if pid != me {
                before.push(pid)
            } else {
                before
            },
            None => before,
        }
    }
}

/// The processes other than `me` among the names of the entries of the process directory. A name
/// that is no number stands for no process.
pub fn candidate_pids(names: &Vec<String>, me: i32) -> (r: Vec<i32>)
    ensures
        r@ == other_pids(views(names@), me),
{
    let ghost all = views(names@);
    let mut r: Vec<i32> = Vec::new();
    let mut i: usize = 0;
    assert(all.take(0) =~= Seq::<Seq<char>>::empty());
    while i < names.len()
        invariant
            i <= names.len(),
            all == views(names@),
            r@ == other_pids(all.take(i as int), me),
        decreases names.len() - i,
    {
        proof {
            assert(all.take(i + 1).drop_last() =~= all.take(i as int));
            assert(all.take(i + 1).last() == names@[i as int]@);
        }
        if let Some(pid) = parse_i32(names[i].as_str()) {
            if pid != me {
                r.push(pid);
            }
        }
        i = i + 1;
    }
    assert(all.take(i as int) =~= all);
    r
}

/// The processes whose namespace is `target`, in order.
pub open spec fn pids_inside(found: Seq<(i32, Option<FileId>)>, target: FileId) -> Seq<i32> {
    found.filter(|c: (i32, Option<FileId>)| c.1 == Some(target)).map_values(
        |c: (i32, Option<FileId>)| c.0,
    )
}

/// The processes that live in the namespace `target`. Each process comes with the namespace that
/// it was found in, and with `None` where that could not be told. Nothing lives in a namespace that
/// is not there.
pub fn pids_in_netns(found: &Vec<(i32, Option<FileId>)>, target: Option<FileId>) -> (r: Vec<i32>)
    ensures
        match target {
            Some(t) => r@ == pids_inside(found@, t),
            None => r@.len() == 0,
        },
{
    let mut r: Vec<i32> = Vec::new();
    let t = match target {
        Some(t) => t,
        None => {
            return r;
        },
    };
    let ghost inside = |c: (i32, Option<FileId>)| c.1 == Some(t);
    let ghost pid = |c: (i32, Option<FileId>)| c.0;
    let mut i: usize = 0;
    proof {
        reveal(Seq::filter);
        assert(r@ =~= found@.take(0).filter(inside).map_values(pid));
    }
    while i < found.len()
        invariant
            i <= found.len(),
            inside == (|c: (i32, Option<FileId>)| c.1 == Some(t)),
            pid == (|c: (i32, Option<FileId>)| c.0),
            r@ == found@.take(i as int).filter(inside).map_values(pid),
        decreases found.len() - i,
    {
        let ghost before = found@.take(i as int).filter(inside);
        proof {
            reveal(Seq::filter);
            assert(found@.take(i + 1).drop_last() =~= found@.take(i as int));
        }
        if let Some(id) = found[i].1 {
            if id == t {
                r.push(found[i].0);
                assert(before.push(found@[i as int]).map_values(pid) =~= before.map_values(
                    pid,
                ).push(found@[i as int].0));
            }
        }
        i = i + 1;
    }
    assert(found@.take(i as int) =~= found@);
    r
}

/// The text that `String::from_utf8_lossy` makes of bytes.
pub uninterp spec fn lossy_text(bytes: Seq<u8>) -> Seq<char>;

/// `String::from_utf8_lossy`: the text that the bytes encode in UTF-8, with replacement characters
/// for what is no UTF-8. Bytes that are UTF-8 throughout give the text that they encode.
#[verifier::external_body]
pub(crate) fn from_utf8_lossy(bytes: &Vec<u8>) -> (r: String)
    ensures
        r@ == lossy_text(bytes@),
        valid_utf8(bytes@) ==> r@ == decode_utf8(bytes@),
{
    String::from_utf8_lossy(bytes).into_owned()
}

/// The bytes of a list of byte strings.
pub open spec fn byte_views(v: Seq<Vec<u8>>) -> Seq<Seq<u8>> {
    Seq::new(v.len(), |i: int| v[i]@)
}

/// The arguments in a command line, which end in zero bytes. Empty arguments do not count.
pub open spec fn args_of(cmdline: Seq<u8>) -> Seq<Seq<u8>> {
    filled(pieces(cmdline, |b: u8| b == 0))
}

/// The arguments in a command line.
pub fn command_args(cmdline: &Vec<u8>) -> (r: Vec<Vec<u8>>)
    ensures
        byte_views(r@) == args_of(cmdline@),
{
    let ghost sep = |b: u8| b == 0;
    let mut r: Vec<Vec<u8>> = Vec::new();
    let mut start: usize = 0;
    let mut i: usize = 0;
    proof {
        reveal(Seq::filter);
        assert(cmdline@.subrange(0, 0) =~= Seq::<u8>::empty());
        assert(pieces(cmdline@.take(0), sep).drop_last() =~= Seq::<Seq<u8>>::empty());
        assert(byte_views(r@) =~= filled(pieces(cmdline@.take(0), sep).drop_last()));
    }
    while i < cmdline.len()
        invariant
            start <= i <= cmdline.len(),
            sep == (|b: u8| b == 0),
            byte_views(r@) == filled(pieces(cmdline@.take(i as int), sep).drop_last()),
            pieces(cmdline@.take(i as int), sep).last() == cmdline@.subrange(
                start as int,
                i as int,
            ),
        decreases cmdline.len() - i,
    {
        let ghost before = pieces(cmdline@.take(i as int), sep);
        let ghost piece = cmdline@.subrange(start as int, i as int);
        let ghost views_before = byte_views(r@);
        proof {
            lemma_pieces_some(cmdline@.take(i as int), sep);
            assert(cmdline@.take(i + 1).drop_last() =~= cmdline@.take(i as int));
            assert(before.drop_last().push(piece) =~= before);
        }
        if cmdline[i] == 0 {
            proof {
                lemma_filled_push(before.drop_last(), piece);
                assert(pieces(cmdline@.take(i + 1), sep).drop_last() =~= before);
            }
            if start < i {
                r.push(slice_to_vec(slice_subrange(cmdline.as_slice(), start, i)));
                assert(byte_views(r@) =~= views_before.push(piece));
            }
            start = i + 1;
            assert(cmdline@.subrange(start as int, i + 1) =~= Seq::<u8>::empty());
        } else {
            proof {
                assert(cmdline@.subrange(start as int, i + 1) =~= piece.push(cmdline@[i as int]));
                assert(pieces(cmdline@.take(i + 1), sep).drop_last() =~= before.drop_last());
            }
        }
        i = i + 1;
    }
    let ghost before = pieces(cmdline@, sep);
    let ghost piece = cmdline@.subrange(start as int, i as int);
    let ghost views_before = byte_views(r@);
    proof {
        assert(cmdline@.take(i as int) =~= cmdline@);
        lemma_pieces_some(cmdline@, sep);
        assert(before.drop_last().push(piece) =~= before);
        lemma_filled_push(before.drop_last(), piece);
    }
    if start < i {
        r.push(slice_to_vec(slice_subrange(cmdline.as_slice(), start, i)));
        assert(byte_views(r@) =~= views_before.push(piece));
    }
    r
}

/// The command line in words: its arguments with a space between every two. `None` where that
/// comes to nothing.
pub fn command_text(args: &Vec<String>) -> (r: Option<String>)
    ensures
        match r {
            Some(t) => t@ == joined(views(args@), " "@) && t@.len() > 0,
            None => joined(views(args@), " "@).len() == 0,
        },
{
    let text = join(args, " ");
    if text.as_str().is_empty() {
        None
    } else {
        Some(text)
    }
}

/// A process by its short name, which stands in square brackets.
pub open spec fn bracketed(comm: Seq<char>) -> Seq<char> {
    "["@ + trimmed(comm) + "]"@
}

/// The reading of bytes with replacement characters for what is no UTF-8.
pub open spec fn lossy() -> spec_fn(Seq<u8>) -> Seq<char> {
    |b: Seq<u8>| lossy_text(b)
}

/// The reading of bytes that are UTF-8.
pub open spec fn strict() -> spec_fn(Seq<u8>) -> Seq<char> {
    |b: Seq<u8>| decode_utf8(b)
}

/// Whether every argument in a command line is UTF-8.
pub open spec fn is_text(cmdline: Option<Seq<u8>>) -> bool {
    cmdline matches Some(b) ==> forall|i: int|
        0 <= i < args_of(b).len() ==> valid_utf8(#[trigger] args_of(b)[i])
}

/// The bytes of an optional byte string.
pub open spec fn opt_bytes(b: Option<Vec<u8>>) -> Option<Seq<u8>> {
    match b {
        Some(b) => Some(b@),
        None => None,
    }
}

/// What a process was started as: its command line in words, each as `read` reads it, or its short
/// name where the command line is empty or could not be read.
pub open spec fn command_of(
    cmdline: Option<Seq<u8>>,
    comm: Option<Seq<char>>,
    read: spec_fn(Seq<u8>) -> Seq<char>,
) -> Option<Seq<char>> {
    let text = match cmdline {
        Some(b) => joined(args_of(b).map_values(read), " "@),
        None => Seq::<char>::empty(),
    };
    if text.len() > 0 {
        Some(text)
    } else {
        match comm {
            Some(c) => Some(bracketed(c)),
            None => None,
        }
    }
}

fn lossy_args(args: &Vec<Vec<u8>>) -> (r: Vec<String>)
    ensures
        views(r@) == byte_views(args@).map_values(lossy()),
        forall|i: int|
            0 <= i < args@.len() && valid_utf8(#[trigger] args@[i]@) ==> lossy_text(args@[i]@)
                == decode_utf8(args@[i]@),
{
    let ghost expected = byte_views(args@).map_values(lossy());
    let mut r: Vec<String> = Vec::new();
    let mut i: usize = 0;
    while i < args.len()
        invariant
            i <= args.len(),
            expected == byte_views(args@).map_values(lossy()),
            r@.len() == i,
            forall|j: int| 0 <= j < i ==> r@[j]@ == expected[j],
            forall|j: int|
                0 <= j < i && valid_utf8(#[trigger] args@[j]@) ==> lossy_text(args@[j]@)
                    == decode_utf8(args@[j]@),
        decreases args.len() - i,
    {
        r.push(from_utf8_lossy(&args[i]));
        i = i + 1;
    }
    assert(views(r@) =~= expected);
    r
}

/// What a process was started as. Arguments that are UTF-8 give the text that they encode.
pub fn command(cmdline: &Option<Vec<u8>>, comm: &Option<String>) -> (r: Option<String>)
    ensures
        opt_chars(r) == command_of(opt_bytes(*cmdline), opt_chars(*comm), lossy()),
        is_text(opt_bytes(*cmdline)) ==> opt_chars(r) == command_of(
            opt_bytes(*cmdline),
            opt_chars(*comm),
            strict(),
        ),
{
    if let Some(bytes) = cmdline {
        let args = command_args(bytes);
        let text = command_text(&lossy_args(&args));
        proof {
            let all = args_of(bytes@);
            assert(all == byte_views(args@));
            if is_text(opt_bytes(*cmdline)) {
                assert forall|i: int| 0 <= i < all.len() implies lossy_text(#[trigger] all[i])
                    == decode_utf8(all[i]) by {
                    assert(all[i] == args@[i]@);
                }
                assert(all.map_values(lossy()) =~= all.map_values(strict()));
            }
        }
        if text.is_some() {
            return text;
        }
    }
    match comm {
        Some(c) => {
            let mut text = "[".to_owned();
            text.append(trim(c.as_str()).as_str());
            text.append("]");
            Some(text)
        },
        None => None,
    }
}

/// What follows the prefix `p` in the first of the lines that has it.
pub open spec fn first_after(lines: Seq<Seq<char>>, p: Seq<char>) -> Option<Seq<char>>
    decreases lines.len(),
{
    if lines.len() == 0 {
        None
    } else if has_prefix(lines[0], p) {
        Some(lines[0].skip(p.len() as int))
    } else {
        first_after(lines.skip(1), p)
    }
}

/// The parent that the status text of a process tells.
pub open spec fn parent_of(status: Seq<char>) -> Option<i32> {
    match first_after(lines_of(status), "PPid:"@) {
        Some(rest) => i32_of(trimmed(rest)),
        None => None,
    }
}

/// The parent that the status text of a process tells.
pub fn parent(status: &str) -> (r: Option<i32>)
    ensures
        r == parent_of(status@),
{
    let all = lines(status);
    let ghost texts = views(all@);
    let mut i: usize = 0;
    assert(texts.skip(0) =~= texts);
    while i < all.len()
        invariant
            i <= all.len(),
            texts == views(all@),
            texts == lines_of(status@),
            first_after(texts, "PPid:"@) == first_after(texts.skip(i as int), "PPid:"@),
        decreases all.len() - i,
    {
        assert(texts.skip(i as int)[0] == all@[i as int]@);
        assert(texts.skip(i as int).skip(1) =~= texts.skip(i + 1));
        if let Some(rest) = strip_prefix(all[i].as_str(), "PPid:") {
            return parse_i32(trim(rest.as_str()).as_str());
        }
        i = i + 1;
    }
    None
}

/// A process in the namespace.
#[derive(Debug)]
pub struct NsProcess {
    pub pid: i32,
    pub ppid: i32,
    pub user: String,
    pub cmd: String,
}

/// A process, with its texts as sequences.
pub struct NsProcessView {
    pub pid: i32,
    pub ppid: i32,
    pub user: Seq<char>,
    pub cmd: Seq<char>,
}

impl View for NsProcess {
    type V = NsProcessView;

    open spec fn view(&self) -> NsProcessView {
        NsProcessView { pid: self.pid, ppid: self.ppid, user: self.user@, cmd: self.cmd@ }
    }
}

/// The views of a list of processes.
pub open spec fn process_views(v: Seq<NsProcess>) -> Seq<NsProcessView> {
    Seq::new(v.len(), |i: int| v[i]@)
}

/// What the host tells of a process. A part that could not be read is `None`.
#[derive(Debug)]
pub struct ProcessFacts {
    pub pid: i32,
    /// The user that it runs as.
    pub uid: Option<u32>,
    /// The name of that user.
    pub user: Option<String>,
    /// Its status text.
    pub status: Option<String>,
    /// Its command line.
    pub cmdline: Option<Vec<u8>>,
    /// Its short name.
    pub comm: Option<String>,
}

impl ProcessFacts {
    /// The process that the facts tell of, where `read` reads its arguments. A user without a name
    /// goes by its number. There is no process where its user, its parent or what it was started as
    /// cannot be told: it has ended.
    pub open spec fn process_of(self, read: spec_fn(Seq<u8>) -> Seq<char>) -> Option<NsProcessView> {
        let ppid = match self.status {
            Some(s) => parent_of(s@),
            None => None,
        };
        let cmd = command_of(opt_bytes(self.cmdline), opt_chars(self.comm), read);
        if self.uid is Some && ppid is Some && cmd is Some {
            Some(
                NsProcessView {
                    pid: self.pid,
                    ppid: ppid->Some_0,
                    user: match self.user {
                        Some(name) => name@,
                        None => decimal_of(self.uid->Some_0 as nat),
                    },
                    cmd: cmd->Some_0,
                },
            )
        } else {
            None
        }
    }

    /// The process that the facts tell of. Arguments that are UTF-8 give the text that they encode.
    pub fn process(&self) -> (r: Option<NsProcess>)
        ensures
            match (r, self.process_of(lossy())) {
                (Some(p), Some(q)) => p@ == q,
                (None, None) => true,
                _ => false,
            },
            is_text(opt_bytes(self.cmdline)) ==> self.process_of(lossy()) == self.process_of(
                strict(),
            ),
    {
        let cmd = command(&self.cmdline, &self.comm);
        let uid = match self.uid {
            Some(uid) => uid,
            None => {
                return None;
            },
        };
        let user = match &self.user {
            Some(name) => name.clone(),
            None => decimal(uid as u64),
        };
        let ppid = match &self.status {
            Some(status) => parent(status.as_str()),
            None => None,
        };
        match (ppid, cmd) {
            (Some(ppid), Some(cmd)) => Some(NsProcess { pid: self.pid, ppid, user, cmd }),
            _ => None,
        }
    }
}

/// The processes that the facts tell of, in order, where `read` reads their arguments.
pub open spec fn processes_of(
    facts: Seq<ProcessFacts>,
    read: spec_fn(Seq<u8>) -> Seq<char>,
) -> Seq<NsProcessView>
    decreases facts.len(),
{
    if facts.len() == 0 {
        Seq::empty()
    } else {
        let before = processes_of(facts.drop_last(), read);
        match facts.last().process_of(read) {
            Some(p) => before.push(p),
            None => before,
        }
    }
}

/// The processes with the number `pid`, in order.
pub open spec fn with_pid(s: Seq<NsProcessView>, pid: i32) -> Seq<NsProcessView> {
    s.filter(|p: NsProcessView| p.pid == pid)
}

/// Whether `sorted` holds the processes of `s`, all of them and no others, by rising numbers, and
/// those of one number in the order in which `s` has them.
pub open spec fn is_sorted_of(sorted: Seq<NsProcessView>, s: Seq<NsProcessView>) -> bool {
    &&& sorted.len() == s.len()
    &&& sorted.to_multiset() == s.to_multiset()
    &&& forall|i: int, j: int| 0 <= i <= j < sorted.len() ==> sorted[i].pid <= sorted[j].pid
    &&& forall|pid: i32| #[trigger] with_pid(sorted, pid) == with_pid(s, pid)
}

proof fn lemma_with_pid_push(s: Seq<NsProcessView>, p: NsProcessView, pid: i32)
    ensures
        with_pid(s.push(p), pid) == if p.pid == pid {
            with_pid(s, pid).push(p)
        } else {
            with_pid(s, pid)
        },
{
    reveal(Seq::filter);
    assert(s.push(p).drop_last() =~= s);
}

proof fn lemma_with_pid_none(s: Seq<NsProcessView>, pid: i32)
    requires
        forall|i: int| 0 <= i < s.len() ==> (#[trigger] s[i]).pid != pid,
    ensures
        with_pid(s, pid) == Seq::<NsProcessView>::empty(),
    decreases s.len(),
{
    reveal(Seq::filter);
    if s.len() > 0 {
        lemma_with_pid_none(s.drop_last(), pid);
        assert(s[s.len() - 1].pid != pid);
    }
}

/// Inserting a process in front of those with a greater number, and of no others, keeps the order.
proof fn lemma_insert_sorted(
    sorted: Seq<NsProcessView>,
    s: Seq<NsProcessView>,
    p: NsProcessView,
    at: int,
)
    requires
        is_sorted_of(sorted, s),
        0 <= at <= sorted.len(),
        forall|i: int| 0 <= i < at ==> (#[trigger] sorted[i]).pid <= p.pid,
        forall|i: int| at <= i < sorted.len() ==> (#[trigger] sorted[i]).pid > p.pid,
    ensures
        is_sorted_of(sorted.insert(at, p), s.push(p)),
{
    let new = sorted.insert(at, p);
    let a = sorted.take(at);
    let b = sorted.skip(at);
    broadcast use vstd::seq_lib::group_to_multiset_ensures;

    assert(new.to_multiset() =~= sorted.to_multiset().insert(p));
    assert(s.push(p).to_multiset() =~= s.to_multiset().insert(p));
    assert(sorted =~= a + b);
    assert(new =~= a.push(p) + b);
    assert forall|i: int, j: int| 0 <= i <= j < new.len() implies new[i].pid <= new[j].pid by {
        if i < at && j == at {
            assert(new[i] == sorted[i]);
        } else if i == at && j > at {
            assert(new[j] == sorted[j - 1]);
        } else if i < at && j > at {
            assert(new[i] == sorted[i] && new[j] == sorted[j - 1]);
        } else if j < at {
            assert(new[i] == sorted[i] && new[j] == sorted[j]);
        } else if i > at {
            assert(new[i] == sorted[i - 1] && new[j] == sorted[j - 1]);
        }
    }
    assert forall|pid: i32| #[trigger] with_pid(new, pid) == with_pid(s.push(p), pid) by {
        let f = |q: NsProcessView| q.pid == pid;
        Seq::filter_distributes_over_add(a, b, f);
        Seq::filter_distributes_over_add(a.push(p), b, f);
        lemma_with_pid_push(a, p, pid);
        lemma_with_pid_push(s, p, pid);
        assert(with_pid(sorted, pid) == with_pid(s, pid));
        if pid == p.pid {
            assert forall|i: int| 0 <= i < b.len() implies (#[trigger] b[i]).pid != pid by {
                assert(b[i] == sorted[i + at]);
            }
            lemma_with_pid_none(b, pid);
            assert(with_pid(a, pid) + Seq::<NsProcessView>::empty() =~= with_pid(a, pid));
            assert(with_pid(a, pid).push(p) + Seq::<NsProcessView>::empty() =~= with_pid(
                a,
                pid,
            ).push(p));
        }
    }
}

/// Whether every argument of every process is UTF-8.
pub open spec fn are_text(facts: Seq<ProcessFacts>) -> bool {
    forall|i: int| 0 <= i < facts.len() ==> is_text(opt_bytes((#[trigger] facts[i]).cmdline))
}

proof fn lemma_same_reading(facts: Seq<ProcessFacts>)
    requires
        forall|i: int|
            0 <= i < facts.len() ==> (#[trigger] facts[i]).process_of(lossy())
                == facts[i].process_of(strict()),
    ensures
        processes_of(facts, lossy()) == processes_of(facts, strict()),
    decreases facts.len(),
{
    if facts.len() > 0 {
        let rest = facts.drop_last();
        assert forall|i: int| 0 <= i < rest.len() implies (#[trigger] rest[i]).process_of(lossy())
            == rest[i].process_of(strict()) by {
            assert(rest[i] == facts[i]);
        }
        lemma_same_reading(rest);
        assert(facts.last() == facts[facts.len() - 1]);
    }
}

/// The processes in the namespace, by rising numbers. Arguments that are UTF-8 give the text that
/// they encode.
pub fn processes(facts: &Vec<ProcessFacts>) -> (r: Vec<NsProcess>)
    ensures
        is_sorted_of(process_views(r@), processes_of(facts@, lossy())),
        are_text(facts@) ==> is_sorted_of(process_views(r@), processes_of(facts@, strict())),
{
    let mut r: Vec<NsProcess> = Vec::new();
    let mut i: usize = 0;
    assert(process_views(r@) =~= processes_of(facts@.take(0), lossy()));
    while i < facts.len()
        invariant
            i <= facts.len(),
            is_sorted_of(process_views(r@), processes_of(facts@.take(i as int), lossy())),
            forall|j: int|
                0 <= j < i && is_text(opt_bytes((#[trigger] facts@[j]).cmdline)) ==> facts@[j].process_of(
                    lossy(),
                ) == facts@[j].process_of(strict()),
        decreases facts.len() - i,
    {
        let ghost s = processes_of(facts@.take(i as int), lossy());
        proof {
            assert(facts@.take(i + 1).drop_last() =~= facts@.take(i as int));
            assert(facts@.take(i + 1).last() == facts@[i as int]);
        }
        if let Some(p) = facts[i].process() {
            let mut at: usize = r.len();
            let ghost sorted = process_views(r@);
            while at > 0 && r[at - 1].pid > p.pid
                invariant
                    at <= r.len(),
                    sorted == process_views(r@),
                    forall|j: int| at <= j < sorted.len() ==> (#[trigger] sorted[j]).pid > p.pid,
                decreases at,
            {
                at = at - 1;
            }
            proof {
                assert forall|j: int| 0 <= j < at implies (#[trigger] sorted[j]).pid <= p.pid by {
                    assert(sorted[at - 1].pid <= p.pid);
                    assert(sorted[j].pid <= sorted[at - 1].pid);
                }
                lemma_insert_sorted(sorted, s, p@, at as int);
            }
            let ghost view = p@;
            r.insert(at, p);
            assert(process_views(r@) =~= sorted.insert(at as int, view));
        }
        i = i + 1;
    }
    proof {
        assert(facts@.take(i as int) =~= facts@);
        if are_text(facts@) {
            lemma_same_reading(facts@);
        }
    }
    r
}

/// Each name stands by itself: what two lists of names stand for together is what each stands for. A
/// name stands for the process whose number it is, unless that is the one that looks.
pub proof fn law_other_pids(a: Seq<Seq<char>>, b: Seq<Seq<char>>, name: Seq<char>, me: i32)
    ensures
        other_pids(a + b, me) == other_pids(a, me) + other_pids(b, me),
        i32_of(name) matches Some(pid) ==> pid != me ==> other_pids(seq![name], me) == seq![pid],
        i32_of(name) is None || i32_of(name) == Some(me) ==> other_pids(seq![name], me) == Seq::<
            i32,
        >::empty(),
    decreases b.len(),
{
    reveal_with_fuel(other_pids, 2);
    assert(seq![name].drop_last() =~= Seq::<Seq<char>>::empty());
    if let Some(pid) = i32_of(name) {
        if pid != me {
            assert(other_pids(seq![name], me) =~= seq![pid]);
        }
    }
    if b.len() == 0 {
        assert(a + b =~= a);
        assert(other_pids(a, me) + other_pids(b, me) =~= other_pids(a, me));
    } else {
        assert((a + b).drop_last() =~= a + b.drop_last());
        assert((a + b).last() == b.last());
        law_other_pids(a, b.drop_last(), name, me);
        assert(other_pids(a + b, me) =~= other_pids(a, me) + other_pids(b, me));
    }
}

/// A process is found by its own number in decimal, whatever else is there, unless it is the one that
/// looks.
pub proof fn law_pid_is_found(a: Seq<Seq<char>>, b: Seq<Seq<char>>, pid: i32, me: i32)
    requires
        pid != me,
    ensures
        other_pids(a.push(decimal_of_int(pid as int)) + b, me) == other_pids(a, me).push(pid)
            + other_pids(b, me),
        !other_pids(a, me).contains(me),
    decreases a.len(),
{
    let name = decimal_of_int(pid as int);
    law_decimal_read_back_i32(pid);
    law_other_pids(a, seq![name], name, me);
    law_other_pids(a.push(name), b, name, me);
    assert(a.push(name) =~= a + seq![name]);
    assert(other_pids(a, me) + seq![pid] =~= other_pids(a, me).push(pid));
    if a.len() > 0 {
        law_pid_is_found(a.drop_last(), b, pid, me);
        let before = other_pids(a.drop_last(), me);
        if other_pids(a, me).contains(me) {
            let i = choose|i: int| 0 <= i < other_pids(a, me).len() && other_pids(a, me)[i] == me;
            if i < before.len() {
                assert(before[i] == me);
                assert(before.contains(me));
            }
        }
    }
}

/// Each process is looked at by itself: it is inside exactly where it was found in the very file that
/// stands for the namespace, device and number both.
pub proof fn law_pids_inside(
    a: Seq<(i32, Option<FileId>)>,
    b: Seq<(i32, Option<FileId>)>,
    one: (i32, Option<FileId>),
    t: FileId,
)
    ensures
        pids_inside(a + b, t) == pids_inside(a, t) + pids_inside(b, t),
        (one.1 matches Some(id) && id.dev == t.dev && id.ino == t.ino) ==> pids_inside(seq![one], t)
            == seq![one.0],
        !(one.1 matches Some(id) && id.dev == t.dev && id.ino == t.ino) ==> pids_inside(
            seq![one],
            t,
        ) == Seq::<i32>::empty(),
{
    let inside = |c: (i32, Option<FileId>)| c.1 == Some(t);
    let pid = |c: (i32, Option<FileId>)| c.0;
    Seq::filter_distributes_over_add(a, b, inside);
    assert((a.filter(inside) + b.filter(inside)).map_values(pid) =~= a.filter(inside).map_values(
        pid,
    ) + b.filter(inside).map_values(pid));
    reveal(Seq::filter);
    assert(seq![one].drop_last() =~= Seq::<(i32, Option<FileId>)>::empty());
    assert(seq![one].drop_last().filter(inside) =~= Seq::<(i32, Option<FileId>)>::empty());
    if one.1 == Some(t) {
        assert(seq![one].filter(inside) =~= seq![one]);
        assert(pids_inside(seq![one], t) =~= seq![one.0]);
    } else {
        assert(pids_inside(seq![one], t) =~= Seq::<i32>::empty());
    }
}

/// Arguments, each with a zero byte behind it.
pub open spec fn terminated(args: Seq<Seq<u8>>) -> Seq<u8>
    decreases args.len(),
{
    if args.len() == 0 {
        Seq::empty()
    } else {
        args[0].push(0u8) + terminated(args.skip(1))
    }
}

/// A command line gives back the arguments that it was made of, where none is empty and none holds a
/// zero byte, with a zero byte behind the last or without.
pub proof fn law_arguments_read_back(args: Seq<Seq<u8>>, last: Seq<u8>)
    requires
        forall|i: int| 0 <= i < args.len() ==> (#[trigger] args[i]).len() > 0 && !args[i].contains(0u8),
        !last.contains(0u8),
    ensures
        args_of(terminated(args)) == args,
        last.len() > 0 ==> args_of(terminated(args) + last) == args.push(last),
    decreases args.len(),
{
    let sep = |b: u8| b == 0;
    reveal(Seq::filter);
    assert forall|i: int| 0 <= i < last.len() implies !sep(#[trigger] last[i]) by {
        assert(last.contains(last[i]));
    }
    lemma_pieces_one(last, sep);
    if args.len() == 0 {
        assert(terminated(args) =~= Seq::<u8>::empty());
        assert(terminated(args) + last =~= last);
        let none = Seq::<Seq<u8>>::empty();
        lemma_filled_push(none, Seq::<u8>::empty());
        assert(none.push(Seq::<u8>::empty()) =~= seq![Seq::<u8>::empty()]);
        assert(filled(none) =~= none);
        assert(args =~= Seq::<Seq<u8>>::empty());
        assert(seq![last].drop_last() =~= Seq::<Seq<u8>>::empty());
        assert(last.len() > 0 ==> filled(seq![last]) =~= args.push(last));
    } else {
        let first = args[0];
        let rest = args.skip(1);
        assert forall|i: int| 0 <= i < rest.len() implies (#[trigger] rest[i]).len() > 0
            && !rest[i].contains(0u8) by {
            assert(rest[i] == args[i + 1]);
        }
        law_arguments_read_back(rest, last);
        assert forall|i: int| 0 <= i < first.len() implies !sep(#[trigger] first[i]) by {
            assert(args[0].contains(first[i]));
        }
        lemma_pieces_one(first, sep);
        lemma_pieces_join(first, 0u8, terminated(rest), sep);
        lemma_pieces_join(first, 0u8, terminated(rest) + last, sep);
        assert(first.push(0u8) + (terminated(rest) + last) =~= terminated(args) + last);
        let keep = |p: Seq<u8>| p.len() > 0;
        Seq::filter_distributes_over_add(seq![first], pieces(terminated(rest), sep), keep);
        Seq::filter_distributes_over_add(seq![first], pieces(terminated(rest) + last, sep), keep);
        assert(seq![first].drop_last() =~= Seq::<Seq<u8>>::empty());
        assert(filled(seq![first]) =~= seq![first]);
        assert(seq![first] + rest =~= args);
        assert(seq![first] + rest.push(last) =~= args.push(last));
    }
}

/// A process goes by its command line wherever that comes to some text, with a short name or without.
/// It goes by its short name, in square brackets, exactly where there is no such text and it has one.
pub proof fn law_command(
    cmdline: Option<Seq<u8>>,
    comm: Option<Seq<char>>,
    read: spec_fn(Seq<u8>) -> Seq<char>,
)
    ensures
        ({
            let text = match cmdline {
                Some(b) => joined(args_of(b).map_values(read), " "@),
                None => Seq::empty(),
            };
            &&& text.len() > 0 ==> command_of(cmdline, comm, read) == Some(text)
            &&& text.len() == 0 && comm is None ==> command_of(cmdline, comm, read) is None
            &&& text.len() == 0 ==> (comm matches Some(c) ==> command_of(cmdline, comm, read) == Some(
                seq!['['] + trimmed(c) + seq![']'],
            ))
        }),
{
    reveal_strlit("[");
    reveal_strlit("]");
    assert("["@ =~= seq!['[']);
    assert("]"@ =~= seq![']']);
}

/// A process that was started with some arguments, all of them text, goes by those arguments with a
/// space between every two, whatever its short name is.
pub proof fn law_command_of_arguments(args: Seq<Seq<u8>>, comm: Option<Seq<char>>)
    requires
        args.len() > 0,
        forall|i: int| 0 <= i < args.len() ==> (#[trigger] args[i]).len() > 0 && !args[i].contains(0u8),
        joined(args.map_values(strict()), " "@).len() > 0,
    ensures
        command_of(Some(terminated(args)), comm, strict()) == Some(
            joined(args.map_values(strict()), " "@),
        ),
{
    law_arguments_read_back(args, Seq::empty());
}

/// The parent of a process is the number in the first line of its status text that begins with `PPid:`,
/// without the white space around it. It cannot be told where no line begins so.
pub proof fn law_parent(status: Seq<char>, k: int)
    ensures
        0 <= k < lines_of(status).len() && has_prefix(lines_of(status)[k], "PPid:"@) && (forall|j: int|
            0 <= j < k ==> !has_prefix(#[trigger] lines_of(status)[j], "PPid:"@)) ==> parent_of(status)
            == i32_of(trimmed(lines_of(status)[k].skip(5))),
        (forall|j: int|
            0 <= j < lines_of(status).len() ==> !has_prefix(#[trigger] lines_of(status)[j], "PPid:"@))
            ==> parent_of(status) is None,
{
    reveal_strlit("PPid:");
    lemma_first_after(lines_of(status), "PPid:"@, k);
}

proof fn lemma_first_after(lines: Seq<Seq<char>>, p: Seq<char>, k: int)
    ensures
        0 <= k < lines.len() && has_prefix(lines[k], p) && (forall|j: int|
            0 <= j < k ==> !has_prefix(#[trigger] lines[j], p)) ==> first_after(lines, p) == Some(
            lines[k].skip(p.len() as int),
        ),
        (forall|j: int| 0 <= j < lines.len() ==> !has_prefix(#[trigger] lines[j], p)) ==> first_after(
            lines,
            p,
        ) is None,
    decreases lines.len(),
{
    if lines.len() > 0 {
        let rest = lines.skip(1);
        lemma_first_after(rest, p, k - 1);
        assert forall|j: int| 0 <= j < rest.len() implies rest[j] == lines[j + 1] by {}
        if !has_prefix(lines[0], p) {
            if 0 < k < lines.len() && has_prefix(lines[k], p) && (forall|j: int|
                0 <= j < k ==> !has_prefix(#[trigger] lines[j], p)) {
                assert forall|j: int| 0 <= j < k - 1 implies !has_prefix(#[trigger] rest[j], p) by {
                    assert(!has_prefix(lines[j + 1], p));
                }
                assert(rest[k - 1] == lines[k]);
            }
            if forall|j: int| 0 <= j < lines.len() ==> !has_prefix(#[trigger] lines[j], p) {
                assert forall|j: int| 0 <= j < rest.len() implies !has_prefix(#[trigger] rest[j], p)
                    by {
                    assert(!has_prefix(lines[j + 1], p));
                }
            }
        }
    }
}

/// There is a process exactly where its user, its parent and what it was started as can be told. It has
/// the number that it was asked about, that parent and that command, and goes by its user's name, or by
/// its user's number where that has no name.
pub proof fn law_process(f: ProcessFacts, read: spec_fn(Seq<u8>) -> Seq<char>)
    ensures
        ({
            let cmd = command_of(opt_bytes(f.cmdline), opt_chars(f.comm), read);
            &&& f.process_of(read) is Some <==> f.uid is Some && (f.status matches Some(s) && parent_of(
                s@,
            ) is Some) && cmd is Some
            &&& f.process_of(read) matches Some(p) ==> {
                &&& p.pid == f.pid
                &&& Some(p.ppid) == parent_of(f.status->Some_0@)
                &&& Some(p.cmd) == cmd
                &&& f.user matches Some(name) ==> p.user == name@
                &&& f.user is None ==> p.user == decimal_of(f.uid->Some_0 as nat)
            }
        }),
{
}

/// Each process is told by itself: what two lists of facts tell together is what each tells.
pub proof fn law_processes(
    a: Seq<ProcessFacts>,
    b: Seq<ProcessFacts>,
    one: ProcessFacts,
    read: spec_fn(Seq<u8>) -> Seq<char>,
)
    ensures
        processes_of(a + b, read) == processes_of(a, read) + processes_of(b, read),
        processes_of(seq![one], read) == match one.process_of(read) {
            Some(p) => seq![p],
            None => Seq::empty(),
        },
    decreases b.len(),
{
    reveal_with_fuel(processes_of, 2);
    assert(seq![one].drop_last() =~= Seq::<ProcessFacts>::empty());
    if let Some(p) = one.process_of(read) {
        assert(processes_of(seq![one], read) =~= seq![p]);
    }
    if b.len() == 0 {
        assert(a + b =~= a);
        assert(processes_of(a, read) + processes_of(b, read) =~= processes_of(a, read));
    } else {
        assert((a + b).drop_last() =~= a + b.drop_last());
        assert((a + b).last() == b.last());
        law_processes(a, b.drop_last(), one, read);
        assert(processes_of(a + b, read) =~= processes_of(a, read) + processes_of(b, read));
    }
}

/// The list of processes is by rising numbers, holds every process as often as it was told and no
/// other, and keeps the order of those that share a number.
pub proof fn law_sorted(sorted: Seq<NsProcessView>, s: Seq<NsProcessView>, i: int, j: int, p: NsProcessView)
    requires
        is_sorted_of(sorted, s),
    ensures
        0 <= i <= j < sorted.len() ==> sorted[i].pid <= sorted[j].pid,
        sorted.to_multiset().count(p) == s.to_multiset().count(p),
        sorted.filter(|q: NsProcessView| q.pid == p.pid) == s.filter(
            |q: NsProcessView| q.pid == p.pid,
        ),
{
    assert(with_pid(sorted, p.pid) == with_pid(s, p.pid));
}

/// The arguments before a zero byte and those behind it are told apart from each other, whatever they
/// are. Bytes without a zero byte are one argument, or none where there are none.
pub proof fn law_arguments(a: Seq<u8>, b: Seq<u8>, p: Seq<u8>)
    requires
        !p.contains(0u8),
    ensures
        args_of(a + seq![0u8] + b) == args_of(a) + args_of(b),
        p.len() > 0 ==> args_of(p) == seq![p],
        p.len() == 0 ==> args_of(p) == Seq::<Seq<u8>>::empty(),
{
    let sep = |b: u8| b == 0;
    lemma_pieces_join(a, 0u8, b, sep);
    assert(a.push(0u8) + b =~= a + seq![0u8] + b);
    law_filled(pieces(a, sep), pieces(b, sep), p);
    assert forall|i: int| 0 <= i < p.len() implies !sep(#[trigger] p[i]) by {
        assert(p.contains(p[i]));
    }
    lemma_pieces_one(p, sep);
}

/// What is shown of a process is all that it holds: two that are shown alike have the same numbers, user
/// and command.
pub proof fn law_process_view(a: NsProcess, b: NsProcess)
    requires
        a@ == b@,
    ensures
        a.pid == b.pid,
        a.ppid == b.ppid,
        a.user@ == b.user@,
        a.cmd@ == b.cmd@,
        a@.pid == a.pid && a@.ppid == a.ppid && a@.user == a.user@ && a@.cmd == a.cmd@,
{
}

} // verus!
