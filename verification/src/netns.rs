//! Network namespaces as files: where they are, how they come and how they go.

use vstd::prelude::*;
use crate::path::{join_path, joined_path, path_eq, same_path};
use crate::plan::{all_succeed, law_complete, run, Progress};
use crate::text::{
    fields, fields_of, has_prefix, joined, law_fields, law_lines, lines, lines_of, opt_chars, starts_with,
    views,
};

verus! {

/// The directory whose files stand for network namespaces.
pub const NETNS_DIR: &'static str = "/var/run/netns";

/// The file that stands for the network namespace of the process that looks at it.
pub const OWN_NETNS: &'static str = "/proc/self/ns/net";

/// The directory for what commands in a namespace see in place of the host's files.
pub const NETNS_ETC: &'static str = "/etc/netns";

/// The name server file's name.
pub const RESOLV_CONF: &'static str = "resolv.conf";

/// The host's name server file.
pub const HOST_RESOLV_CONF: &'static str = "/etc/resolv.conf";

/// The path of the namespace `name`.
pub open spec fn ns_path_of(name: Seq<char>) -> Seq<char> {
    joined_path(NETNS_DIR@, name)
}

/// The path of the namespace `name`.
pub fn ns_path(name: &str) -> (r: String)
    ensures
        r@ == ns_path_of(name@),
{
    join_path(NETNS_DIR, name)
}

/// The character that a text begins with as the mount table writes it: a space, a tab, a line feed
/// and a backslash stand there as a backslash and three octal digits.
pub open spec fn escape_of(s: Seq<char>) -> Option<char> {
    if has_prefix(s, "\\040"@) {
        Some(' ')
    } else if has_prefix(s, "\\011"@) {
        Some('\t')
    } else if has_prefix(s, "\\012"@) {
        Some('\n')
    } else if has_prefix(s, "\\134"@) {
        Some('\\')
    } else {
        None
    }
}

/// The text that a field of the mount table stands for.
pub open spec fn unescaped(s: Seq<char>) -> Seq<char>
    decreases s.len(),
{
    if s.len() == 0 {
        Seq::empty()
    } else {
        match escape_of(s) {
            Some(c) => if s.len() >= 4 {
                seq![c] + unescaped(s.skip(4))
            } else {
                s
            },
            None => seq![s[0]] + unescaped(s.skip(1)),
        }
    }
}

/// A character as the mount table writes it.
pub open spec fn escaped_char(c: char) -> Seq<char> {
    if c == ' ' {
        "\\040"@
    } else if c == '\t' {
        "\\011"@
    } else if c == '\n' {
        "\\012"@
    } else if c == '\\' {
        "\\134"@
    } else {
        seq![c]
    }
}

/// A text as the mount table writes it.
pub open spec fn escaped(s: Seq<char>) -> Seq<char>
    decreases s.len(),
{
    if s.len() == 0 {
        Seq::empty()
    } else {
        escaped_char(s[0]) + escaped(s.skip(1))
    }
}

/// The fields of a line of the mount table. Only a plain space stands between them: any other white
/// space belongs to a field.
pub open spec fn mount_fields(line: Seq<char>) -> Seq<Seq<char>> {
    fields_of(line, ' ')
}

/// Whether a line of the mount table tells of a mount at `path`: its fifth field stands for that
/// path.
pub open spec fn mounts_at(line: Seq<char>, path: Seq<char>) -> bool {
    mount_fields(line).len() > 4 && same_path(unescaped(mount_fields(line)[4]), path)
}

/// Whether some line of the mount table tells of a mount at `path`.
pub open spec fn is_mounted(table: Seq<char>, path: Seq<char>) -> bool {
    exists|i: int| 0 <= i < lines_of(table).len() && mounts_at(#[trigger] lines_of(table)[i], path)
}

fn escape(s: &str) -> (r: Option<String>)
    ensures
        match (r, escape_of(s@)) {
            (Some(t), Some(c)) => t@ == seq![c] && s@.len() >= 4,
            (None, None) => true,
            _ => false,
        },
{
    proof {
        reveal_strlit("\\040");
        reveal_strlit("\\011");
        reveal_strlit("\\012");
        reveal_strlit("\\134");
        reveal_strlit(" ");
        reveal_strlit("\t");
        reveal_strlit("\n");
        reveal_strlit("\\");
        assert(" "@ =~= seq![' ']);
        assert("\t"@ =~= seq!['\t']);
        assert("\n"@ =~= seq!['\n']);
        assert("\\"@ =~= seq!['\\']);
    }
    if starts_with(s, "\\040") {
        Some(" ".to_owned())
    } else if starts_with(s, "\\011") {
        Some("\t".to_owned())
    } else if starts_with(s, "\\012") {
        Some("\n".to_owned())
    } else if starts_with(s, "\\134") {
        Some("\\".to_owned())
    } else {
        None
    }
}

/// The text that a field of the mount table stands for.
pub fn unescape(s: &str) -> (r: String)
    ensures
        r@ == unescaped(s@),
{
    let n = s.unicode_len();
    let mut r = String::new();
    let mut i: usize = 0;
    assert(s@.skip(0) =~= s@);
    assert(r@ + unescaped(s@.skip(0)) =~= unescaped(s@));
    while i < n
        invariant
            n == s@.len(),
            i <= n,
            r@ + unescaped(s@.skip(i as int)) == unescaped(s@),
        decreases n - i,
    {
        let ghost before = r@;
        let ghost rest = s@.skip(i as int);
        let tail = s.substring_char(i, n);
        assert(tail@ =~= rest);
        match escape(tail) {
            Some(t) => {
                r.append(t.as_str());
                assert(s@.skip(i + 4) =~= rest.skip(4));
                assert(before + (t@ + unescaped(rest.skip(4))) =~= r@ + unescaped(rest.skip(4)));
                i = i + 4;
            },
            None => {
                let c = s.substring_char(i, i + 1);
                r.append(c);
                assert(c@ =~= seq![rest[0]]);
                assert(s@.skip(i + 1) =~= rest.skip(1));
                assert(before + (c@ + unescaped(rest.skip(1))) =~= r@ + unescaped(rest.skip(1)));
                i = i + 1;
            },
        }
    }
    assert(s@.skip(i as int).len() == 0);
    assert(r@ + unescaped(s@.skip(i as int)) =~= r@);
    r
}

fn line_mounts(line: &str, path: &str) -> (r: bool)
    ensures
        r == mounts_at(line@, path@),
{
    let parts = fields(line, ' ');
    assert(views(parts@).len() == parts@.len());
    if parts.len() > 4 {
        assert(views(parts@)[4] == parts@[4]@);
        path_eq(unescape(parts[4].as_str()).as_str(), path)
    } else {
        false
    }
}

fn table_mounts(table: &str, path: &str) -> (r: bool)
    ensures
        r == is_mounted(table@, path@),
{
    let all = lines(table);
    assert(views(all@).len() == all@.len());
    let mut i: usize = 0;
    while i < all.len()
        invariant
            i <= all.len(),
            views(all@) == lines_of(table@),
            forall|j: int| 0 <= j < i ==> !mounts_at(#[trigger] lines_of(table@)[j], path@),
        decreases all.len() - i,
    {
        assert(lines_of(table@)[i as int] == all@[i as int]@);
        if line_mounts(all[i].as_str(), path) {
            return true;
        }
        i = i + 1;
    }
    false
}

/// Tells whether `path`, in its canonical form, is a mount point by the mount table. It is none
/// where it has no canonical form or there is no table.
pub fn is_mountpoint(path: Option<String>, table: Option<String>) -> (r: bool)
    ensures
        r == is_known_mount(opt_chars(path), opt_chars(table)),
{
    match (path, table) {
        (Some(p), Some(t)) => table_mounts(t.as_str(), p.as_str()),
        _ => false,
    }
}

/// What the mount table writes for a text stands for that text, whatever characters it holds.
pub proof fn law_escapes_read_back(s: Seq<char>)
    ensures
        unescaped(escaped(s)) == s,
    decreases s.len(),
{
    reveal_strlit("\\040");
    reveal_strlit("\\011");
    reveal_strlit("\\012");
    reveal_strlit("\\134");
    if s.len() > 0 {
        let first = escaped_char(s[0]);
        let rest = escaped(s.skip(1));
        let all = escaped(s);
        law_escapes_read_back(s.skip(1));
        assert(all == first + rest);
        if first.len() == 4 {
            assert(all.take(4) =~= first);
            assert(all.skip(4) =~= rest);
            assert(first[0] == '\\');
            assert(first[2] == '4' || first[2] == '1' || first[2] == '3');
            assert(escape_of(all) == Some(s[0])) by {
                if s[0] == '\t' {
                    assert(first[3] == '1' && "\\040"@[2] == '4');
                } else if s[0] == '\n' {
                    assert(first[3] == '2' && "\\040"@[2] == '4' && "\\011"@[3] == '1');
                } else if s[0] == '\\' {
                    assert(first[1] == '1');
                    assert("\\040"@[1] == '0' && "\\011"@[1] == '0' && "\\012"@[1] == '0');
                }
            }
        } else {
            assert(all.skip(1) =~= rest);
            assert(escape_of(all) is None) by {
                if has_prefix(all, "\\040"@) || has_prefix(all, "\\011"@) || has_prefix(
                    all,
                    "\\012"@,
                ) || has_prefix(all, "\\134"@) {
                    assert(all.take(4)[0] == all[0]);
                }
            }
        }
        assert(seq![s[0]] + s.skip(1) =~= s);
    } else {
        assert(s =~= Seq::<char>::empty());
    }
}

/// Every path that the mount table has a mount at is found to be a mount point, whatever characters
/// it holds.
pub proof fn law_mount_points_are_found(table: Seq<char>, i: int, path: Seq<char>)
    requires
        0 <= i < lines_of(table).len(),
        mount_fields(lines_of(table)[i]).len() > 4,
        mount_fields(lines_of(table)[i])[4] == escaped(path),
    ensures
        is_mounted(table, path),
{
    law_escapes_read_back(path);
    assert(mounts_at(lines_of(table)[i], path));
}

/// A step of the process that makes a namespace.
#[derive(Debug, PartialEq, Eq)]
pub enum MakerStep {
    /// Gets a new network namespace.
    UnshareNetwork,
    /// Mounts `source`, which stands for the process's own namespace, onto `target`, so that the
    /// namespace outlives the process.
    Bind { source: String, target: String },
}

/// A step of the process that makes a namespace, with its texts as sequences.
pub enum MakerStepView {
    UnshareNetwork,
    Bind { source: Seq<char>, target: Seq<char> },
}

impl View for MakerStep {
    type V = MakerStepView;

    open spec fn view(&self) -> MakerStepView {
        match self {
            MakerStep::UnshareNetwork => MakerStepView::UnshareNetwork,
            MakerStep::Bind { source, target } => MakerStepView::Bind {
                source: source@,
                target: target@,
            },
        }
    }
}

/// The views of a list of steps.
pub open spec fn maker_views(v: Seq<MakerStep>) -> Seq<MakerStepView> {
    Seq::new(v.len(), |i: int| v[i]@)
}

/// The steps of the process that makes the namespace `name`. Only once it has a namespace of its own
/// does it mount that one.
pub open spec fn maker_steps(name: Seq<char>) -> Seq<MakerStepView> {
    seq![
        MakerStepView::UnshareNetwork,
        MakerStepView::Bind { source: OWN_NETNS@, target: ns_path_of(name) },
    ]
}

fn make_namespace(name: &str) -> (r: Vec<MakerStep>)
    ensures
        maker_views(r@) == maker_steps(name@),
{
    let r = vec![
        MakerStep::UnshareNetwork,
        MakerStep::Bind { source: OWN_NETNS.to_owned(), target: ns_path(name) },
    ];
    assert(maker_views(r@) =~= maker_steps(name@));
    r
}

/// A step in making a namespace.
#[derive(Debug)]
pub enum CreateAction {
    /// Makes a directory, and its parents where they are missing.
    MakeDirs { path: String },
    /// Mounts a directory onto itself.
    BindSelf { path: String },
    /// Keeps mounts below a directory from showing elsewhere.
    MakePrivate { path: String },
    /// Makes an empty file.
    CreateFile { path: String },
    /// Makes the namespace: a process of its own takes these steps in order until one fails, and then
    /// exits.
    MakeNamespace { steps: Vec<MakerStep> },
}

/// A step in making a namespace, with its texts as sequences.
pub enum CreateActionView {
    MakeDirs { path: Seq<char> },
    BindSelf { path: Seq<char> },
    MakePrivate { path: Seq<char> },
    CreateFile { path: Seq<char> },
    MakeNamespace { steps: Seq<MakerStepView> },
}

impl View for CreateAction {
    type V = CreateActionView;

    open spec fn view(&self) -> CreateActionView {
        match self {
            CreateAction::MakeDirs { path } => CreateActionView::MakeDirs { path: path@ },
            CreateAction::BindSelf { path } => CreateActionView::BindSelf { path: path@ },
            CreateAction::MakePrivate { path } => CreateActionView::MakePrivate { path: path@ },
            CreateAction::CreateFile { path } => CreateActionView::CreateFile { path: path@ },
            CreateAction::MakeNamespace { steps } => CreateActionView::MakeNamespace {
                steps: maker_views(steps@),
            },
        }
    }
}

/// A step, and what to say where it fails.
#[derive(Debug)]
pub struct CreateStep {
    pub action: CreateAction,
    pub context: String,
}

/// A step, with its texts as sequences.
pub struct CreateStepView {
    pub action: CreateActionView,
    pub context: Seq<char>,
}

impl View for CreateStep {
    type V = CreateStepView;

    open spec fn view(&self) -> CreateStepView {
        CreateStepView { action: self.action@, context: self.context@ }
    }
}

/// The views of a list of steps.
pub open spec fn create_views(v: Seq<CreateStep>) -> Seq<CreateStepView> {
    Seq::new(v.len(), |i: int| v[i]@)
}

/// The steps that make the directory a private mount of its own.
pub open spec fn mount_steps() -> Seq<CreateStepView> {
    seq![
        CreateStepView {
            action: CreateActionView::BindSelf { path: NETNS_DIR@ },
            context: "bind mount /var/run/netns"@,
        },
        CreateStepView {
            action: CreateActionView::MakePrivate { path: NETNS_DIR@ },
            context: "mark /var/run/netns private"@,
        },
    ]
}

/// The steps that make the namespace `name`. `mounted` tells whether the directory is a mount
/// point already. Then it is not mounted once more.
pub open spec fn create_steps(name: Seq<char>, mounted: bool) -> Seq<CreateStepView> {
    let dir = seq![
        CreateStepView {
            action: CreateActionView::MakeDirs { path: NETNS_DIR@ },
            context: "mkdir /var/run/netns"@,
        },
    ];
    let mount = if mounted {
        Seq::empty()
    } else {
        mount_steps()
    };
    dir + mount + seq![
        CreateStepView {
            action: CreateActionView::CreateFile { path: ns_path_of(name) },
            context: "create netns file"@,
        },
        CreateStepView {
            action: CreateActionView::MakeNamespace { steps: maker_steps(name) },
            context: "child failed to create namespace"@,
        },
    ]
}

/// The steps that make the namespace `name`, to be taken in order until one fails. `mounted` tells
/// whether the directory of the namespaces is a mount point already.
pub fn create(name: &str, mounted: bool) -> (r: Vec<CreateStep>)
    ensures
        create_views(r@) == create_steps(name@, mounted),
{
    let mut r: Vec<CreateStep> = Vec::new();
    r.push(
        CreateStep {
            action: CreateAction::MakeDirs { path: NETNS_DIR.to_owned() },
            context: "mkdir /var/run/netns".to_owned(),
        },
    );
    if !mounted {
        r.push(
            CreateStep {
                action: CreateAction::BindSelf { path: NETNS_DIR.to_owned() },
                context: "bind mount /var/run/netns".to_owned(),
            },
        );
        r.push(
            CreateStep {
                action: CreateAction::MakePrivate { path: NETNS_DIR.to_owned() },
                context: "mark /var/run/netns private".to_owned(),
            },
        );
    }
    r.push(
        CreateStep {
            action: CreateAction::CreateFile { path: ns_path(name) },
            context: "create netns file".to_owned(),
        },
    );
    r.push(
        CreateStep {
            action: CreateAction::MakeNamespace { steps: make_namespace(name) },
            context: "child failed to create namespace".to_owned(),
        },
    );
    assert(create_views(r@) =~= create_steps(name@, mounted));
    r
}

/// The exit code by which the process that makes a namespace tells whether it did, by how far its
/// steps came.
pub open spec fn maker_code(end: Progress) -> i32 {
    if end == Progress::Complete {
        0
    } else {
        1
    }
}

/// The exit code by which the process that makes a namespace tells whether it did, by how far its
/// steps came.
pub fn child_exit_code(end: Progress) -> (r: i32)
    ensures
        r == maker_code(end),
{
    match end {
        Progress::Complete => 0,
        _ => 1,
    }
}

/// How a process ended.
#[derive(Clone, Copy, Debug, PartialEq, Eq, Structural)]
pub enum WaitOutcome {
    /// It exited with this code.
    Exited(i32),
    /// It ended in another way.
    Other,
}

/// Whether the process that makes a namespace did, by how it ended.
pub open spec fn made_it(outcome: WaitOutcome) -> bool {
    outcome == WaitOutcome::Exited(0)
}

/// Tells whether the process that makes a namespace did, by how it ended.
pub fn child_made_it(outcome: WaitOutcome) -> (r: bool)
    ensures
        r == made_it(outcome),
{
    match outcome {
        WaitOutcome::Exited(code) => code == 0,
        WaitOutcome::Other => false,
    }
}

/// The process that makes the namespace is taken to have made it exactly where it exited by itself
/// after both its steps had succeeded.
pub proof fn law_maker_is_believed(name: Seq<char>, results: spec_fn(int) -> bool)
    ensures
        made_it(
            WaitOutcome::Exited(maker_code(run(maker_steps(name).len() as usize, results).1)),
        ) <==> results(0) && results(1),
        !made_it(WaitOutcome::Other),
{
    assert(maker_steps(name).len() == 2);
    law_complete(2, results);
    if results(0) && results(1) {
        assert(all_succeed(2, results));
    }
}

/// A step in removing a namespace.
#[derive(Clone, Copy, Debug, PartialEq, Eq, Structural)]
pub enum DeleteAction {
    /// See whether the namespace's file is there.
    CheckFile,
    /// Take one mount off the file.
    UnmountFile,
    /// Remove the file. It does not matter whether that succeeds.
    RemoveFile,
    /// See whether the directory of the namespaces is a mount point.
    CheckDir,
    /// Take one mount off the directory.
    UnmountDir,
    /// The namespace is gone.
    Done,
}

/// What a step leads to. `yes` is the answer to a check and the success of anything else.
pub open spec fn delete_action(step: DeleteAction, yes: bool) -> DeleteAction {
    match step {
        DeleteAction::CheckFile => if yes {
            DeleteAction::UnmountFile
        } else {
            DeleteAction::CheckDir
        },
        DeleteAction::UnmountFile => if yes {
            DeleteAction::UnmountFile
        } else {
            DeleteAction::RemoveFile
        },
        DeleteAction::RemoveFile => DeleteAction::CheckDir,
        DeleteAction::CheckDir => if yes {
            DeleteAction::UnmountDir
        } else {
            DeleteAction::Done
        },
        DeleteAction::UnmountDir => if yes {
            DeleteAction::CheckDir
        } else {
            DeleteAction::Done
        },
        DeleteAction::Done => DeleteAction::Done,
    }
}

/// The first step in removing a namespace.
pub fn delete() -> (r: DeleteAction)
    ensures
        r == DeleteAction::CheckFile,
{
    DeleteAction::CheckFile
}

/// Decides what a step in removing a namespace leads to. `yes` is the answer to a check and the
/// success of anything else.
pub fn on_deleted(step: DeleteAction, yes: bool) -> (r: DeleteAction)
    ensures
        r == delete_action(step, yes),
{
    match step {
        DeleteAction::CheckFile => if yes {
            DeleteAction::UnmountFile
        } else {
            DeleteAction::CheckDir
        },
        DeleteAction::UnmountFile => if yes {
            DeleteAction::UnmountFile
        } else {
            DeleteAction::RemoveFile
        },
        DeleteAction::RemoveFile => DeleteAction::CheckDir,
        DeleteAction::CheckDir => if yes {
            DeleteAction::UnmountDir
        } else {
            DeleteAction::Done
        },
        DeleteAction::UnmountDir => if yes {
            DeleteAction::CheckDir
        } else {
            DeleteAction::Done
        },
        DeleteAction::Done => DeleteAction::Done,
    }
}

/// The state of the host that making and removing a namespace work on: whether the file is there, and how many mounts
/// lie on the file and on the directory.
pub struct Mounts {
    pub file: bool,
    pub on_file: nat,
    pub on_dir: nat,
}

impl Mounts {
    /// A file that is not there carries no mount.
    pub open spec fn wf(self) -> bool {
        self.file || self.on_file == 0
    }

    /// The answer of the host to a step. A mount can be taken off where there is one.
    pub open spec fn answer(self, step: DeleteAction) -> bool {
        match step {
            DeleteAction::CheckFile => self.file,
            DeleteAction::UnmountFile => self.on_file > 0,
            DeleteAction::CheckDir | DeleteAction::UnmountDir => self.on_dir > 0,
            DeleteAction::RemoveFile => self.on_file == 0,
            DeleteAction::Done => true,
        }
    }

    /// The host after a step. A file goes once nothing is mounted on it.
    pub open spec fn after(self, step: DeleteAction) -> Mounts {
        match step {
            DeleteAction::UnmountFile => if self.on_file > 0 {
                Mounts { on_file: (self.on_file - 1) as nat, ..self }
            } else {
                self
            },
            DeleteAction::UnmountDir => if self.on_dir > 0 {
                Mounts { on_dir: (self.on_dir - 1) as nat, ..self }
            } else {
                self
            },
            DeleteAction::RemoveFile => if self.on_file == 0 {
                Mounts { file: false, ..self }
            } else {
                self
            },
            _ => self,
        }
    }
}

/// How far a step is from the end.
pub open spec fn delete_rank(step: DeleteAction, host: Mounts) -> nat {
    match step {
        DeleteAction::CheckFile => host.on_file + 2 * host.on_dir + 5,
        DeleteAction::UnmountFile => host.on_file + 2 * host.on_dir + 4,
        DeleteAction::RemoveFile => 2 * host.on_dir + 3,
        DeleteAction::CheckDir => 2 * host.on_dir + 2,
        DeleteAction::UnmountDir => 2 * host.on_dir + 1,
        DeleteAction::Done => 0,
    }
}

/// The host when the removal has come to its end, from a given step on.
pub open spec fn delete_run(step: DeleteAction, host: Mounts) -> Mounts
    decreases delete_rank(step, host),
{
    if step == DeleteAction::Done {
        host
    } else {
        delete_run(delete_action(step, host.answer(step)), host.after(step))
    }
}

/// Removing a namespace comes to an end and leaves nothing of it: no file, and no mount on the
/// file or on the directory, however many there were. That holds of a namespace that is gone
/// already, so that removing it once more succeeds too.
pub proof fn law_delete_leaves_nothing(host: Mounts)
    requires
        host.wf(),
    ensures
        delete_run(DeleteAction::CheckFile, host) == (Mounts { file: false, on_file: 0, on_dir: 0 }),
{
    if host.file {
        lemma_unmount_file(host);
    } else {
        lemma_unmount_dir(host);
    }
}

proof fn lemma_unmount_file(host: Mounts)
    requires
        host.file,
    ensures
        delete_run(DeleteAction::UnmountFile, host) == (Mounts {
            file: false,
            on_file: 0,
            on_dir: 0,
        }),
    decreases host.on_file,
{
    if host.on_file > 0 {
        lemma_unmount_file(host.after(DeleteAction::UnmountFile));
    } else {
        let gone = host.after(DeleteAction::RemoveFile);
        lemma_unmount_dir(gone);
        assert(delete_run(DeleteAction::RemoveFile, host) == delete_run(
            DeleteAction::CheckDir,
            gone,
        ));
    }
}

proof fn lemma_unmount_dir(host: Mounts)
    ensures
        delete_run(DeleteAction::CheckDir, host) == (Mounts { on_dir: 0, ..host }),
    decreases host.on_dir,
{
    if host.on_dir > 0 {
        let next = host.after(DeleteAction::UnmountDir);
        lemma_unmount_dir(next);
        assert(delete_run(DeleteAction::UnmountDir, host) == delete_run(
            DeleteAction::CheckDir,
            next,
        ));
    } else {
        assert(delete_run(DeleteAction::Done, host) == host);
    }
}

/// The host after the steps of the process that makes the namespace `name`, all of which succeed. A
/// mount of a namespace other than the process's own new one does not count.
pub open spec fn after_maker(name: Seq<char>, steps: Seq<MakerStepView>, host: Mounts) -> Mounts {
    if steps.len() == 2 && steps[0] == MakerStepView::UnshareNetwork && steps[1] == (
    MakerStepView::Bind { source: OWN_NETNS@, target: ns_path_of(name) }) {
        Mounts { on_file: host.on_file + 1, ..host }
    } else {
        host
    }
}

/// The host after a step in making the namespace `name` that succeeds.
pub open spec fn after_create(name: Seq<char>, action: CreateActionView, host: Mounts) -> Mounts {
    match action {
        CreateActionView::BindSelf { path } => if path == NETNS_DIR@ {
            Mounts { on_dir: host.on_dir + 1, ..host }
        } else {
            host
        },
        CreateActionView::CreateFile { path } => if path == ns_path_of(name) {
            Mounts { file: true, ..host }
        } else {
            host
        },
        CreateActionView::MakeNamespace { steps } => after_maker(name, steps, host),
        _ => host,
    }
}

/// The host after all the steps have succeeded.
pub open spec fn create_run(name: Seq<char>, steps: Seq<CreateStepView>, host: Mounts) -> Mounts
    decreases steps.len(),
{
    if steps.len() == 0 {
        host
    } else {
        create_run(name, steps.skip(1), after_create(name, steps[0].action, host))
    }
}

/// The host after the namespace `name` was made.
pub open spec fn created(name: Seq<char>, host: Mounts) -> Mounts {
    create_run(name, create_steps(name, host.on_dir > 0), host)
}

/// Making a namespace leaves its file with one mount more, and the directory of the namespaces as a
/// mount point, onto which nothing is mounted that was one already. So making it a second time adds
/// no layer there. Removing it afterwards leaves nothing.
pub proof fn law_create(name: Seq<char>, host: Mounts)
    ensures
        created(name, host) == (Mounts {
            file: true,
            on_file: host.on_file + 1,
            on_dir: if host.on_dir > 0 {
                host.on_dir
            } else {
                1
            },
        }),
        created(name, created(name, host)).on_dir == created(name, host).on_dir,
        delete_run(DeleteAction::CheckFile, created(name, host)) == (Mounts {
            file: false,
            on_file: 0,
            on_dir: 0,
        }),
{
    lemma_create(name, host);
    lemma_create(name, created(name, host));
    law_delete_leaves_nothing(created(name, host));
}

proof fn lemma_create(name: Seq<char>, host: Mounts)
    ensures
        created(name, host) == (Mounts {
            file: true,
            on_file: host.on_file + 1,
            on_dir: if host.on_dir > 0 {
                host.on_dir
            } else {
                1
            },
        }),
{
    let steps = create_steps(name, host.on_dir > 0);
    reveal_with_fuel(create_run, 6);
    assert(steps.skip(1).skip(1) =~= steps.skip(2));
    assert(steps.skip(2).skip(1) =~= steps.skip(3));
    if host.on_dir == 0 {
        assert(steps.len() == 5);
        assert(steps.skip(3).skip(1) =~= steps.skip(4));
        assert(steps.skip(4).skip(1).len() == 0);
    } else {
        assert(steps.len() == 3);
        assert(steps.skip(3).len() == 0);
    }
}

/// The directory for what commands in the namespace `name` see in place of the host's files.
pub open spec fn netns_etc_of(name: Seq<char>) -> Seq<char> {
    joined_path(NETNS_ETC@, name)
}

/// The name server file of the namespace `name`.
pub open spec fn resolv_conf_of(name: Seq<char>) -> Seq<char> {
    joined_path(netns_etc_of(name), RESOLV_CONF@)
}

/// The directory for what commands in the namespace `name` see in place of the host's files.
pub fn netns_etc(name: &str) -> (r: String)
    ensures
        r@ == netns_etc_of(name@),
{
    join_path(NETNS_ETC, name)
}

/// The name server file of the namespace `name`.
pub fn resolv_conf(name: &str) -> (r: String)
    ensures
        r@ == resolv_conf_of(name@),
{
    join_path(netns_etc(name).as_str(), RESOLV_CONF)
}

/// What the name server file of a namespace is first filled with: the host's, or nothing where
/// the host's could not be read. A file that is there already stays as it is, which is `None`.
pub fn ensure_netns_resolv_conf(present: bool, host: Option<Vec<u8>>) -> (r: Option<Vec<u8>>)
    ensures
        match (r, seed_of(present, match host {
            Some(h) => Some(h@),
            None => None,
        })) {
            (Some(contents), Some(expected)) => contents@ == expected,
            (None, None) => true,
            _ => false,
        },
{
    if present {
        return None;
    }
    match host {
        Some(h) => Some(h),
        None => Some(Vec::new()),
    }
}

/// The files of a namespace lie under its name: the one that stands for it, the directory for what its
/// commands see, and the name server file in that directory.
pub proof fn law_namespace_paths(name: Seq<char>)
    requires
        name.len() > 0,
        name[0] != '/',
    ensures
        ns_path_of(name) == "/var/run/netns/"@ + name,
        netns_etc_of(name) == "/etc/netns/"@ + name,
        name.last() != '/' ==> resolv_conf_of(name) == "/etc/netns/"@ + name + "/resolv.conf"@,
{
    reveal_strlit("/var/run/netns");
    reveal_strlit("/var/run/netns/");
    reveal_strlit("/etc/netns");
    reveal_strlit("/etc/netns/");
    reveal_strlit("resolv.conf");
    reveal_strlit("/resolv.conf");
    assert(ns_path_of(name) =~= "/var/run/netns/"@ + name);
    assert(netns_etc_of(name) =~= "/etc/netns/"@ + name);
    if name.last() != '/' {
        assert(netns_etc_of(name).last() == name.last());
        assert(resolv_conf_of(name) =~= "/etc/netns/"@ + name + "/resolv.conf"@);
    }
}

/// A line of the mount table tells of a mount at the path that its fifth field stands for, and at no
/// other. A line with fewer fields tells of none.
pub proof fn law_mount_line(parts: Seq<Seq<char>>, q: Seq<char>, path: Seq<char>)
    requires
        forall|i: int|
            0 <= i < parts.len() ==> (#[trigger] parts[i]).len() > 0 && !parts[i].contains(' '),
    ensures
        parts.len() > 4 && parts[4] == escaped(q) ==> (mounts_at(joined(parts, seq![' ']), path)
            <==> same_path(q, path)),
        parts.len() <= 4 ==> !mounts_at(joined(parts, seq![' ']), path),
{
    law_fields(parts, ' ');
    law_escapes_read_back(q);
}

/// A path is a mount point by the mount table exactly where some line tells of a mount there, whichever
/// line that is.
pub proof fn law_mounted(line: Seq<char>, rest: Seq<char>, path: Seq<char>)
    requires
        !line.contains('\n'),
        line.len() == 0 || line.last() != '\r',
    ensures
        !is_mounted(Seq::empty(), path),
        is_mounted(line + seq!['\n'] + rest, path) <==> mounts_at(line, path) || is_mounted(rest, path),
{
    law_lines(line, rest);
    let all = lines_of(line + seq!['\n'] + rest);
    let behind = lines_of(rest);
    if mounts_at(line, path) {
        assert(mounts_at(all[0], path));
    }
    if is_mounted(rest, path) {
        let i = choose|i: int| 0 <= i < behind.len() && mounts_at(#[trigger] behind[i], path);
        assert(all[i + 1] == behind[i]);
    }
    if is_mounted(line + seq!['\n'] + rest, path) {
        let i = choose|i: int| 0 <= i < all.len() && mounts_at(#[trigger] all[i], path);
        if i > 0 {
            assert(all[i] == behind[i - 1]);
        }
    }
}

/// The directory of the namespaces and the file of one of them.
pub struct Tree {
    /// Whether the directory is there.
    pub dir: bool,
    /// How many mounts lie on it.
    pub layers: nat,
    /// Whether what is mounted below it stays there.
    pub private: bool,
    /// Whether the file is there.
    pub file: bool,
    /// How many namespaces are mounted on it.
    pub namespaces: nat,
    /// Whether a step could not be taken.
    pub failed: bool,
}

impl Tree {
    /// The tree after a step that can be taken where `fits` holds.
    pub open spec fn next(self, fits: bool, next: Tree) -> Tree {
        if fits {
            next
        } else {
            Tree { failed: true, ..self }
        }
    }

    /// The tree after a step in making the namespace `name`. A new layer on the directory is not private
    /// by itself. The process that makes the namespace must have a new one before it mounts its own.
    pub open spec fn after(self, name: Seq<char>, action: CreateActionView) -> Tree {
        match action {
            CreateActionView::MakeDirs { path } => self.next(
                path == NETNS_DIR@,
                Tree { dir: true, ..self },
            ),
            CreateActionView::BindSelf { path } => self.next(
                path == NETNS_DIR@ && self.dir,
                Tree { layers: self.layers + 1, private: false, ..self },
            ),
            CreateActionView::MakePrivate { path } => self.next(
                path == NETNS_DIR@ && self.layers > 0,
                Tree { private: true, ..self },
            ),
            CreateActionView::CreateFile { path } => self.next(
                path == ns_path_of(name) && self.dir,
                Tree { file: true, ..self },
            ),
            CreateActionView::MakeNamespace { steps } => self.next(
                self.file && steps == seq![
                    MakerStepView::UnshareNetwork,
                    MakerStepView::Bind { source: "/proc/self/ns/net"@, target: ns_path_of(name) },
                ],
                Tree { namespaces: self.namespaces + 1, ..self },
            ),
        }
    }
}

/// The tree after the steps from `i` on.
pub open spec fn tree_after(name: Seq<char>, steps: Seq<CreateStepView>, i: int, t: Tree) -> Tree
    decreases steps.len() - i,
{
    if 0 <= i < steps.len() {
        tree_after(name, steps, i + 1, t.after(name, steps[i].action))
    } else {
        t
    }
}

/// Whatever was there before, all steps in making the namespace `name` can be taken. Then the directory
/// is there and a mount point, one that was none being private now and one that was one being left as it
/// is, and one namespace more is mounted on the file.
pub proof fn law_created(name: Seq<char>, t: Tree)
    requires
        !t.failed,
    ensures
        tree_after(name, create_steps(name, t.layers > 0), 0, t) == (Tree {
            dir: true,
            layers: if t.layers > 0 {
                t.layers
            } else {
                1
            },
            private: if t.layers > 0 {
                t.private
            } else {
                true
            },
            file: true,
            namespaces: t.namespaces + 1,
            failed: false,
        }),
{
    reveal_with_fuel(tree_after, 6);
    assert(maker_steps(name) =~= seq![
        MakerStepView::UnshareNetwork,
        MakerStepView::Bind { source: "/proc/self/ns/net"@, target: ns_path_of(name) },
    ]);
}

/// What is said of a step that fails is the same for every namespace.
pub proof fn law_create_contexts(a: Seq<char>, b: Seq<char>, mounted: bool, i: int)
    ensures
        create_steps(a, mounted).len() == create_steps(b, mounted).len(),
        0 <= i < create_steps(a, mounted).len() ==> create_steps(a, mounted)[i].context
            == create_steps(b, mounted)[i].context,
{
}

/// The process that makes a namespace is believed only where it exited with the code for success, which
/// no other end of its steps has.
pub proof fn law_exit_codes(code: i32, end: Progress)
    ensures
        made_it(WaitOutcome::Exited(code)) <==> code == 0,
        maker_code(end) == 0 <==> end is Complete,
        maker_code(end) == 0 || maker_code(end) == 1,
{
}

/// The removal goes on whatever becomes of the file, and ends where the directory is no mount point any
/// more or cannot be unmounted. It unmounts again as long as that succeeds.
pub proof fn law_delete_steps(yes: bool)
    ensures
        delete_action(DeleteAction::CheckFile, yes) == if yes {
            DeleteAction::UnmountFile
        } else {
            DeleteAction::CheckDir
        },
        delete_action(DeleteAction::RemoveFile, yes) == DeleteAction::CheckDir,
        delete_action(DeleteAction::UnmountFile, true) == DeleteAction::UnmountFile,
        delete_action(DeleteAction::UnmountFile, false) == DeleteAction::RemoveFile,
        delete_action(DeleteAction::UnmountDir, true) == DeleteAction::CheckDir,
        delete_action(DeleteAction::UnmountDir, false) == DeleteAction::Done,
        delete_action(DeleteAction::CheckDir, false) == DeleteAction::Done,
        delete_action(DeleteAction::CheckDir, true) == DeleteAction::UnmountDir,
        delete_action(DeleteAction::Done, yes) == DeleteAction::Done,
{
}

/// What a name server file is filled with, where it is.
pub open spec fn seed_of(present: bool, host: Option<Seq<u8>>) -> Option<Seq<u8>> {
    if present {
        None
    } else {
        match host {
            Some(h) => Some(h),
            None => Some(Seq::empty()),
        }
    }
}

/// A name server file that is there is left alone. A new one is the host's, whatever that holds, and
/// empty only where the host's is empty or cannot be read.
pub proof fn law_seed(present: bool, host: Option<Seq<u8>>)
    ensures
        seed_of(present, host) is None <==> present,
        !present && host is Some ==> seed_of(present, host) == host,
        !present && host is None ==> seed_of(present, host)->Some_0.len() == 0,
{
}

/// The view of a step says all that the step holds.
pub proof fn law_create_view(step: CreateStep, maker: MakerStep)
    ensures
        step@.context == step.context@,
        step.action matches CreateAction::MakeDirs { path } ==> step@.action == (
        CreateActionView::MakeDirs { path: path@ }),
        step.action matches CreateAction::BindSelf { path } ==> step@.action == (
        CreateActionView::BindSelf { path: path@ }),
        step.action matches CreateAction::MakePrivate { path } ==> step@.action == (
        CreateActionView::MakePrivate { path: path@ }),
        step.action matches CreateAction::CreateFile { path } ==> step@.action == (
        CreateActionView::CreateFile { path: path@ }),
        step.action matches CreateAction::MakeNamespace { steps } ==> step@.action == (
        CreateActionView::MakeNamespace { steps: maker_views(steps@) }),
        maker matches MakerStep::Bind { source, target } ==> maker@ == (MakerStepView::Bind {
            source: source@,
            target: target@,
        }),
        maker is UnshareNetwork <==> maker@ is UnshareNetwork,
{
}

/// Whether a path is a mount point, as far as the path and the table are known.
pub open spec fn is_known_mount(path: Option<Seq<char>>, table: Option<Seq<char>>) -> bool {
    match (path, table) {
        (Some(p), Some(t)) => is_mounted(t, p),
        _ => false,
    }
}

/// A path that has no canonical form, and any path where there is no table, is no mount point. Else the
/// table decides.
pub proof fn law_known_mount(path: Seq<char>, table: Seq<char>)
    ensures
        !is_known_mount(None, Some(table)),
        !is_known_mount(Some(path), None),
        !is_known_mount(None, None),
        is_known_mount(Some(path), Some(table)) <==> is_mounted(table, path),
{
}

} // verus!
