//! Enabling packet forwarding on the host, and putting the settings back.

use vstd::prelude::*;
use crate::number::{i32_of, is_digit, parse_i32};
use crate::text::{
    at, cut, lemma_cut, lemma_pieces_join, lemma_pieces_one, lines, lines_of, opt_chars, pieces, same,
    split_once, trim, trimmed, views, without_cr,
};

verus! {

/// The directory for state that must not outlive the running system.
pub const STATE_DIR: &'static str = "/run/fishnet";

/// The file that keeps the original settings.
pub const SYSCTL_STATE: &'static str = "/run/fishnet/sysctl.saved";

/// The setting for IPv4 forwarding.
pub const FORWARD_SYSCTL4: &'static str = "/proc/sys/net/ipv4/ip_forward";

/// The setting for IPv6 forwarding.
pub const FORWARD_SYSCTL6: &'static str = "/proc/sys/net/ipv6/conf/all/forwarding";

/// A change to a file or directory of the host.
#[derive(Debug)]
pub enum FileAction {
    /// Makes a directory, and its parents where they are missing.
    MakeDirs { path: String },
    /// Sets the permission bits of a file or directory.
    SetMode { path: String, mode: u32 },
    /// Replaces the contents of a file.
    Write { path: String, contents: String },
}

/// A change to a file or directory, with its texts as sequences.
pub enum FileActionView {
    MakeDirs { path: Seq<char> },
    SetMode { path: Seq<char>, mode: u32 },
    Write { path: Seq<char>, contents: Seq<char> },
}

impl View for FileAction {
    type V = FileActionView;

    open spec fn view(&self) -> FileActionView {
        match self {
            FileAction::MakeDirs { path } => FileActionView::MakeDirs { path: path@ },
            FileAction::SetMode { path, mode } => FileActionView::SetMode {
                path: path@,
                mode: *mode,
            },
            FileAction::Write { path, contents } => FileActionView::Write {
                path: path@,
                contents: contents@,
            },
        }
    }
}

/// A change, and what to say where it fails.
#[derive(Debug)]
pub struct FileStep {
    pub action: FileAction,
    pub context: String,
}

/// A step, with its texts as sequences.
pub struct FileStepView {
    pub action: FileActionView,
    pub context: Seq<char>,
}

impl View for FileStep {
    type V = FileStepView;

    open spec fn view(&self) -> FileStepView {
        FileStepView { action: self.action@, context: self.context@ }
    }
}

/// The views of a list of steps.
pub open spec fn step_views(v: Seq<FileStep>) -> Seq<FileStepView> {
    Seq::new(v.len(), |i: int| v[i]@)
}

/// Whether `path` is one of the two forwarding settings.
pub open spec fn is_forward_sysctl(path: Seq<char>) -> bool {
    path == FORWARD_SYSCTL4@ || path == FORWARD_SYSCTL6@
}

/// Whether `value` is a value that a setting can have: the kernel keeps it as an `i32`. Beside off
/// and on there are others, such as the IPv6 setting's 2.
pub open spec fn is_setting_value(value: Seq<char>) -> bool {
    i32_of(value) is Some
}

/// The line that keeps the value of a setting.
pub open spec fn saved_line(path: Seq<char>, value: Seq<char>) -> Seq<char> {
    path.push('=') + trimmed(value)
}

/// The text that keeps the values of the two settings.
pub open spec fn saved_text(value4: Seq<char>, value6: Seq<char>) -> Seq<char> {
    saved_line(FORWARD_SYSCTL4@, value4).push('\n') + saved_line(FORWARD_SYSCTL6@, value6).push(
        '\n',
    )
}

/// The step that writes `contents` to `path`.
pub open spec fn write_step(
    path: Seq<char>,
    contents: Seq<char>,
    context: Seq<char>,
) -> FileStepView {
    FileStepView { action: FileActionView::Write { path, contents }, context }
}

/// The steps that keep the original values of the two settings.
pub open spec fn save_steps(value4: Seq<char>, value6: Seq<char>) -> Seq<FileStepView> {
    seq![
        FileStepView {
            action: FileActionView::MakeDirs { path: STATE_DIR@ },
            context: "mkdir /run/fishnet"@,
        },
        FileStepView {
            action: FileActionView::SetMode { path: STATE_DIR@, mode: 0o700 },
            context: "chmod /run/fishnet"@,
        },
        write_step(SYSCTL_STATE@, saved_text(value4, value6), "save sysctl state"@),
    ]
}

/// The steps that switch forwarding on.
pub open spec fn switch_on_steps() -> Seq<FileStepView> {
    seq![
        write_step(FORWARD_SYSCTL4@, "1"@, "enable "@ + FORWARD_SYSCTL4@),
        write_step(FORWARD_SYSCTL6@, "1"@, "enable "@ + FORWARD_SYSCTL6@),
    ]
}

/// What `enable_ip_forward` gives: the steps, or what to say of a setting that could not be read.
pub open spec fn enable_steps(
    saved: bool,
    value4: Option<Seq<char>>,
    value6: Option<Seq<char>>,
) -> Result<Seq<FileStepView>, Seq<char>> {
    if saved {
        Ok(switch_on_steps())
    } else if value4 is None {
        Err("read "@ + FORWARD_SYSCTL4@)
    } else if value6 is None {
        Err("read "@ + FORWARD_SYSCTL6@)
    } else {
        Ok(save_steps(value4->Some_0, value6->Some_0) + switch_on_steps())
    }
}

fn concat(a: &str, b: &str) -> (r: String)
    ensures
        r@ == a@ + b@,
{
    let mut r = a.to_owned();
    r.append(b);
    r
}

fn append_line(text: &mut String, path: &str, value: &str)
    ensures
        final(text)@ == old(text)@ + saved_line(path@, value@).push('\n'),
{
    text.append(path);
    text.append("=");
    text.append(trim(value).as_str());
    text.append("\n");
    proof {
        reveal_strlit("=");
        reveal_strlit("\n");
        assert(text@ =~= old(text)@ + saved_line(path@, value@).push('\n'));
    }
}

fn writing(path: &str, contents: String, context: String) -> (r: FileStep)
    ensures
        r@ == write_step(path@, contents@, context@),
{
    FileStep { action: FileAction::Write { path: path.to_owned(), contents }, context }
}

/// The steps that enable IPv4 and IPv6 forwarding, to be taken in order until one fails.
///
/// `saved` tells whether the original values are kept already, by a run that did not end as it
/// should. Then they stand as they are. Otherwise `value4` and `value6` are the values that the two
/// settings hold, and they are kept before anything is changed. A setting that could not be read
/// is `None`; the error tells what to say of the first such setting.
pub fn enable_ip_forward(saved: bool, value4: Option<String>, value6: Option<String>) -> (r: Result<
    Vec<FileStep>,
    String,
>)
    ensures
        match (r, enable_steps(saved, opt_chars(value4), opt_chars(value6))) {
            (Ok(steps), Ok(expected)) => step_views(steps@) == expected,
            (Err(text), Err(expected)) => text@ == expected,
            _ => false,
        },
{
    let mut steps: Vec<FileStep> = Vec::new();
    let ghost mut first = Seq::<FileStepView>::empty();
    if !saved {
        let old4 = match value4 {
            Some(v) => v,
            None => {
                return Err(concat("read ", FORWARD_SYSCTL4));
            },
        };
        let old6 = match value6 {
            Some(v) => v,
            None => {
                return Err(concat("read ", FORWARD_SYSCTL6));
            },
        };
        let mut text = String::new();
        append_line(&mut text, FORWARD_SYSCTL4, old4.as_str());
        append_line(&mut text, FORWARD_SYSCTL6, old6.as_str());
        assert(text@ =~= saved_text(old4@, old6@));
        steps.push(
            FileStep {
                action: FileAction::MakeDirs { path: STATE_DIR.to_owned() },
                context: "mkdir /run/fishnet".to_owned(),
            },
        );
        steps.push(
            FileStep {
                action: FileAction::SetMode { path: STATE_DIR.to_owned(), mode: 0o700 },
                context: "chmod /run/fishnet".to_owned(),
            },
        );
        steps.push(writing(SYSCTL_STATE, text, "save sysctl state".to_owned()));
        proof {
            first = save_steps(old4@, old6@);
            assert(step_views(steps@) =~= first);
        }
    }
    let ghost before = steps@;
    steps.push(writing(FORWARD_SYSCTL4, "1".to_owned(), concat("enable ", FORWARD_SYSCTL4)));
    steps.push(writing(FORWARD_SYSCTL6, "1".to_owned(), concat("enable ", FORWARD_SYSCTL6)));
    proof {
        assert(step_views(before) =~= first);
        assert(forall|i: int| 0 <= i < before.len() ==> steps@[i] == before[i]);
        assert(forall|i: int| 0 <= i < before.len() ==> first[i] == before[i]@);
        assert(step_views(steps@) =~= first + switch_on_steps());
        assert(saved ==> first + switch_on_steps() =~= switch_on_steps());
    }
    Ok(steps)
}

/// The setting and the value that a kept line gives back: the text before and after its first
/// equals sign, where that names one of the two settings and a value that it can have.
pub open spec fn kept_setting(line: Seq<char>) -> Option<(Seq<char>, Seq<char>)> {
    match cut(line, '=') {
        Some(p) => if is_forward_sysctl(p.0) && is_setting_value(p.1) {
            Some(p)
        } else {
            None
        },
        None => None,
    }
}

/// The writes that put back what the lines keep, in order.
pub open spec fn restore_steps(kept: Seq<Seq<char>>) -> Seq<FileStepView>
    decreases kept.len(),
{
    if kept.len() == 0 {
        Seq::empty()
    } else {
        let before = restore_steps(kept.drop_last());
        match kept_setting(kept.last()) {
            Some(p) => before.push(write_step(p.0, p.1, "restore "@ + p.0)),
            None => before,
        }
    }
}

/// The writes that put the forwarding settings back as `saved` keeps them. Each is tried, whatever
/// becomes of the others. There are none, and nothing is left to remove, where nothing was saved.
pub fn restore_ip_forward(saved: Option<String>) -> (r: Option<Vec<FileStep>>)
    ensures
        match (saved, r) {
            (Some(text), Some(steps)) => step_views(steps@) == restore_steps(lines_of(text@)),
            (None, None) => true,
            _ => false,
        },
{
    let text = match saved {
        Some(t) => t,
        None => {
            return None;
        },
    };
    let kept = lines(text.as_str());
    let ghost all = views(kept@);
    let mut steps: Vec<FileStep> = Vec::new();
    let mut i: usize = 0;
    assert(step_views(steps@) =~= restore_steps(all.take(0)));
    while i < kept.len()
        invariant
            i <= kept.len(),
            all == views(kept@),
            step_views(steps@) == restore_steps(all.take(i as int)),
        decreases kept.len() - i,
    {
        let ghost before = step_views(steps@);
        proof {
            assert(all.take(i + 1).drop_last() =~= all.take(i as int));
            assert(all.take(i + 1).last() == kept@[i as int]@);
        }
        if let Some((path, val)) = split_once(kept[i].as_str(), '=') {
            let known = same(path.as_str(), FORWARD_SYSCTL4) || same(
                path.as_str(),
                FORWARD_SYSCTL6,
            );
            if known && parse_i32(val.as_str()).is_some() {
                let ghost step = write_step(path@, val@, "restore "@ + path@);
                let context = concat("restore ", path.as_str());
                steps.push(writing(path.as_str(), val, context));
                assert(step_views(steps@) =~= before.push(step));
            }
        }
        i = i + 1;
    }
    assert(all.take(i as int) =~= all);
    Some(steps)
}

/// What ends the restoring, once every write has been tried.
#[derive(Clone, Copy, Debug, PartialEq, Eq, Structural)]
pub enum RestoreEnd {
    /// Nothing failed: the kept values are no longer needed, and their file is removed.
    RemoveState,
    /// The write at this place is the last that failed. The kept values stay.
    Failed(usize),
}

/// Decides how the restoring ends. `failed` tells of each write whether it failed.
pub fn restore_end(failed: &Vec<bool>) -> (r: RestoreEnd)
    ensures
        ends_in(failed@, r),
{
    let mut i: usize = failed.len();
    while i > 0
        invariant
            i <= failed.len(),
            forall|j: int| i <= j < failed.len() ==> !failed[j],
        decreases i,
    {
        i = i - 1;
        if failed[i] {
            return RestoreEnd::Failed(i);
        }
    }
    RestoreEnd::RemoveState
}

/// Whatever the kept text says, nothing is written but a number to one of the two forwarding
/// settings.
pub proof fn law_restore_writes_only_settings(text: Seq<char>, i: int)
    requires
        0 <= i < restore_steps(lines_of(text)).len(),
    ensures
        match restore_steps(lines_of(text))[i].action {
            FileActionView::Write { path, contents } => is_forward_sysctl(path) && is_setting_value(
                contents,
            ),
            _ => false,
        },
{
    lemma_restore_writes(lines_of(text), i);
}

proof fn lemma_restore_writes(kept: Seq<Seq<char>>, i: int)
    requires
        0 <= i < restore_steps(kept).len(),
    ensures
        match restore_steps(kept)[i].action {
            FileActionView::Write { path, contents } => is_forward_sysctl(path) && is_setting_value(
                contents,
            ),
            _ => false,
        },
    decreases kept.len(),
{
    if i < restore_steps(kept.drop_last()).len() {
        lemma_restore_writes(kept.drop_last(), i);
    }
}

proof fn lemma_setting_names()
    ensures
        !FORWARD_SYSCTL4@.contains('='),
        !FORWARD_SYSCTL4@.contains('\n'),
        !FORWARD_SYSCTL6@.contains('='),
        !FORWARD_SYSCTL6@.contains('\n'),
{
    reveal_strlit("/proc/sys/net/ipv4/ip_forward");
    reveal_strlit("/proc/sys/net/ipv6/conf/all/forwarding");
}

/// A number is written without line ends.
proof fn lemma_number_chars(s: Seq<char>)
    requires
        is_setting_value(s),
    ensures
        s.len() > 0,
        forall|i: int| 0 <= i < s.len() ==> #[trigger] s[i] != '\n' && s[i] != '\r',
{
    assert forall|i: int| 0 <= i < s.len() implies #[trigger] s[i] != '\n' && s[i] != '\r' by {
        if i > 0 {
            assert(is_digit(s.skip(1)[i - 1]) || is_digit(s[i]));
        } else {
            assert(s[0] == '-' || s[0] == '+' || is_digit(s[0]));
        }
    }
}

proof fn lemma_kept_line(path: Seq<char>, value: Seq<char>)
    requires
        is_forward_sysctl(path),
        is_setting_value(trimmed(value)),
    ensures
        ({
            let line = saved_line(path, value);
            &&& pieces(line, at('\n')) == seq![line]
            &&& without_cr(line) == line
            &&& kept_setting(line) == Some((path, trimmed(value)))
        }),
{
    let line = saved_line(path, value);
    lemma_setting_names();
    lemma_number_chars(trimmed(value));
    assert forall|i: int| 0 <= i < line.len() implies !at('\n')(
        #[trigger] line[i],
    ) by {
        if i < path.len() {
            assert(path.contains(path[i]));
        }
    }
    lemma_pieces_one(line, at('\n'));
    lemma_cut(path, '=', trimmed(value));
}

/// Putting back what was kept gives the two settings the values that they had, whatever those were.
pub proof fn law_restore_gives_back(value4: Seq<char>, value6: Seq<char>)
    requires
        is_setting_value(trimmed(value4)),
        is_setting_value(trimmed(value6)),
    ensures
        restore_steps(lines_of(saved_text(value4, value6))) == seq![
            write_step(FORWARD_SYSCTL4@, trimmed(value4), "restore "@ + FORWARD_SYSCTL4@),
            write_step(FORWARD_SYSCTL6@, trimmed(value6), "restore "@ + FORWARD_SYSCTL6@),
        ],
{
    let sep = at('\n');
    let a = saved_line(FORWARD_SYSCTL4@, value4);
    let b = saved_line(FORWARD_SYSCTL6@, value6);
    let none = Seq::<char>::empty();
    lemma_kept_line(FORWARD_SYSCTL4@, value4);
    lemma_kept_line(FORWARD_SYSCTL6@, value6);
    lemma_pieces_join(a, '\n', b.push('\n'), sep);
    lemma_pieces_join(b, '\n', none, sep);
    assert(b.push('\n') + none =~= b.push('\n'));
    let parts = pieces(saved_text(value4, value6), sep);
    assert(parts =~= seq![a, b, none]);
    let kept = lines_of(saved_text(value4, value6));
    assert(kept =~= seq![a, b]);
    assert(kept.drop_last() =~= seq![a]);
    assert(kept.drop_last().drop_last().len() == 0);
    reveal_with_fuel(restore_steps, 3);
    assert(restore_steps(kept) =~= seq![
        write_step(FORWARD_SYSCTL4@, trimmed(value4), "restore "@ + FORWARD_SYSCTL4@),
        write_step(FORWARD_SYSCTL6@, trimmed(value6), "restore "@ + FORWARD_SYSCTL6@),
    ]);
}

/// Enabling forwarding and then restoring it undoes it: from the text that enabling keeps, the two
/// settings get back the values that they had, whatever those were.
pub proof fn law_enable_then_restore(value4: Seq<char>, value6: Seq<char>, i: int, text: Seq<char>)
    requires
        is_setting_value(trimmed(value4)),
        is_setting_value(trimmed(value6)),
        0 <= i < enable_steps(false, Some(value4), Some(value6))->Ok_0.len(),
        enable_steps(false, Some(value4), Some(value6))->Ok_0[i].action == (FileActionView::Write {
            path: SYSCTL_STATE@,
            contents: text,
        }),
    ensures
        restore_steps(lines_of(text)) == seq![
            write_step(FORWARD_SYSCTL4@, trimmed(value4), "restore "@ + FORWARD_SYSCTL4@),
            write_step(FORWARD_SYSCTL6@, trimmed(value6), "restore "@ + FORWARD_SYSCTL6@),
        ],
{
    reveal_strlit("/run/fishnet/sysctl.saved");
    reveal_strlit("/proc/sys/net/ipv4/ip_forward");
    reveal_strlit("/proc/sys/net/ipv6/conf/all/forwarding");
    law_restore_gives_back(value4, value6);
    assert(i == 2);
}

/// Values that are kept already are not overwritten: then every step writes a forwarding setting.
pub proof fn law_saved_once(value4: Option<Seq<char>>, value6: Option<Seq<char>>, i: int)
    requires
        0 <= i < enable_steps(true, value4, value6)->Ok_0.len(),
    ensures
        enable_steps(true, value4, value6) is Ok,
        match enable_steps(true, value4, value6)->Ok_0[i].action {
            FileActionView::Write { path, .. } => is_forward_sysctl(path) && path != SYSCTL_STATE@,
            _ => false,
        },
{
    reveal_strlit("/run/fishnet/sysctl.saved");
    reveal_strlit("/proc/sys/net/ipv4/ip_forward");
    reveal_strlit("/proc/sys/net/ipv6/conf/all/forwarding");
}

/// Whether a step writes a forwarding setting.
pub open spec fn changes_setting(step: FileStepView) -> bool {
    match step.action {
        FileActionView::Write { path, .. } => is_forward_sysctl(path),
        _ => false,
    }
}

/// The original values are kept before any setting changes: where no values are kept yet, the
/// step that keeps them stands before every step that writes a setting.
pub proof fn law_saved_before_changed(value4: Seq<char>, value6: Seq<char>, i: int)
    requires
        0 <= i < enable_steps(false, Some(value4), Some(value6))->Ok_0.len(),
        changes_setting(enable_steps(false, Some(value4), Some(value6))->Ok_0[i]),
    ensures
        exists|k: int|
            0 <= k < i && #[trigger] enable_steps(false, Some(value4), Some(value6))->Ok_0[k]
                == write_step(SYSCTL_STATE@, saved_text(value4, value6), "save sysctl state"@),
{
    reveal_strlit("/run/fishnet/sysctl.saved");
    reveal_strlit("/proc/sys/net/ipv4/ip_forward");
    reveal_strlit("/proc/sys/net/ipv6/conf/all/forwarding");
    let steps = enable_steps(false, Some(value4), Some(value6))->Ok_0;
    assert(steps[2] == write_step(
        SYSCTL_STATE@,
        saved_text(value4, value6),
        "save sysctl state"@,
    ));
    assert(!changes_setting(steps[0]) && !changes_setting(steps[1]) && !changes_setting(steps[2]));
}

/// The files, directories and permissions of a host.
pub struct Files {
    pub texts: Map<Seq<char>, Seq<char>>,
    pub dirs: Set<Seq<char>>,
    pub modes: Map<Seq<char>, u32>,
}

impl Files {
    /// The host after a change.
    pub open spec fn after(self, action: FileActionView) -> Files {
        match action {
            FileActionView::MakeDirs { path } => Files { dirs: self.dirs.insert(path), ..self },
            FileActionView::SetMode { path, mode } => Files {
                modes: self.modes.insert(path, mode),
                ..self
            },
            FileActionView::Write { path, contents } => Files {
                texts: self.texts.insert(path, contents),
                ..self
            },
        }
    }
}

/// The host after the steps from `i` on.
pub open spec fn files_after(steps: Seq<FileStepView>, i: int, f: Files) -> Files
    decreases steps.len() - i,
{
    if 0 <= i < steps.len() {
        files_after(steps, i + 1, f.after(steps[i].action))
    } else {
        f
    }
}

proof fn lemma_paths_differ()
    ensures
        FORWARD_SYSCTL4@ != FORWARD_SYSCTL6@,
        FORWARD_SYSCTL4@ != SYSCTL_STATE@,
        FORWARD_SYSCTL6@ != SYSCTL_STATE@,
        FORWARD_SYSCTL4@ != STATE_DIR@,
        FORWARD_SYSCTL6@ != STATE_DIR@,
{
    reveal_strlit("/run/fishnet");
    reveal_strlit("/run/fishnet/sysctl.saved");
    reveal_strlit("/proc/sys/net/ipv4/ip_forward");
    reveal_strlit("/proc/sys/net/ipv6/conf/all/forwarding");
    assert(FORWARD_SYSCTL4@.len() == 29 && FORWARD_SYSCTL6@.len() == 38);
    assert(SYSCTL_STATE@.len() == 25 && STATE_DIR@.len() == 12);
}

/// Once all steps have succeeded both settings hold 1, whatever they held before. Where their values
/// were not kept yet they are kept now, in a directory that only root can look into. Nothing else on
/// the host changes.
pub proof fn law_enabled(
    saved: bool,
    value4: Option<Seq<char>>,
    value6: Option<Seq<char>>,
    f: Files,
)
    requires
        enable_steps(saved, value4, value6) is Ok,
    ensures
        ({
            let end = files_after(enable_steps(saved, value4, value6)->Ok_0, 0, f);
            let on = |texts: Map<Seq<char>, Seq<char>>|
                texts.insert(FORWARD_SYSCTL4@, "1"@).insert(FORWARD_SYSCTL6@, "1"@);
            if saved {
                &&& end.texts == on(f.texts)
                &&& end.dirs == f.dirs
                &&& end.modes == f.modes
            } else {
                &&& end.texts == on(
                    f.texts.insert(
                        SYSCTL_STATE@,
                        FORWARD_SYSCTL4@ + seq!['='] + trimmed(value4->Some_0) + seq!['\n']
                            + FORWARD_SYSCTL6@ + seq!['='] + trimmed(value6->Some_0) + seq!['\n'],
                    ),
                )
                &&& end.dirs == f.dirs.insert(STATE_DIR@)
                &&& end.modes == f.modes.insert(STATE_DIR@, 0o700)
            }
        }),
{
    lemma_paths_differ();
    reveal_with_fuel(files_after, 6);
    if !saved {
        let (v4, v6) = (value4->Some_0, value6->Some_0);
        assert(saved_text(v4, v6) =~= FORWARD_SYSCTL4@ + seq!['='] + trimmed(v4) + seq!['\n']
            + FORWARD_SYSCTL6@ + seq!['='] + trimmed(v6) + seq!['\n']);
    }
}

/// Forwarding can be enabled exactly where the old values are kept already or both can be read. Else
/// the first that cannot be read is told.
pub proof fn law_enable_errors(saved: bool, value4: Option<Seq<char>>, value6: Option<Seq<char>>)
    ensures
        enable_steps(saved, value4, value6) is Ok <==> saved || (value4 is Some && value6 is Some),
        !saved && value4 is None ==> enable_steps(saved, value4, value6)
            == Err::<Seq<FileStepView>, Seq<char>>("read "@ + FORWARD_SYSCTL4@),
        !saved && value4 is Some && value6 is None ==> enable_steps(saved, value4, value6)
            == Err::<Seq<FileStepView>, Seq<char>>("read "@ + FORWARD_SYSCTL6@),
{
}

/// What is said of a step that fails does not depend on the values.
pub proof fn law_enable_contexts(
    value4: Option<Seq<char>>,
    value6: Option<Seq<char>>,
    other4: Option<Seq<char>>,
    other6: Option<Seq<char>>,
    saved: bool,
    i: int,
)
    requires
        enable_steps(saved, value4, value6) is Ok,
        enable_steps(saved, other4, other6) is Ok,
    ensures
        ({
            let a = enable_steps(saved, value4, value6)->Ok_0;
            let b = enable_steps(saved, other4, other6)->Ok_0;
            a.len() == b.len() && (0 <= i < a.len() ==> a[i].context == b[i].context)
        }),
{
}

/// Each kept line is put back by itself: what two lists of lines give together is what each gives.
pub proof fn law_restore_by_lines(a: Seq<Seq<char>>, b: Seq<Seq<char>>)
    ensures
        restore_steps(a + b) == restore_steps(a) + restore_steps(b),
    decreases b.len(),
{
    if b.len() == 0 {
        assert(a + b =~= a);
        assert(restore_steps(a) + restore_steps(b) =~= restore_steps(a));
    } else {
        assert((a + b).drop_last() =~= a + b.drop_last());
        assert((a + b).last() == b.last());
        law_restore_by_lines(a, b.drop_last());
        assert(restore_steps(a + b) =~= restore_steps(a) + restore_steps(b));
    }
}

/// A line that is a setting, an equals sign and a number writes that number to that setting, and says
/// which where it fails. Any other line does nothing.
pub proof fn law_restore_line(line: Seq<char>, path: Seq<char>, val: Seq<char>)
    ensures
        is_forward_sysctl(path) && i32_of(val) is Some && line == path + seq!['='] + val
            ==> restore_steps(seq![line]) == seq![
            FileStepView {
                action: FileActionView::Write { path, contents: val },
                context: "restore "@ + path,
            },
        ],
        (forall|p: Seq<char>, v: Seq<char>|
            is_forward_sysctl(p) && #[trigger] i32_of(v) is Some ==> line != #[trigger] (p + seq!['='])
                + v) ==> restore_steps(seq![line]) == Seq::<FileStepView>::empty(),
{
    lemma_setting_names();
    assert(seq![line].drop_last() =~= Seq::<Seq<char>>::empty());
    reveal_with_fuel(restore_steps, 2);
    if is_forward_sysctl(path) && i32_of(val) is Some && line == path + seq!['='] + val {
        assert(line =~= path.push('=') + val);
        lemma_cut(path, '=', val);
        assert(restore_steps(seq![line]) =~= seq![write_step(path, val, "restore "@ + path)]);
    }
    if kept_setting(line) is Some {
        let p = kept_setting(line)->Some_0;
        line.index_of_first_ensures('=');
        let i = line.index_of_first('=')->Some_0;
        assert(line =~= (p.0 + seq!['=']) + p.1);
        assert(i32_of(p.1) is Some);
    }
}

/// Whether the restoring ends in this way, where `failed` tells of each write whether it failed.
pub open spec fn ends_in(failed: Seq<bool>, end: RestoreEnd) -> bool {
    match end {
        RestoreEnd::RemoveState => forall|i: int| 0 <= i < failed.len() ==> !failed[i],
        RestoreEnd::Failed(k) => k < failed.len() && failed[k as int] && forall|i: int|
            k < i < failed.len() ==> !failed[i],
    }
}

/// The kept values are thrown away exactly where no write failed. Where one failed they stay, and the
/// failure that is told is one that happened and that none came after.
pub proof fn law_kept_until_restored(failed: Seq<bool>, end: RestoreEnd)
    requires
        ends_in(failed, end),
    ensures
        end == RestoreEnd::RemoveState <==> !failed.contains(true),
        end matches RestoreEnd::Failed(k) ==> k < failed.len() && failed[k as int]
            && !failed.skip(k + 1).contains(true),
{
    if end == RestoreEnd::RemoveState && failed.contains(true) {
        let i = choose|i: int| 0 <= i < failed.len() && failed[i];
        assert(!failed[i]);
    }
    if let RestoreEnd::Failed(k) = end {
        let rest = failed.skip(k + 1);
        if rest.contains(true) {
            let i = choose|i: int| 0 <= i < rest.len() && rest[i];
            assert(failed[i + k + 1]);
        }
    }
}

/// Where the old values are kept, the directory for them is made before its permissions are set, and both
/// before anything is written into it.
pub proof fn law_state_is_roots(value4: Seq<char>, value6: Seq<char>, k: int)
    requires
        0 <= k < enable_steps(false, Some(value4), Some(value6))->Ok_0.len(),
        enable_steps(false, Some(value4), Some(value6))->Ok_0[k].action is Write,
    ensures
        ({
            let steps = enable_steps(false, Some(value4), Some(value6))->Ok_0;
            exists|i: int, j: int|
                0 <= i < j < k && (#[trigger] steps[i]).action == (FileActionView::MakeDirs {
                    path: STATE_DIR@,
                }) && (#[trigger] steps[j]).action == (FileActionView::SetMode {
                    path: STATE_DIR@,
                    mode: 0o700,
                })
        }),
{
    let steps = enable_steps(false, Some(value4), Some(value6))->Ok_0;
    assert(steps[0].action == (FileActionView::MakeDirs { path: STATE_DIR@ }));
    assert(steps[1].action == (FileActionView::SetMode { path: STATE_DIR@, mode: 0o700 }));
}

/// What is said of a step that fails names what it does and what it does it to.
pub proof fn law_enable_texts(
    saved: bool,
    value4: Option<Seq<char>>,
    value6: Option<Seq<char>>,
    i: int,
)
    requires
        enable_steps(saved, value4, value6) is Ok,
        0 <= i < enable_steps(saved, value4, value6)->Ok_0.len(),
    ensures
        ({
            let step = enable_steps(saved, value4, value6)->Ok_0[i];
            match step.action {
                FileActionView::MakeDirs { path } => step.context == "mkdir "@ + path,
                FileActionView::SetMode { path, .. } => step.context == "chmod "@ + path,
                FileActionView::Write { path, .. } => if path == SYSCTL_STATE@ {
                    step.context == "save sysctl state"@
                } else {
                    step.context == "enable "@ + path
                },
            }
        }),
{
    lemma_paths_differ();
    reveal_strlit("/run/fishnet");
    reveal_strlit("mkdir ");
    reveal_strlit("mkdir /run/fishnet");
    reveal_strlit("chmod ");
    reveal_strlit("chmod /run/fishnet");
    assert("mkdir /run/fishnet"@ =~= "mkdir "@ + STATE_DIR@);
    assert("chmod /run/fishnet"@ =~= "chmod "@ + STATE_DIR@);
}

/// The view of a step says all that the step holds.
pub proof fn law_file_view(step: FileStep)
    ensures
        step@.context == step.context@,
        step.action matches FileAction::MakeDirs { path } ==> step@.action == (
        FileActionView::MakeDirs { path: path@ }),
        step.action matches FileAction::SetMode { path, mode } ==> step@.action == (
        FileActionView::SetMode { path: path@, mode }),
        step.action matches FileAction::Write { path, contents } ==> step@.action == (
        FileActionView::Write { path: path@, contents: contents@ }),
{
}

} // verus!
