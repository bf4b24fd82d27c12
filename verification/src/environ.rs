//! The environment of a command that runs in the namespace.
//!
//! It starts empty. A few harmless variables are taken over, the search path is cleaned, and the
//! variables that tell who the user is are set anew.

use vstd::prelude::*;
use vstd::utf8::encode_utf8;
use crate::caller::Caller;
use crate::number::{decimal, decimal_of};
use crate::text::{
    at, has_prefix, join, joined, lemma_pieces_joined, lemma_pieces_plain, opt_chars, pieces, same, split,
    starts_with, views,
};

verus! {

/// Variables in the order in which they are set. A later setting replaces an earlier one.
#[derive(Debug)]
pub struct Environment {
    pub vars: Vec<(String, Vec<u8>)>,
}

/// What the variables come to.
pub open spec fn env_of(vars: Seq<(String, Vec<u8>)>) -> Map<Seq<char>, Seq<u8>>
    decreases vars.len(),
{
    if vars.len() == 0 {
        Map::empty()
    } else {
        env_of(vars.drop_last()).insert(vars.last().0@, vars.last().1@)
    }
}

impl View for Environment {
    type V = Map<Seq<char>, Seq<u8>>;

    open spec fn view(&self) -> Map<Seq<char>, Seq<u8>> {
        env_of(self.vars@)
    }
}

impl Environment {
    /// An environment without variables.
    pub fn new() -> (r: Environment)
        ensures
            r@ == Map::<Seq<char>, Seq<u8>>::empty(),
    {
        Environment { vars: Vec::new() }
    }

    /// Sets a variable.
    pub fn set_bytes(&mut self, key: &str, value: Vec<u8>)
        ensures
            final(self)@ == old(self)@.insert(key@, value@),
    {
        let ghost before = self.vars@;
        self.vars.push((key.to_owned(), value));
        assert(self.vars@.drop_last() =~= before);
    }

    /// Sets a variable to a text.
    pub fn set(&mut self, key: &str, value: &str)
        ensures
            final(self)@ == old(self)@.insert(key@, encode_utf8(value@)),
    {
        self.set_bytes(key, value.as_bytes_vec());
    }
}

/// Whether a variable of this name is taken over. Everything else is dropped, among it what would
/// make the loader or an interpreter load other code.
pub open spec fn is_allowed(key: Seq<char>) -> bool {
    ||| key == "TERM"@
    ||| key == "COLORTERM"@
    ||| key == "LANG"@
    ||| key == "LANGUAGE"@
    ||| key == "TZ"@
    ||| has_prefix(key, "LC_"@)
}

/// Tells whether a variable of this name is taken over.
pub fn allowed(key: &str) -> (r: bool)
    ensures
        r == is_allowed(key@),
{
    same(key, "TERM") || same(key, "COLORTERM") || same(key, "LANG") || same(key, "LANGUAGE")
        || same(key, "TZ") || starts_with(key, "LC_")
}

/// The variables of `inherited` that are taken over, and the search path.
pub open spec fn sanitized(inherited: Map<Seq<char>, Seq<u8>>, path: Seq<char>) -> Map<
    Seq<char>,
    Seq<u8>,
> {
    inherited.restrict(Set::new(|k: Seq<char>| is_allowed(k))).insert("PATH"@, encode_utf8(path))
}

/// The environment that a command starts from: of the variables that were inherited only those
/// that are allowed, and `path` as the search path.
pub fn sanitize_env(inherited: &Vec<(String, Vec<u8>)>, path: &str) -> (r: Environment)
    ensures
        r@ == sanitized(env_of(inherited@), path@),
{
    let ghost keep = Set::new(|k: Seq<char>| is_allowed(k));
    let mut r = Environment::new();
    let mut i: usize = 0;
    assert(r@ =~= env_of(inherited@.take(0)).restrict(keep));
    while i < inherited.len()
        invariant
            i <= inherited.len(),
            keep == Set::new(|k: Seq<char>| is_allowed(k)),
            r@ == env_of(inherited@.take(i as int)).restrict(keep),
        decreases inherited.len() - i,
    {
        let ghost before = env_of(inherited@.take(i as int));
        let ghost key = inherited@[i as int].0@;
        let ghost value = inherited@[i as int].1@;
        proof {
            assert(inherited@.take(i + 1).drop_last() =~= inherited@.take(i as int));
            assert(inherited@.take(i + 1).last() == inherited@[i as int]);
        }
        if allowed(inherited[i].0.as_str()) {
            r.set_bytes(inherited[i].0.as_str(), copy_bytes(&inherited[i].1));
            assert(before.restrict(keep).insert(key, value) =~= before.insert(key, value).restrict(
                keep,
            ));
        } else {
            assert(before.restrict(keep) =~= before.insert(key, value).restrict(keep));
        }
        i = i + 1;
    }
    assert(inherited@.take(i as int) =~= inherited@);
    r.set("PATH", path);
    r
}

fn copy_bytes(v: &Vec<u8>) -> (r: Vec<u8>)
    ensures
        r@ == v@,
{
    vstd::slice::slice_to_vec(v.as_slice())
}

/// What the host tells of a directory.
#[derive(Clone, Copy, Debug, PartialEq, Eq, Structural)]
pub struct DirFacts {
    /// Whether it is a directory at all.
    pub is_dir: bool,
    /// Its owner.
    pub uid: u32,
    /// Its permission bits.
    pub mode: u32,
}

impl DirFacts {
    /// Whether nobody but root can change what the directory holds: it belongs to root, and
    /// neither its group nor others may write to it.
    pub open spec fn is_roots_own(self) -> bool {
        self.is_dir && self.uid == 0 && self.mode & 0o022 == 0
    }
}

/// An entry of a search path, with what the host tells of it. `None` is that it tells nothing.
#[derive(Debug)]
pub struct PathEntry {
    pub dir: String,
    pub facts: Option<DirFacts>,
}

impl PathEntry {
    /// Whether the entry stays: it is absolute, and for a command that stays root it is a
    /// directory that only root can change.
    pub open spec fn is_trusted(self, as_root: bool) -> bool {
        &&& self.dir@.len() > 0
        &&& self.dir@[0] == '/'
        &&& as_root ==> (self.facts is Some && self.facts->Some_0.is_roots_own())
    }

    /// Tells whether the entry stays.
    pub fn trusted(&self, as_root: bool) -> (r: bool)
        ensures
            r == self.is_trusted(as_root),
    {
        if self.dir.as_str().is_empty() || self.dir.as_str().get_char(0) != '/' {
            return false;
        }
        if !as_root {
            return true;
        }
        match self.facts {
            Some(f) => f.is_dir && f.uid == 0 && f.mode & 0o022 == 0,
            None => false,
        }
    }
}

/// The search path where nothing stays of the inherited one.
pub const DEFAULT_PATH: &'static str =
    "/usr/local/sbin:/usr/local/bin:/usr/sbin:/usr/bin:/sbin:/bin";

/// The directories of a search path.
pub fn path_dirs(path: &str) -> (r: Vec<String>)
    ensures
        views(r@) == pieces(path@, at(':')),
{
    split(path, ':')
}

/// The directories that stay, in order.
pub open spec fn trusted_dirs(entries: Seq<PathEntry>, as_root: bool) -> Seq<Seq<char>>
    decreases entries.len(),
{
    if entries.len() == 0 {
        Seq::empty()
    } else {
        let before = trusted_dirs(entries.drop_last(), as_root);
        if entries.last().is_trusted(as_root) {
            before.push(entries.last().dir@)
        } else {
            before
        }
    }
}

/// The search path that is left of the inherited one.
pub open spec fn cleaned_path(entries: Seq<PathEntry>, as_root: bool) -> Seq<char> {
    let dirs = trusted_dirs(entries, as_root);
    if dirs.len() == 0 {
        DEFAULT_PATH@
    } else {
        joined(dirs, ":"@)
    }
}

/// The search path that is left of the inherited one: the entries that stay, or the default where
/// none does.
pub fn clean_path(entries: &Vec<PathEntry>, as_root: bool) -> (r: String)
    ensures
        r@ == cleaned_path(entries@, as_root),
{
    let mut dirs: Vec<String> = Vec::new();
    let mut i: usize = 0;
    assert(views(dirs@) =~= trusted_dirs(entries@.take(0), as_root));
    while i < entries.len()
        invariant
            i <= entries.len(),
            views(dirs@) == trusted_dirs(entries@.take(i as int), as_root),
        decreases entries.len() - i,
    {
        let ghost before = views(dirs@);
        proof {
            assert(entries@.take(i + 1).drop_last() =~= entries@.take(i as int));
            assert(entries@.take(i + 1).last() == entries@[i as int]);
        }
        if entries[i].trusted(as_root) {
            dirs.push(entries[i].dir.clone());
            assert(views(dirs@) =~= before.push(entries@[i as int].dir@));
        }
        i = i + 1;
    }
    assert(entries@.take(i as int) =~= entries@);
    assert(views(dirs@).len() == dirs@.len());
    if dirs.len() == 0 {
        DEFAULT_PATH.to_owned()
    } else {
        join(&dirs, ":")
    }
}

/// The variables of a command that stays root.
pub open spec fn root_env(base: Map<Seq<char>, Seq<u8>>, home: Option<Seq<char>>) -> Map<
    Seq<char>,
    Seq<u8>,
> {
    base.insert(
        "HOME"@,
        encode_utf8(
            match home {
                Some(h) => h,
                None => "/root"@,
            },
        ),
    ).insert(
        "USER"@,
        encode_utf8("root"@),
    ).insert("LOGNAME"@, encode_utf8("root"@))
}

/// Sets the variables of a command that stays root. `home` is root's home directory as it is shown,
/// where the host knows one.
pub fn apply_root_env(env: &mut Environment, home: Option<String>)
    ensures
        final(env)@ == root_env(old(env)@, opt_chars(home)),
{
    match home {
        Some(h) => env.set("HOME", h.as_str()),
        None => env.set("HOME", "/root"),
    }
    env.set("USER", "root");
    env.set("LOGNAME", "root");
}

/// The variables of the user's session as they were inherited. `None` is that a variable was not
/// set.
#[derive(Debug)]
pub struct SessionVars {
    /// Whether `MAIL` was inherited at all.
    pub mail: bool,
    pub xdg_runtime_dir: Option<Vec<u8>>,
    pub display: Option<Vec<u8>>,
    pub xauthority: Option<Vec<u8>>,
    pub wayland_display: Option<Vec<u8>>,
    pub dbus_session_bus_address: Option<Vec<u8>>,
}

/// The value of a variable: what is there for it, or else the default.
pub open spec fn kept_or(present: Option<Vec<u8>>, default: Seq<u8>) -> Seq<u8> {
    match present {
        Some(v) => v@,
        None => default,
    }
}

/// The directory for a user's run-time files.
pub open spec fn runtime_dir(uid: u32) -> Seq<char> {
    "/run/user/"@ + decimal_of(uid as nat)
}

/// The variables that tell who the user is.
pub open spec fn identity_env(base: Map<Seq<char>, Seq<u8>>, c: Caller, mail: bool) -> Map<
    Seq<char>,
    Seq<u8>,
> {
    let named = base.insert("HOME"@, c.home@).insert(
        "USER"@,
        encode_utf8(c.name@),
    ).insert("LOGNAME"@, encode_utf8(c.name@)).insert("SHELL"@, c.shell@);
    if mail {
        named.insert("MAIL"@, encode_utf8("/var/mail/"@ + c.name@))
    } else {
        named
    }
}

/// The variables of a command that runs as the user.
pub open spec fn caller_env(base: Map<Seq<char>, Seq<u8>>, c: Caller, s: SessionVars) -> Map<
    Seq<char>,
    Seq<u8>,
> {
    let dir = runtime_dir(c.uid);
    identity_env(base, c, s.mail).insert(
        "XDG_RUNTIME_DIR"@,
        kept_or(s.xdg_runtime_dir, encode_utf8(dir)),
    ).insert("DISPLAY"@, kept_or(s.display, encode_utf8(":0"@))).insert(
        "XAUTHORITY"@,
        kept_or(s.xauthority, c.home@ + encode_utf8("/.Xauthority"@)),
    ).insert(
        "WAYLAND_DISPLAY"@,
        kept_or(s.wayland_display, encode_utf8("wayland-0"@)),
    ).insert(
        "DBUS_SESSION_BUS_ADDRESS"@,
        kept_or(s.dbus_session_bus_address, encode_utf8("unix:path="@ + dir + "/bus"@)),
    )
}

fn set_or(env: &mut Environment, key: &str, present: &Option<Vec<u8>>, default: Vec<u8>)
    ensures
        final(env)@ == old(env)@.insert(key@, kept_or(*present, default@)),
{
    match present {
        Some(v) => env.set_bytes(key, copy_bytes(v)),
        None => env.set_bytes(key, default),
    }
}

/// Sets the variables of a command that runs as the user: who the user is, and the user's session.
/// Of the session a variable that was inherited stays as it is, and any other gets the value that
/// it usually has.
pub fn apply_caller_env(env: &mut Environment, c: &Caller, s: &SessionVars)
    ensures
        final(env)@ == caller_env(old(env)@, *c, *s),
{
    let mut dir = "/run/user/".to_owned();
    dir.append(decimal(c.uid as u64).as_str());
    env.set_bytes("HOME", copy_bytes(&c.home));
    env.set("USER", c.name.as_str());
    env.set("LOGNAME", c.name.as_str());
    env.set_bytes("SHELL", copy_bytes(&c.shell));
    if s.mail {
        let mut mail = "/var/mail/".to_owned();
        mail.append(c.name.as_str());
        env.set("MAIL", mail.as_str());
    }
    set_or(env, "XDG_RUNTIME_DIR", &s.xdg_runtime_dir, dir.as_str().as_bytes_vec());
    set_or(env, "DISPLAY", &s.display, ":0".as_bytes_vec());
    let mut xauthority = copy_bytes(&c.home);
    let mut file = "/.Xauthority".as_bytes_vec();
    xauthority.append(&mut file);
    set_or(env, "XAUTHORITY", &s.xauthority, xauthority);
    set_or(env, "WAYLAND_DISPLAY", &s.wayland_display, "wayland-0".as_bytes_vec());
    let mut bus = "unix:path=".to_owned();
    bus.append(dir.as_str());
    bus.append("/bus");
    set_or(env, "DBUS_SESSION_BUS_ADDRESS", &s.dbus_session_bus_address, bus.as_str().as_bytes_vec());
}

/// Whether a command that stays root is given a variable of this name.
pub open spec fn is_root_var(k: Seq<char>) -> bool {
    is_allowed(k) || k == "PATH"@ || k == "HOME"@ || k == "USER"@ || k == "LOGNAME"@
}

/// Whether a command that runs as the user is given a variable of this name.
pub open spec fn is_caller_var(k: Seq<char>) -> bool {
    ||| is_root_var(k)
    ||| k == "SHELL"@
    ||| k == "MAIL"@
    ||| k == "XDG_RUNTIME_DIR"@
    ||| k == "DISPLAY"@
    ||| k == "XAUTHORITY"@
    ||| k == "WAYLAND_DISPLAY"@
    ||| k == "DBUS_SESSION_BUS_ADDRESS"@
}

/// Whatever was inherited, a command gets no variable but those that are taken over and those that
/// are set for it.
pub proof fn law_environment_is_closed(
    inherited: Map<Seq<char>, Seq<u8>>,
    path: Seq<char>,
    home: Option<Seq<char>>,
    c: Caller,
    s: SessionVars,
    k: Seq<char>,
)
    ensures
        root_env(sanitized(inherited, path), home).contains_key(k) ==> is_root_var(k),
        caller_env(sanitized(inherited, path), c, s).contains_key(k) ==> is_caller_var(k),
{
}

/// Whether a variable of this name could make the loader, a shell or an interpreter load other
/// code, or is one of sudo's own.
pub open spec fn is_dangerous(k: Seq<char>) -> bool {
    has_prefix(k, "LD_"@) || has_prefix(k, "SUDO_"@) || k == "PYTHONPATH"@ || k == "BASH_ENV"@
}

/// No variable that could make the loader, a shell or an interpreter load other code reaches a
/// command, and none of sudo's own.
pub proof fn law_nothing_dangerous(
    inherited: Map<Seq<char>, Seq<u8>>,
    path: Seq<char>,
    home: Option<Seq<char>>,
    c: Caller,
    s: SessionVars,
    k: Seq<char>,
)
    requires
        is_dangerous(k),
    ensures
        !root_env(sanitized(inherited, path), home).contains_key(k),
        !caller_env(sanitized(inherited, path), c, s).contains_key(k),
{
    law_environment_is_closed(inherited, path, home, c, s, k);
    lemma_dangerous(k);
}

proof fn lemma_dangerous(k: Seq<char>)
    requires
        is_dangerous(k),
    ensures
        !is_caller_var(k),
{
    reveal_strlit("LD_");
    reveal_strlit("SUDO_");
    reveal_strlit("PYTHONPATH");
    reveal_strlit("BASH_ENV");
    reveal_strlit("TERM");
    reveal_strlit("COLORTERM");
    reveal_strlit("LANG");
    reveal_strlit("LANGUAGE");
    reveal_strlit("TZ");
    reveal_strlit("LC_");
    reveal_strlit("PATH");
    reveal_strlit("HOME");
    reveal_strlit("USER");
    reveal_strlit("LOGNAME");
    reveal_strlit("SHELL");
    reveal_strlit("MAIL");
    reveal_strlit("XDG_RUNTIME_DIR");
    reveal_strlit("DISPLAY");
    reveal_strlit("XAUTHORITY");
    reveal_strlit("WAYLAND_DISPLAY");
    reveal_strlit("DBUS_SESSION_BUS_ADDRESS");
    if has_prefix(k, "LC_"@) {
        assert(k.take(3)[0] == 'L' && k.take(3)[1] == 'C');
    }
    if has_prefix(k, "LD_"@) {
        assert(k.take(3)[0] == 'L' && k.take(3)[1] == 'D');
        assert(k[0] == 'L' && k[1] == 'D');
    } else if has_prefix(k, "SUDO_"@) {
        assert(k.take(5)[0] == 'S' && k.take(5)[1] == 'U');
        assert(k[0] == 'S' && k[1] == 'U');
    } else {
        assert((k[0] == 'P' && k[1] == 'Y') || k[0] == 'B');
    }
}

/// A command that runs as the user is told the user's own name, home and shell and the cleaned
/// search path, whatever was inherited.
pub proof fn law_identity_is_the_callers(
    inherited: Map<Seq<char>, Seq<u8>>,
    path: Seq<char>,
    c: Caller,
    s: SessionVars,
)
    ensures
        ({
            let env = caller_env(sanitized(inherited, path), c, s);
            &&& env.contains_key("HOME"@) && env["HOME"@] == c.home@
            &&& env.contains_key("USER"@) && env["USER"@] == encode_utf8(c.name@)
            &&& env.contains_key("LOGNAME"@) && env["LOGNAME"@] == encode_utf8(c.name@)
            &&& env.contains_key("SHELL"@) && env["SHELL"@] == c.shell@
            &&& env.contains_key("PATH"@) && env["PATH"@] == encode_utf8(path)
        }),
{
    reveal_strlit("PATH");
    reveal_strlit("HOME");
    reveal_strlit("USER");
    reveal_strlit("LOGNAME");
    reveal_strlit("SHELL");
    reveal_strlit("MAIL");
    reveal_strlit("XDG_RUNTIME_DIR");
    reveal_strlit("DISPLAY");
    reveal_strlit("XAUTHORITY");
    reveal_strlit("WAYLAND_DISPLAY");
    reveal_strlit("DBUS_SESSION_BUS_ADDRESS");
    assert("HOME"@[0] == 'H' && "USER"@[0] == 'U' && "LOGNAME"@[0] == 'L' && "SHELL"@[0] == 'S');
    assert("PATH"@[0] == 'P' && "MAIL"@[0] == 'M' && "XDG_RUNTIME_DIR"@[0] == 'X');
    assert("DISPLAY"@[0] == 'D' && "XAUTHORITY"@[0] == 'X' && "WAYLAND_DISPLAY"@[0] == 'W');
    assert("DBUS_SESSION_BUS_ADDRESS"@[0] == 'D');
}

/// Whether a variable belongs to the user's session.
pub open spec fn is_session_var(k: Seq<char>) -> bool {
    ||| k == "XDG_RUNTIME_DIR"@
    ||| k == "DISPLAY"@
    ||| k == "XAUTHORITY"@
    ||| k == "WAYLAND_DISPLAY"@
    ||| k == "DBUS_SESSION_BUS_ADDRESS"@
}

/// Whether a variable tells who the user is.
pub open spec fn is_identity_var(k: Seq<char>) -> bool {
    k == "HOME"@ || k == "USER"@ || k == "LOGNAME"@ || k == "SHELL"@ || k == "MAIL"@
}

/// What a session variable was inherited as.
pub open spec fn inherited_session(s: SessionVars, k: Seq<char>) -> Option<Vec<u8>> {
    if k == "XDG_RUNTIME_DIR"@ {
        s.xdg_runtime_dir
    } else if k == "DISPLAY"@ {
        s.display
    } else if k == "XAUTHORITY"@ {
        s.xauthority
    } else if k == "WAYLAND_DISPLAY"@ {
        s.wayland_display
    } else {
        s.dbus_session_bus_address
    }
}

/// A session variable that was inherited keeps its value, whatever bytes that is. Every session
/// variable is set, and every variable that is neither the session's nor the user's identity stays
/// as it was.
pub proof fn law_session_stays(
    base: Map<Seq<char>, Seq<u8>>,
    c: Caller,
    s: SessionVars,
    k: Seq<char>,
)
    ensures
        is_session_var(k) ==> caller_env(base, c, s).contains_key(k),
        is_session_var(k) && inherited_session(s, k) is Some ==> caller_env(base, c, s)[k]
            == inherited_session(s, k)->Some_0@,
        !is_session_var(k) && !is_identity_var(k) ==> caller_env(base, c, s).contains_key(k)
            == base.contains_key(k) && caller_env(base, c, s)[k] == base[k],
{
    reveal_strlit("XDG_RUNTIME_DIR");
    reveal_strlit("DISPLAY");
    reveal_strlit("XAUTHORITY");
    reveal_strlit("WAYLAND_DISPLAY");
    reveal_strlit("DBUS_SESSION_BUS_ADDRESS");
    assert("DISPLAY"@.len() == 7 && "XAUTHORITY"@.len() == 10);
    assert("XDG_RUNTIME_DIR"@.len() == 15 && "WAYLAND_DISPLAY"@.len() == 15);
    assert("XDG_RUNTIME_DIR"@[0] == 'X' && "WAYLAND_DISPLAY"@[0] == 'W');
    assert("DBUS_SESSION_BUS_ADDRESS"@.len() == 24);
}

proof fn lemma_trusted_dirs(entries: Seq<PathEntry>, as_root: bool, i: int)
    requires
        0 <= i < trusted_dirs(entries, as_root).len(),
    ensures
        exists|j: int|
            0 <= j < entries.len() && (#[trigger] entries[j]).is_trusted(as_root) && entries[j].dir@
                == trusted_dirs(entries, as_root)[i],
    decreases entries.len(),
{
    let rest = entries.drop_last();
    if i < trusted_dirs(rest, as_root).len() {
        lemma_trusted_dirs(rest, as_root, i);
        let j = choose|j: int|
            0 <= j < rest.len() && (#[trigger] rest[j]).is_trusted(as_root) && rest[j].dir@
                == trusted_dirs(rest, as_root)[i];
        assert(entries[j] == rest[j]);
    } else {
        assert(entries[entries.len() - 1].is_trusted(as_root));
    }
}

/// Every directory of the search path that a command gets is an entry of the inherited one that
/// stays, unless none stays and the path is the default.
pub proof fn law_path_entries_are_trusted(
    path: Seq<char>,
    entries: Seq<PathEntry>,
    as_root: bool,
    i: int,
)
    requires
        entries.len() == pieces(path, at(':')).len(),
        forall|j: int|
            0 <= j < entries.len() ==> (#[trigger] entries[j]).dir@ == pieces(
                path,
                at(':'),
            )[j],
        trusted_dirs(entries, as_root).len() > 0,
        0 <= i < pieces(cleaned_path(entries, as_root), at(':')).len(),
    ensures
        exists|j: int|
            0 <= j < entries.len() && (#[trigger] entries[j]).is_trusted(as_root) && entries[j].dir@
                == pieces(cleaned_path(entries, as_root), at(':'))[i],
{
    let sep = at(':');
    let dirs = trusted_dirs(entries, as_root);
    assert forall|k: int, m: int| 0 <= k < dirs.len() && 0 <= m < dirs[k].len() implies !sep(
        #[trigger] dirs[k][m],
    ) by {
        lemma_trusted_dirs(entries, as_root, k);
        let j = choose|j: int|
            0 <= j < entries.len() && (#[trigger] entries[j]).is_trusted(as_root) && entries[j].dir@
                == dirs[k];
        lemma_pieces_plain(path, sep, j, m);
    }
    reveal_strlit(":");
    assert(":"@ =~= seq![':']);
    lemma_pieces_joined(dirs, ':', sep);
    lemma_trusted_dirs(entries, as_root, i);
}

/// Every directory of the search path that a command gets is absolute.
pub proof fn law_path_is_absolute(
    path: Seq<char>,
    entries: Seq<PathEntry>,
    as_root: bool,
    i: int,
)
    requires
        entries.len() == pieces(path, at(':')).len(),
        forall|j: int|
            0 <= j < entries.len() ==> (#[trigger] entries[j]).dir@ == pieces(
                path,
                at(':'),
            )[j],
        0 <= i < pieces(cleaned_path(entries, as_root), at(':')).len(),
    ensures
        has_prefix(
            pieces(cleaned_path(entries, as_root), at(':'))[i],
            seq!['/'],
        ),
{
    let dirs = pieces(cleaned_path(entries, as_root), at(':'));
    if trusted_dirs(entries, as_root).len() > 0 {
        law_path_entries_are_trusted(path, entries, as_root, i);
        assert(dirs[i].take(1) =~= seq!['/']);
    } else {
        lemma_default_path();
        assert(dirs[i].take(1) =~= seq!['/']);
    }
}

proof fn lemma_default_path()
    ensures
        forall|i: int|
            0 <= i < pieces(DEFAULT_PATH@, at(':')).len() ==> (
            #[trigger] pieces(DEFAULT_PATH@, at(':'))[i]).len() > 0 && pieces(
                DEFAULT_PATH@,
                at(':'),
            )[i][0] == '/',
{
    let sep = at(':');
    let parts = seq![
        "/usr/local/sbin"@,
        "/usr/local/bin"@,
        "/usr/sbin"@,
        "/usr/bin"@,
        "/sbin"@,
        "/bin"@,
    ];
    reveal_strlit("/usr/local/sbin:/usr/local/bin:/usr/sbin:/usr/bin:/sbin:/bin");
    reveal_strlit("/usr/local/sbin");
    reveal_strlit("/usr/local/bin");
    reveal_strlit("/usr/sbin");
    reveal_strlit("/usr/bin");
    reveal_strlit("/sbin");
    reveal_strlit("/bin");
    assert forall|k: int, m: int| 0 <= k < parts.len() && 0 <= m < parts[k].len() implies !sep(
        #[trigger] parts[k][m],
    ) by {}
    lemma_pieces_joined(parts, ':', sep);
    let s1 = parts.skip(1);
    let s2 = s1.drop_last();
    let s3 = s2.drop_last();
    let s4 = s3.drop_last();
    let s5 = s4.drop_last();
    reveal_with_fuel(crate::text::led, 6);
    assert(s5.drop_last().len() == 0);
    assert(joined(parts, seq![':']) =~= DEFAULT_PATH@);
}

/// A variable is there exactly where it was set, and has the value that it was set to last: setting
/// one changes that one and no other.
pub proof fn law_last_setting_counts(vars: Seq<(String, Vec<u8>)>, last: (String, Vec<u8>), k: Seq<char>)
    ensures
        env_of(Seq::empty()) == Map::<Seq<char>, Seq<u8>>::empty(),
        env_of(vars.push(last)).contains_key(last.0@),
        env_of(vars.push(last))[last.0@] == last.1@,
        k != last.0@ ==> env_of(vars.push(last)).contains_key(k) == env_of(vars).contains_key(k)
            && env_of(vars.push(last))[k] == env_of(vars)[k],
{
    assert(vars.push(last).drop_last() =~= vars);
}

/// Beside five names every name that begins with `LC_` is taken over, and no other.
pub proof fn law_allowed(k: Seq<char>, rest: Seq<char>)
    ensures
        is_allowed("LC_"@ + rest),
        is_allowed("TERM"@) && is_allowed("COLORTERM"@) && is_allowed("LANG"@) && is_allowed(
            "LANGUAGE"@,
        ) && is_allowed("TZ"@),
        is_allowed(k) ==> k == "TERM"@ || k == "COLORTERM"@ || k == "LANG"@ || k == "LANGUAGE"@ || k
            == "TZ"@ || k == "LC_"@ + k.skip(3),
{
    reveal_strlit("LC_");
    assert(("LC_"@ + rest).take(3) =~= "LC_"@);
    if has_prefix(k, "LC_"@) {
        assert(k =~= "LC_"@ + k.skip(3));
    }
}

/// A command starts from exactly the allowed variables that were inherited, each with its value, and
/// the search path, whatever search path was inherited.
pub proof fn law_sanitized(inherited: Map<Seq<char>, Seq<u8>>, path: Seq<char>, k: Seq<char>)
    ensures
        sanitized(inherited, path).contains_key("PATH"@),
        sanitized(inherited, path)["PATH"@] == encode_utf8(path),
        k != "PATH"@ ==> (sanitized(inherited, path).contains_key(k) <==> is_allowed(k)
            && inherited.contains_key(k)),
        k != "PATH"@ && is_allowed(k) && inherited.contains_key(k) ==> sanitized(
            inherited,
            path,
        )[k] == inherited[k],
{
}

proof fn lemma_root_names()
    ensures
        "HOME"@ != "USER"@,
        "HOME"@ != "LOGNAME"@,
        "USER"@ != "LOGNAME"@,
        "PATH"@ != "HOME"@,
        "PATH"@ != "USER"@,
        "PATH"@ != "LOGNAME"@,
{
    reveal_strlit("HOME");
    reveal_strlit("USER");
    reveal_strlit("LOGNAME");
    reveal_strlit("PATH");
    assert("HOME"@[0] == 'H' && "USER"@[0] == 'U' && "LOGNAME"@[0] == 'L' && "PATH"@[0] == 'P');
}

/// Root's variables come on top of what is there: every other variable stays as it was. Root is told
/// its own name, and the home that the host knows or else the usual one.
pub proof fn law_root_env_adds(base: Map<Seq<char>, Seq<u8>>, home: Option<Seq<char>>, k: Seq<char>)
    ensures
        k != "HOME"@ && k != "USER"@ && k != "LOGNAME"@ ==> root_env(base, home).contains_key(k)
            == base.contains_key(k) && root_env(base, home)[k] == base[k],
        root_env(base, home).contains_key("HOME"@),
        home matches Some(h) ==> root_env(base, home)["HOME"@] == encode_utf8(h),
        home is None ==> root_env(base, home)["HOME"@] == encode_utf8("/root"@),
        root_env(base, home).contains_key("USER"@) && root_env(base, home)["USER"@] == encode_utf8(
            "root"@,
        ),
        root_env(base, home).contains_key("LOGNAME"@) && root_env(base, home)["LOGNAME"@]
            == encode_utf8("root"@),
{
    lemma_root_names();
}

/// A command that stays root has the cleaned search path, and every allowed variable that was
/// inherited with its value.
pub proof fn law_root_command_env(
    inherited: Map<Seq<char>, Seq<u8>>,
    path: Seq<char>,
    home: Option<Seq<char>>,
    k: Seq<char>,
)
    requires
        is_allowed(k),
    ensures
        ({
            let env = root_env(sanitized(inherited, path), home);
            &&& env.contains_key("PATH"@) && env["PATH"@] == encode_utf8(path)
            &&& env.contains_key(k) == inherited.contains_key(k)
            &&& inherited.contains_key(k) ==> env[k] == inherited[k]
        }),
{
    lemma_root_names();
    lemma_allowed_names(k);
    law_root_env_adds(sanitized(inherited, path), home, k);
    law_sanitized(inherited, path, k);
}

/// A command that runs as the user has the cleaned search path, and every allowed variable that was
/// inherited with its value.
pub proof fn law_caller_command_env(
    inherited: Map<Seq<char>, Seq<u8>>,
    path: Seq<char>,
    c: Caller,
    s: SessionVars,
    k: Seq<char>,
)
    requires
        is_allowed(k),
    ensures
        ({
            let env = caller_env(sanitized(inherited, path), c, s);
            &&& env.contains_key("PATH"@) && env["PATH"@] == encode_utf8(path)
            &&& env.contains_key(k) == inherited.contains_key(k)
            &&& inherited.contains_key(k) ==> env[k] == inherited[k]
        }),
{
    lemma_allowed_names(k);
    law_identity_is_the_callers(inherited, path, c, s);
    law_session_stays(sanitized(inherited, path), c, s, k);
    law_sanitized(inherited, path, k);
}

/// No variable that is taken over is one that is set anew.
proof fn lemma_allowed_names(k: Seq<char>)
    requires
        is_allowed(k),
    ensures
        k != "PATH"@,
        !is_session_var(k),
        !is_identity_var(k),
{
    reveal_strlit("TERM");
    reveal_strlit("COLORTERM");
    reveal_strlit("LANG");
    reveal_strlit("LANGUAGE");
    reveal_strlit("TZ");
    reveal_strlit("LC_");
    reveal_strlit("PATH");
    reveal_strlit("HOME");
    reveal_strlit("USER");
    reveal_strlit("LOGNAME");
    reveal_strlit("SHELL");
    reveal_strlit("MAIL");
    reveal_strlit("XDG_RUNTIME_DIR");
    reveal_strlit("DISPLAY");
    reveal_strlit("XAUTHORITY");
    reveal_strlit("WAYLAND_DISPLAY");
    reveal_strlit("DBUS_SESSION_BUS_ADDRESS");
    if has_prefix(k, "LC_"@) {
        assert(k.take(3)[0] == 'L' && k.take(3)[1] == 'C');
        assert(k[0] == 'L' && k[1] == 'C');
    } else {
        assert(k[0] == 'T' || k[0] == 'C' || k[0] == 'L');
        assert(k[0] == 'L' ==> k[1] == 'A');
    }
}

/// A session variable that was not inherited gets the value that it usually has for that user: the
/// user's own run-time directory and its bus, and the file in the user's home. The user's mail is told
/// exactly where mail was told before.
pub proof fn law_session_defaults(base: Map<Seq<char>, Seq<u8>>, c: Caller, s: SessionVars)
    ensures
        ({
            let env = caller_env(base, c, s);
            let own = "/run/user/"@ + decimal_of(c.uid as nat);
            &&& s.xdg_runtime_dir is None ==> env["XDG_RUNTIME_DIR"@] == encode_utf8(own)
            &&& s.dbus_session_bus_address is None ==> env["DBUS_SESSION_BUS_ADDRESS"@]
                == encode_utf8("unix:path="@ + own + "/bus"@)
            &&& s.display is None ==> env["DISPLAY"@] == encode_utf8(":0"@)
            &&& s.wayland_display is None ==> env["WAYLAND_DISPLAY"@] == encode_utf8("wayland-0"@)
            &&& s.xauthority is None ==> env["XAUTHORITY"@] == env["HOME"@] + encode_utf8(
                "/.Xauthority"@,
            )
            &&& s.mail ==> env.contains_key("MAIL"@) && env["MAIL"@] == encode_utf8(
                "/var/mail/"@ + c.name@,
            )
            &&& !s.mail ==> env.contains_key("MAIL"@) == base.contains_key("MAIL"@) && env["MAIL"@]
                == base["MAIL"@]
            &&& env["HOME"@] == c.home@
            &&& env["USER"@] == encode_utf8(c.name@)
            &&& env["LOGNAME"@] == encode_utf8(c.name@)
            &&& env["SHELL"@] == c.shell@
        }),
{
    reveal_strlit("HOME");
    reveal_strlit("USER");
    reveal_strlit("LOGNAME");
    reveal_strlit("SHELL");
    reveal_strlit("MAIL");
    reveal_strlit("XDG_RUNTIME_DIR");
    reveal_strlit("DISPLAY");
    reveal_strlit("XAUTHORITY");
    reveal_strlit("WAYLAND_DISPLAY");
    reveal_strlit("DBUS_SESSION_BUS_ADDRESS");
    assert("HOME"@[0] == 'H' && "USER"@[0] == 'U' && "LOGNAME"@[0] == 'L' && "SHELL"@[0] == 'S');
    assert("MAIL"@[0] == 'M' && "XDG_RUNTIME_DIR"@[0] == 'X' && "XDG_RUNTIME_DIR"@[1] == 'D');
    assert("DISPLAY"@[0] == 'D' && "DISPLAY"@[1] == 'I');
    assert("XAUTHORITY"@[0] == 'X' && "XAUTHORITY"@[1] == 'A' && "WAYLAND_DISPLAY"@[0] == 'W');
    assert("DBUS_SESSION_BUS_ADDRESS"@[0] == 'D' && "DBUS_SESSION_BUS_ADDRESS"@[1] == 'B');
}

/// An entry of the search path stays for a user exactly where it is absolute. For root it stays
/// exactly where it is absolute, is a directory, belongs to root, and neither its group nor others may
/// write to it.
pub proof fn law_trusted(e: PathEntry)
    ensures
        e.is_trusted(false) <==> has_prefix(e.dir@, seq!['/']),
        e.is_trusted(true) <==> has_prefix(e.dir@, seq!['/']) && (e.facts matches Some(f) && f.is_dir
            && f.uid == 0 && f.mode & 0o020 == 0 && f.mode & 0o002 == 0),
{
    if e.dir@.len() > 0 {
        assert(e.dir@.take(1) =~= seq![e.dir@[0]]);
        if e.dir@[0] != '/' && e.dir@.take(1) == seq!['/'] {
            assert(seq![e.dir@[0]][0] == seq!['/'][0]);
        }
    }
    if let Some(f) = e.facts {
        let m = f.mode;
        assert(m & 0o022 == 0 <==> (m & 0o020 == 0 && m & 0o002 == 0)) by (bit_vector);
    }
}

/// Every entry that stays is in the search path, in order, and no other is: what two lists of entries
/// leave together is what each leaves, and a single entry is left exactly where it is trusted.
pub proof fn law_trusted_dirs(a: Seq<PathEntry>, b: Seq<PathEntry>, e: PathEntry, as_root: bool)
    ensures
        trusted_dirs(a + b, as_root) == trusted_dirs(a, as_root) + trusted_dirs(b, as_root),
        trusted_dirs(seq![e], as_root) == if e.is_trusted(as_root) {
            seq![e.dir@]
        } else {
            Seq::empty()
        },
    decreases b.len(),
{
    reveal_with_fuel(trusted_dirs, 2);
    assert(seq![e].drop_last() =~= Seq::<PathEntry>::empty());
    assert(trusted_dirs(seq![e], as_root) =~= if e.is_trusted(as_root) {
        seq![e.dir@]
    } else {
        Seq::empty()
    });
    if b.len() == 0 {
        assert(a + b =~= a);
        assert(trusted_dirs(a, as_root) + trusted_dirs(b, as_root) =~= trusted_dirs(a, as_root));
    } else {
        assert((a + b).drop_last() =~= a + b.drop_last());
        assert((a + b).last() == b.last());
        law_trusted_dirs(a, b.drop_last(), e, as_root);
        assert(trusted_dirs(a + b, as_root) =~= trusted_dirs(a, as_root) + trusted_dirs(b, as_root));
    }
}

/// Cutting the search path that a command gets gives back the directories that stay. Where none stays
/// it is the default.
pub proof fn law_cleaned_path(path: Seq<char>, entries: Seq<PathEntry>, as_root: bool)
    requires
        entries.len() == pieces(path, at(':')).len(),
        forall|j: int|
            0 <= j < entries.len() ==> (#[trigger] entries[j]).dir@ == pieces(path, at(':'))[j],
    ensures
        trusted_dirs(entries, as_root).len() > 0 ==> pieces(
            cleaned_path(entries, as_root),
            at(':'),
        ) == trusted_dirs(entries, as_root),
        trusted_dirs(entries, as_root).len() == 0 ==> cleaned_path(entries, as_root)
            == "/usr/local/sbin:/usr/local/bin:/usr/sbin:/usr/bin:/sbin:/bin"@,
{
    let sep = at(':');
    let dirs = trusted_dirs(entries, as_root);
    if dirs.len() > 0 {
        assert forall|k: int, m: int| 0 <= k < dirs.len() && 0 <= m < dirs[k].len() implies !sep(
            #[trigger] dirs[k][m],
        ) by {
            lemma_trusted_dirs(entries, as_root, k);
            let j = choose|j: int|
                0 <= j < entries.len() && (#[trigger] entries[j]).is_trusted(as_root)
                    && entries[j].dir@ == dirs[k];
            lemma_pieces_plain(path, sep, j, m);
        }
        reveal_strlit(":");
        assert(":"@ =~= seq![':']);
        lemma_pieces_joined(dirs, ':', sep);
    }
}

} // verus!
