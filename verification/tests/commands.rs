use fishnet::caller::{known_user, sudo_caller, sudo_ids, Caller, CallerError, Lookup, UserEntry};
use fishnet::environ::{
    allowed, apply_caller_env, apply_root_env, clean_path, path_dirs, sanitize_env, DirFacts, Environment,
    PathEntry, SessionVars,
};
use fishnet::exec::{
    child_setup, drop_bounding_set, exec_in, exit_code, lock_down, on_cap_dropped, on_forked, on_locked,
    CapAction, ChildOp, ExecOpts, ExecStep, ForkAction, LockAction, RunAs,
};
use fishnet::plan::{first_step, on_step, Progress};
use std::collections::BTreeMap;

fn text(s: &str) -> Option<String> {
    Some(s.to_string())
}

fn bytes(s: &str) -> Option<Vec<u8>> {
    Some(s.as_bytes().to_vec())
}

fn env_map(env: &Environment) -> BTreeMap<String, String> {
    env.vars.iter().map(|(k, v)| (k.clone(), String::from_utf8(v.clone()).unwrap())).collect()
}

fn inherited(list: &[(&str, &str)]) -> Vec<(String, Vec<u8>)> {
    list.iter().map(|(k, v)| (k.to_string(), v.as_bytes().to_vec())).collect()
}

#[test]
fn options_of_the_subcommands() {
    assert_eq!(ExecOpts::root(), ExecOpts { run_as: RunAs::Root, detach: false });
    assert_eq!(ExecOpts::caller(true), ExecOpts { run_as: RunAs::Caller, detach: true });
    assert_eq!(ExecOpts::caller(false), ExecOpts { run_as: RunAs::Caller, detach: false });
}

#[test]
fn only_harmless_variables_are_taken_over() {
    for k in ["TERM", "COLORTERM", "LANG", "LANGUAGE", "TZ", "LC_ALL", "LC_"] {
        assert!(allowed(k), "{k}");
    }
    for k in ["LD_PRELOAD", "LD_LIBRARY_PATH", "PYTHONPATH", "BASH_ENV", "SUDO_UID", "PATH", "HOME", "term", "LC", ""] {
        assert!(!allowed(k), "{k}");
    }
}

#[test]
fn environment_starts_empty() {
    let env = sanitize_env(
        &inherited(&[("LANG", "C"), ("LD_PRELOAD", "/x.so"), ("PATH", "/evil"), ("LC_ALL", "de"), ("LANG", "de")]),
        "/bin",
    );
    let map = env_map(&env);
    assert_eq!(map.len(), 3);
    assert_eq!(map["LANG"], "de");
    assert_eq!(map["LC_ALL"], "de");
    assert_eq!(map["PATH"], "/bin");
}

#[test]
fn variables_of_root() {
    let mut env = Environment::new();
    apply_root_env(&mut env, None);
    let map = env_map(&env);
    assert_eq!(map["HOME"], "/root");
    assert_eq!(map["USER"], "root");
    assert_eq!(map["LOGNAME"], "root");
    apply_root_env(&mut env, text("/var/root"));
    assert_eq!(env_map(&env)["HOME"], "/var/root");
}

fn me() -> Caller {
    Caller {
        uid: 1000,
        name: "me".to_string(),
        home: b"/home/me".to_vec(),
        shell: b"/bin/sh".to_vec(),
        gid: 100,
        groups: vec![100, 27],
    }
}

fn no_session() -> SessionVars {
    SessionVars {
        mail: false,
        xdg_runtime_dir: None,
        display: None,
        xauthority: None,
        wayland_display: None,
        dbus_session_bus_address: None,
    }
}

#[test]
fn variables_of_the_caller() {
    let mut env = sanitize_env(&inherited(&[("LANG", "C"), ("USER", "root")]), "/bin");
    apply_caller_env(&mut env, &me(), &no_session());
    let map = env_map(&env);
    assert_eq!(map.len(), 11);
    assert_eq!(map["HOME"], "/home/me");
    assert_eq!(map["USER"], "me");
    assert_eq!(map["LOGNAME"], "me");
    assert_eq!(map["SHELL"], "/bin/sh");
    assert_eq!(map["PATH"], "/bin");
    assert_eq!(map["XDG_RUNTIME_DIR"], "/run/user/1000");
    assert_eq!(map["DISPLAY"], ":0");
    assert_eq!(map["XAUTHORITY"], "/home/me/.Xauthority");
    assert_eq!(map["WAYLAND_DISPLAY"], "wayland-0");
    assert_eq!(map["DBUS_SESSION_BUS_ADDRESS"], "unix:path=/run/user/1000/bus");
    assert!(!map.contains_key("MAIL"));
}

#[test]
fn session_variables_that_were_inherited_stay() {
    let mut env = Environment::new();
    let session = SessionVars {
        mail: true,
        xdg_runtime_dir: bytes("/tmp/run"),
        display: bytes(":7"),
        xauthority: bytes("/tmp/xauth"),
        wayland_display: bytes("wayland-9"),
        dbus_session_bus_address: bytes("unix:path=/tmp/bus"),
    };
    apply_caller_env(&mut env, &me(), &session);
    let map = env_map(&env);
    assert_eq!(map["MAIL"], "/var/mail/me");
    assert_eq!(map["XDG_RUNTIME_DIR"], "/tmp/run");
    assert_eq!(map["DISPLAY"], ":7");
    assert_eq!(map["XAUTHORITY"], "/tmp/xauth");
    assert_eq!(map["WAYLAND_DISPLAY"], "wayland-9");
    assert_eq!(map["DBUS_SESSION_BUS_ADDRESS"], "unix:path=/tmp/bus");
}

#[test]
fn values_that_are_no_text_stay() {
    let value = |env: &Environment, key: &str| env.vars.iter().rev().find(|v| v.0 == key).unwrap().1.clone();
    let mut env = Environment::new();
    let session = SessionVars { display: Some(vec![0xff, b':']), xauthority: Some(vec![]), ..no_session() };
    let who = Caller { home: vec![b'/', 0xfe], ..me() };
    apply_caller_env(&mut env, &who, &session);
    assert_eq!(value(&env, "DISPLAY"), vec![0xff, b':']);
    assert!(value(&env, "XAUTHORITY").is_empty());
    assert_eq!(value(&env, "HOME"), vec![b'/', 0xfe]);
    apply_caller_env(&mut env, &who, &no_session());
    assert_eq!(value(&env, "XAUTHORITY"), [&[b'/', 0xfe][..], b"/.Xauthority"].concat());
}

#[test]
fn other_variables_stay() {
    let mut env = sanitize_env(&inherited(&[("LANG", "C"), ("TZ", "UTC")]), "/bin");
    apply_caller_env(&mut env, &me(), &no_session());
    let map = env_map(&env);
    assert_eq!((map["LANG"].as_str(), map["TZ"].as_str(), map["PATH"].as_str()), ("C", "UTC", "/bin"));
}

fn entry(dir: &str, facts: Option<(bool, u32, u32)>) -> PathEntry {
    PathEntry {
        dir: dir.to_string(),
        facts: facts.map(|(is_dir, uid, mode)| DirFacts { is_dir, uid, mode }),
    }
}

const DEFAULT: &str = "/usr/local/sbin:/usr/local/bin:/usr/sbin:/usr/bin:/sbin:/bin";

#[test]
fn search_path_is_absolute() {
    assert_eq!(path_dirs("/bin::.:/sbin"), vec!["/bin", "", ".", "/sbin"]);
    let entries: Vec<PathEntry> = path_dirs("/bin::.:bin:/sbin").iter().map(|d| entry(d, None)).collect();
    assert_eq!(clean_path(&entries, false), "/bin:/sbin");
    assert_eq!(clean_path(&entries, true), DEFAULT);
    assert_eq!(clean_path(&vec![], false), DEFAULT);
    assert_eq!(clean_path(&vec![entry("", None)], false), DEFAULT);
}

#[test]
fn search_path_of_root_is_roots_own() {
    let entries = vec![
        entry("/bin", Some((true, 0, 0o40755))),
        entry("/home/me/bin", Some((true, 1000, 0o40755))),
        entry("/tmp", Some((true, 0, 0o41777))),
        entry("/opt/group", Some((true, 0, 0o40775))),
        entry("/bin/sh", Some((false, 0, 0o100755))),
        entry("/gone", None),
        entry("/sbin", Some((true, 0, 0o40555))),
    ];
    assert_eq!(clean_path(&entries, true), "/bin:/sbin");
    assert_eq!(clean_path(&entries, false), "/bin:/home/me/bin:/tmp:/opt/group:/bin/sh:/gone:/sbin");
}

#[test]
fn caller_by_the_variables_of_sudo() {
    assert_eq!(sudo_ids(text("1000"), text("100")), Ok((1000, 100)));
    assert_eq!(sudo_ids(text("1000"), text("0")), Ok((1000, 0)));
    assert_eq!(sudo_ids(None, None), Err(CallerError::UidNotSet));
    assert_eq!(sudo_ids(text("me"), None), Err(CallerError::UidNotANumber));
    assert_eq!(sudo_ids(text("0"), None), Err(CallerError::GidNotSet));
    assert_eq!(sudo_ids(text("1"), text("-1")), Err(CallerError::GidNotANumber));
    assert_eq!(sudo_ids(text("0"), text("0")), Err(CallerError::IsRoot));
    assert_eq!(sudo_ids(text("+0"), text("5")), Err(CallerError::IsRoot));
}

fn user(name: &str) -> UserEntry {
    UserEntry { uid: 1000, name: name.to_string(), home: b"/home/me".to_vec(), shell: b"/bin/sh".to_vec() }
}

#[test]
fn users_the_host_knows() {
    assert_eq!(known_user(7, Lookup::Failed).unwrap_err(), CallerError::LookupFailed);
    assert_eq!(known_user(7, Lookup::Missing).unwrap_err(), CallerError::NoEntry(7));
    assert_eq!(known_user(7, Lookup::Found(user("a\0b"))).unwrap_err(), CallerError::NameHasNul);
    assert_eq!(known_user(1000, Lookup::Found(user("me"))).unwrap().name, "me");
}

#[test]
fn groups_of_the_caller() {
    let c = sudo_caller(user("me"), 100, Some(vec![100, 27])).unwrap();
    assert_eq!((c.uid, c.gid, c.name.as_str(), c.home.as_slice()), (1000, 100, "me", &b"/home/me"[..]));
    assert_eq!(c.groups, vec![100, 27]);
    assert_eq!(c.shell, b"/bin/sh");
    assert_eq!(sudo_caller(user("me"), 100, None).unwrap_err(), CallerError::NoGroups);
}

#[test]
fn what_is_said_of_a_missing_caller() {
    assert_eq!(
        CallerError::UidNotSet.message(),
        "SUDO_UID not set — run this via `sudo` from your own user account"
    );
    assert_eq!(CallerError::UidNotANumber.message(), "parse SUDO_UID");
    assert_eq!(CallerError::GidNotSet.message(), "SUDO_GID not set");
    assert_eq!(CallerError::GidNotANumber.message(), "parse SUDO_GID");
    assert_eq!(
        CallerError::IsRoot.message(),
        "refusing to run this command as root; invoke sudo from a normal user account"
    );
    assert_eq!(CallerError::LookupFailed.message(), "look up SUDO_UID");
    assert_eq!(CallerError::NoEntry(1234).message(), "no passwd entry for uid 1234");
    assert_eq!(CallerError::NameHasNul.message(), "user name contains NUL");
    assert_eq!(CallerError::NoGroups.message(), "getgrouplist");
}

#[test]
fn caller_in_three_parts() {
    let (uid, gid) = sudo_ids(text("1000"), text("100")).unwrap();
    let who = known_user(uid, Lookup::Found(user("me"))).unwrap();
    let c = sudo_caller(who, gid, Some(vec![27])).unwrap();
    assert_eq!((c.uid, c.gid), (1000, 100));
}

fn entering() -> Vec<ChildOp> {
    vec![
        ChildOp::EnterNamespace { path: "/var/run/netns/ns".to_string() },
        ChildOp::UnshareMounts,
        ChildOp::MakeMountsPrivate,
        ChildOp::BindResolvConf {
            source: "/etc/netns/ns/resolv.conf".to_string(),
            target: "/etc/resolv.conf".to_string(),
        },
    ]
}

#[test]
fn child_gives_up_root_last() {
    let mut expected = entering();
    expected.extend([
        ChildOp::DropBoundingSet,
        ChildOp::SetGroups { groups: vec![100, 27] },
        ChildOp::SetGid { gid: 100 },
        ChildOp::SetUid { uid: 1000 },
        ChildOp::LockDown,
        ChildOp::Detach,
    ]);
    assert_eq!(child_setup("ns", ExecOpts::caller(true), &Some(me())), Some(expected));
    assert_eq!(child_setup("ns", ExecOpts::caller(false), &Some(me())).unwrap().len(), 9);
    assert_eq!(child_setup("ns", ExecOpts::root(), &None), Some(entering()));
    assert_eq!(child_setup("ns", ExecOpts::root(), &Some(me())), Some(entering()));
}

#[test]
fn no_command_for_a_caller_who_is_not_known() {
    assert_eq!(child_setup("ns", ExecOpts::caller(false), &None), None);
    assert_eq!(child_setup("ns", ExecOpts::caller(true), &None), None);
}

/// Takes `count` steps of which the one at `failing` fails, and tells which were taken.
fn taken(count: usize, failing: usize) -> (Vec<usize>, Progress) {
    let mut done = vec![];
    let mut progress = first_step(count);
    while let Progress::Take(i) = progress {
        done.push(i);
        progress = on_step(count, i, i != failing);
    }
    (done, progress)
}

#[test]
fn steps_end_with_a_failure() {
    assert_eq!(taken(0, 0), (vec![], Progress::Complete));
    assert_eq!(taken(4, 9), (vec![0, 1, 2, 3], Progress::Complete));
    assert_eq!(taken(4, 0), (vec![0], Progress::Failed));
    assert_eq!(taken(4, 2), (vec![0, 1, 2], Progress::Failed));
    assert_eq!(taken(4, 3), (vec![0, 1, 2, 3], Progress::Failed));
}

#[test]
fn command_starts_only_after_every_step() {
    let count = child_setup("ns", ExecOpts::caller(true), &Some(me())).unwrap().len();
    for failing in 0..count {
        assert_eq!(taken(count, failing).1, Progress::Failed);
    }
    assert_eq!(taken(count, count).1, Progress::Complete);
}

#[test]
fn plans_for_commands() {
    let words = vec!["wg-quick".to_string(), "up".to_string(), "wg0".to_string()];
    let plan = exec_in("ns", &words, ExecOpts::root()).unwrap();
    assert_eq!(plan.program, "wg-quick");
    assert_eq!(plan.args, vec!["up", "wg0"]);
    assert_eq!(
        plan.steps,
        vec![
            ExecStep::OpenNamespace { path: "/var/run/netns/ns".to_string() },
            ExecStep::PrepareResolvConf {
                dir: "/etc/netns/ns".to_string(),
                file: "/etc/netns/ns/resolv.conf".to_string(),
            },
            ExecStep::SanitizeEnv { as_root: true },
            ExecStep::ApplyRootEnv,
            ExecStep::Spawn,
        ]
    );
    let plan = exec_in("ns", &words[..1].to_vec(), ExecOpts::caller(true)).unwrap();
    assert!(plan.args.is_empty());
    assert_eq!(
        plan.steps[2..],
        [
            ExecStep::SanitizeEnv { as_root: false },
            ExecStep::ResolveCaller,
            ExecStep::ApplyCallerEnv,
            ExecStep::NullStdio,
            ExecStep::Spawn,
        ]
    );
    assert_eq!(exec_in("ns", &vec![], ExecOpts::root()).unwrap_err(), "no command given");
}

#[test]
fn exit_codes() {
    assert_eq!(exit_code(false, Some(3), None), 3);
    assert_eq!(exit_code(false, Some(0), Some(9)), 0);
    assert_eq!(exit_code(false, None, Some(9)), 137);
    assert_eq!(exit_code(false, None, None), 1);
    assert_eq!(exit_code(true, Some(3), None), 0);
}

fn drop_all(kernel: &dyn Fn(u64) -> Option<i32>) -> (Vec<u64>, CapAction) {
    let mut dropped = vec![];
    let mut action = drop_bounding_set();
    loop {
        match action {
            CapAction::Drop(cap) => {
                let error = kernel(cap);
                if error.is_none() {
                    dropped.push(cap);
                }
                action = on_cap_dropped(cap, error);
            }
            end => return (dropped, end),
        }
    }
}

#[test]
fn all_known_capabilities_are_dropped() {
    let (dropped, end) = drop_all(&|cap| if cap < 41 { None } else { Some(22) });
    assert_eq!(dropped, (0..41).collect::<Vec<u64>>());
    assert_eq!(end, CapAction::Done);
    let (dropped, end) = drop_all(&|_| None);
    assert_eq!(dropped.len(), 64);
    assert_eq!(end, CapAction::Done);
    let (dropped, end) = drop_all(&|cap| if cap < 3 { None } else { Some(1) });
    assert_eq!(dropped.len(), 3);
    assert_eq!(end, CapAction::Fail(1));
}

#[test]
fn lock_down_makes_sure() {
    assert_eq!(lock_down(), LockAction::ClearAmbient);
    assert_eq!(on_locked(LockAction::ClearAmbient, None), LockAction::ForbidNewPrivileges);
    assert_eq!(on_locked(LockAction::ClearAmbient, Some(5)), LockAction::Fail(5));
    assert_eq!(on_locked(LockAction::ForbidNewPrivileges, None), LockAction::TryRoot);
    assert_eq!(on_locked(LockAction::ForbidNewPrivileges, Some(6)), LockAction::Fail(6));
    assert_eq!(on_locked(LockAction::TryRoot, Some(1)), LockAction::Done);
    assert_eq!(on_locked(LockAction::TryRoot, None), LockAction::Fail(1));
}

#[test]
fn dividing_processes() {
    assert_eq!(on_forked(-1), ForkAction::Fail);
    assert_eq!(on_forked(0), ForkAction::NewSession);
    assert_eq!(on_forked(4711), ForkAction::Exit);
}
