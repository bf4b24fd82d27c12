use fishnet::cli::{
    down, namespace_line, probe_command, probe_line, process_count_line, ps_lines, up, up_message,
    status_probe, uplink_line, veth_line, vpn_line, Task, TaskStep,
};
use fishnet::exec::{ExecOpts, RunAs};
use fishnet::kill::{
    kill_all, on_clock, on_listed, on_paused, on_signalled, KillAction, Looking, Paused, Signalled,
};
use fishnet::netns::{
    child_exit_code, child_made_it, create, delete, ensure_netns_resolv_conf, is_mountpoint, netns_etc,
    ns_path, on_deleted, resolv_conf, unescape, CreateAction, DeleteAction, MakerStep, WaitOutcome,
};
use fishnet::plan::{first_step, on_step, Progress};
use fishnet::process::{
    candidate_pids, command, command_args, command_text, parent, pids_in_netns, processes, FileId,
    NsProcess, ProcessFacts,
};
use fishnet::sysctl::{
    enable_ip_forward, restore_end, restore_ip_forward, FileAction, FileStep, RestoreEnd,
};

fn owned(list: &[&str]) -> Vec<String> {
    list.iter().map(|s| s.to_string()).collect()
}

const V4: &str = "/proc/sys/net/ipv4/ip_forward";
const V6: &str = "/proc/sys/net/ipv6/conf/all/forwarding";

fn written(steps: &[FileStep]) -> Vec<(&str, &str)> {
    steps
        .iter()
        .filter_map(|s| match &s.action {
            FileAction::Write { path, contents } => Some((path.as_str(), contents.as_str())),
            _ => None,
        })
        .collect()
}

#[test]
fn forwarding_is_saved_then_enabled() {
    let steps = enable_ip_forward(false, Some("0\n".to_string()), Some("1\n".to_string())).unwrap();
    assert_eq!(steps.len(), 5);
    assert!(matches!(&steps[0].action, FileAction::MakeDirs { path } if path == "/run/fishnet"));
    assert!(matches!(&steps[1].action, FileAction::SetMode { path, mode: 0o700 } if path == "/run/fishnet"));
    let saved = format!("{V4}=0\n{V6}=1\n");
    assert_eq!(
        written(&steps),
        vec![("/run/fishnet/sysctl.saved", saved.as_str()), (V4, "1"), (V6, "1")]
    );
    assert_eq!(steps[0].context, "mkdir /run/fishnet");
    assert_eq!(steps[3].context, format!("enable {V4}"));
}

#[test]
fn saved_settings_are_not_overwritten() {
    let steps = enable_ip_forward(true, None, None).unwrap();
    assert_eq!(written(&steps), vec![(V4, "1"), (V6, "1")]);
    assert_eq!(steps.len(), 2);
}

#[test]
fn unreadable_settings_are_told() {
    assert_eq!(enable_ip_forward(false, None, None).unwrap_err(), format!("read {V4}"));
    assert_eq!(
        enable_ip_forward(false, Some("0".to_string()), None).unwrap_err(),
        format!("read {V6}")
    );
}

#[test]
fn restoring_gives_the_settings_back() {
    let steps = enable_ip_forward(false, Some(" 1\n".to_string()), Some("0\n".to_string())).unwrap();
    let saved = written(&steps)[0].1.to_string();
    let back = restore_ip_forward(Some(saved)).unwrap();
    assert_eq!(written(&back), vec![(V4, "1"), (V6, "0")]);
    assert_eq!(back[1].context, format!("restore {V6}"));
}

#[test]
fn restoring_gives_back_every_number() {
    for old in ["2", "-1", "0", "1", "2147483647"] {
        let steps = enable_ip_forward(false, Some("0\n".to_string()), Some(format!("{old}\n"))).unwrap();
        let saved = written(&steps)[0].1.to_string();
        assert_eq!(saved, format!("{V4}=0\n{V6}={old}\n"));
        let back = restore_ip_forward(Some(saved)).unwrap();
        assert_eq!(written(&back), vec![(V4, "0"), (V6, old)]);
    }
}

#[test]
fn restoring_writes_nothing_else() {
    assert!(restore_ip_forward(None).is_none());
    let text = format!("/etc/passwd=1\n{V4}=on\n{V4}=1=1\nno sign\n={V4}\n{V4}=\n{V6}=0\r\n{V4}=1");
    let back = restore_ip_forward(Some(text)).unwrap();
    assert_eq!(written(&back), vec![(V6, "0"), (V4, "1")]);
}

#[test]
fn restoring_ends_with_the_last_failure() {
    assert_eq!(restore_end(&vec![]), RestoreEnd::RemoveState);
    assert_eq!(restore_end(&vec![false, false]), RestoreEnd::RemoveState);
    assert_eq!(restore_end(&vec![true, false]), RestoreEnd::Failed(0));
    assert_eq!(restore_end(&vec![true, true]), RestoreEnd::Failed(1));
}

#[test]
fn namespace_paths() {
    assert_eq!(ns_path("fishnetns"), "/var/run/netns/fishnetns");
    assert_eq!(netns_etc("fishnetns"), "/etc/netns/fishnetns");
    assert_eq!(resolv_conf("fishnetns"), "/etc/netns/fishnetns/resolv.conf");
}

#[test]
fn mount_points_by_the_table() {
    let table = "36 25 0:4 / /run/netns rw shared:5 - tmpfs tmpfs rw\n37 25 0:4 / /proc rw - proc proc rw\nshort line\n";
    let ask = |p: &str| is_mountpoint(Some(p.to_string()), Some(table.to_string()));
    assert!(ask("/run/netns"));
    assert!(ask("/proc"));
    assert!(!ask("/run"));
    assert!(!ask("/"));
    assert!(!is_mountpoint(None, Some(table.to_string())));
    assert!(!is_mountpoint(Some("/proc".to_string()), None));
}

#[test]
fn mount_points_with_white_space() {
    let line = |field: &str| format!("36 25 0:4 / {field} rw shared:5 - tmpfs tmpfs rw\n");
    let ask = |field: &str, p: &str| is_mountpoint(Some(p.to_string()), Some(line(field)));
    assert!(ask("/a\\040b", "/a b"));
    assert!(ask("/a\\011b", "/a\tb"));
    assert!(ask("/a\\012b", "/a\nb"));
    assert!(ask("/a\\134b", "/a\\b"));
    assert!(ask("/a\\134040b", "/a\\040b"));
    assert!(ask("/a\u{a0}b", "/a\u{a0}b"));
    assert!(!ask("/a\\040b", "/a\\040b"));
    assert!(!ask("/a\\040b", "/a"));
    assert_eq!(unescape("\\040x\\0\\777\\"), " x\\0\\777\\");
}

#[test]
fn making_a_namespace() {
    let steps = create("fishnetns", false);
    assert_eq!(
        steps.iter().map(|s| s.context.as_str()).collect::<Vec<_>>(),
        vec![
            "mkdir /var/run/netns",
            "bind mount /var/run/netns",
            "mark /var/run/netns private",
            "create netns file",
            "child failed to create namespace",
        ]
    );
    match &steps[4].action {
        CreateAction::MakeNamespace { steps } => assert_eq!(
            *steps,
            vec![
                MakerStep::UnshareNetwork,
                MakerStep::Bind {
                    source: "/proc/self/ns/net".to_string(),
                    target: "/var/run/netns/fishnetns".to_string(),
                },
            ]
        ),
        other => panic!("{:?}", other),
    }
    let again = create("fishnetns", true);
    assert_eq!(again.len(), 3);
    assert!(!again.iter().any(|s| matches!(s.action, CreateAction::BindSelf { .. })));
}

#[test]
fn making_and_removing_a_namespace() {
    let (mut on_file, mut on_dir) = (0, 0);
    for turn in 1..4 {
        for step in create("fishnetns", on_dir > 0) {
            match step.action {
                CreateAction::BindSelf { path } => {
                    assert_eq!(path, "/var/run/netns");
                    on_dir += 1;
                }
                CreateAction::MakeNamespace { .. } => on_file += 1,
                _ => {}
            }
        }
        assert_eq!((on_file, on_dir), (turn, 1));
    }
}

#[test]
fn child_tells_its_parent() {
    for (unshared, bound) in [(true, true), (true, false), (false, true), (false, false)] {
        let results = [unshared, bound];
        let mut end = first_step(2);
        while let Progress::Take(i) = end {
            end = on_step(2, i, results[i]);
        }
        assert_eq!(child_made_it(WaitOutcome::Exited(child_exit_code(end))), unshared && bound);
    }
    assert!(!child_made_it(WaitOutcome::Exited(2)));
    assert!(!child_made_it(WaitOutcome::Other));
}

#[test]
fn removing_a_namespace_leaves_nothing() {
    for (mut file, mut on_file, mut on_dir) in [(true, 1, 1), (true, 3, 2), (false, 0, 0), (false, 0, 4)] {
        let mut step = delete();
        let mut turns = 0;
        while step != DeleteAction::Done {
            turns += 1;
            assert!(turns < 50);
            let yes = match step {
                DeleteAction::CheckFile => file,
                DeleteAction::UnmountFile if on_file > 0 => {
                    on_file -= 1;
                    true
                }
                DeleteAction::UnmountFile => false,
                DeleteAction::RemoveFile => {
                    file = false;
                    true
                }
                DeleteAction::CheckDir => on_dir > 0,
                DeleteAction::UnmountDir => {
                    on_dir -= 1;
                    true
                }
                DeleteAction::Done => unreachable!(),
            };
            step = on_deleted(step, yes);
        }
        assert!(!file);
        assert_eq!((on_file, on_dir), (0, 0));
    }
    assert_eq!(on_deleted(DeleteAction::UnmountDir, false), DeleteAction::Done);
}

#[test]
fn name_server_file_is_seeded_once() {
    assert_eq!(ensure_netns_resolv_conf(true, Some(vec![1])), None);
    assert_eq!(ensure_netns_resolv_conf(false, Some(vec![1, 2])), Some(vec![1, 2]));
    assert_eq!(ensure_netns_resolv_conf(false, None), Some(vec![]));
}

#[test]
fn candidates_are_the_other_processes() {
    let names = owned(&["1", "self", "42", "7", "sys", "", "99999999999"]);
    assert_eq!(candidate_pids(&names, 42), vec![1, 7]);
}

#[test]
fn processes_of_the_namespace_are_told_by_its_file() {
    let ns = FileId { dev: 4, ino: 77 };
    let other = FileId { dev: 4, ino: 78 };
    let found = vec![(5, Some(ns)), (6, Some(other)), (7, None), (3, Some(ns)), (8, Some(FileId { dev: 5, ino: 77 }))];
    assert_eq!(pids_in_netns(&found, Some(ns)), vec![5, 3]);
    assert!(pids_in_netns(&found, None).is_empty());
}

#[test]
fn command_lines_in_words() {
    assert_eq!(command_args(&b"curl\0-s\0\0x\0".to_vec()), vec![b"curl".to_vec(), b"-s".to_vec(), b"x".to_vec()]);
    assert!(command_args(&b"\0\0".to_vec()).is_empty());
    assert_eq!(command_text(&owned(&["a", "b"])), Some("a b".to_string()));
    assert_eq!(command_text(&vec![]), None);
    assert_eq!(command(&Some(b"fire\xfffox\0--new\0".to_vec()), &None), Some("fire\u{fffd}fox --new".to_string()));
    assert_eq!(command(&Some("größe\0".as_bytes().to_vec()), &None), Some("größe".to_string()));
    assert_eq!(command(&Some(vec![]), &Some("kworker\n".to_string())), Some("[kworker]".to_string()));
    assert_eq!(command(&None, &Some("sh\n".to_string())), Some("[sh]".to_string()));
    assert_eq!(command(&None, &None), None);
}

#[test]
fn parents_from_the_status() {
    assert_eq!(parent("Name:\tsh\nPid:\t7\nPPid:\t1\nPPid:\t2\n"), Some(1));
    assert_eq!(parent("Name:\tsh\n"), None);
    assert_eq!(parent("PPid:\tx\nPPid:\t2\n"), None);
}

fn facts(pid: i32, cmdline: &str) -> ProcessFacts {
    ProcessFacts {
        pid,
        uid: Some(1000),
        user: None,
        status: Some(format!("Name:\tx\nPPid:\t{}\n", pid - 1)),
        cmdline: Some(cmdline.as_bytes().to_vec()),
        comm: None,
    }
}

#[test]
fn processes_come_by_rising_numbers() {
    let list = processes(&vec![
        facts(30, "c\0"),
        facts(10, "a\0"),
        ProcessFacts { uid: None, ..facts(15, "gone\0") },
        ProcessFacts { status: None, ..facts(16, "gone\0") },
        ProcessFacts { cmdline: None, ..facts(17, "") },
        facts(20, "first\0"),
        ProcessFacts { user: Some("me".to_string()), ..facts(20, "second\0") },
    ]);
    let seen: Vec<_> = list.iter().map(|p| (p.pid, p.ppid, p.user.as_str(), p.cmd.as_str())).collect();
    assert_eq!(
        seen,
        vec![(10, 9, "1000", "a"), (20, 19, "1000", "first"), (20, 19, "me", "second"), (30, 29, "1000", "c")]
    );
}

/// Runs the ending of processes on a host that answers with these lists and clock readings, and
/// tells which signals were sent.
fn run_kill(lists: &[&[i32]], clock: &[u64]) -> Vec<(i32, Vec<i32>)> {
    let mut lists = lists.iter();
    let mut clock = clock.iter();
    let mut sent = vec![];
    let mut action = kill_all();
    loop {
        action = match action {
            KillAction::List(why) => on_listed(why, lists.next().unwrap().to_vec()),
            KillAction::Signal { signal, pids, as_part } => {
                sent.push((signal, pids));
                on_signalled(as_part)
            }
            KillAction::StartClock | KillAction::ReadClock => on_clock(*clock.next().unwrap()),
            KillAction::Pause { ms, why } => {
                assert_eq!(ms, 100);
                on_paused(why)
            }
            KillAction::Done => return sent,
        };
    }
}

#[test]
fn nothing_to_end() {
    assert!(run_kill(&[&[], &[]], &[]).is_empty());
}

#[test]
fn processes_that_end_when_asked() {
    assert_eq!(run_kill(&[&[4, 5], &[5], &[], &[]], &[0, 100]), vec![(15, vec![4, 5])]);
}

#[test]
fn processes_that_must_be_killed() {
    assert_eq!(
        run_kill(&[&[4], &[4], &[4], &[4, 6], &[7], &[]], &[0, 1999, 2000]),
        vec![(15, vec![4]), (9, vec![4, 6]), (9, vec![7])]
    );
}

#[test]
fn five_sweeps_at_most() {
    let sent = run_kill(&[&[1], &[1], &[1], &[1], &[1], &[1]], &[2000]);
    assert_eq!(sent.len(), 6);
    assert!(sent[1..].iter().all(|s| s.0 == 9));
}

#[test]
fn steps_of_the_ending() {
    assert!(matches!(on_listed(Looking::Waiting, vec![1]), KillAction::Pause { why: Paused::Waiting, .. }));
    assert!(matches!(on_signalled(Signalled::Asked), KillAction::StartClock));
    assert!(matches!(on_paused(Paused::Sweep(3)), KillAction::List(Looking::Sweep(4))));
    assert!(matches!(on_paused(Paused::Sweep(4)), KillAction::Done));
}

#[test]
fn parts_of_up_and_down() {
    let tasks: Vec<Task> = down().iter().map(|s| s.task).collect();
    assert_eq!(
        tasks,
        vec![Task::KillAll, Task::TeardownFirewall, Task::TeardownHostSide, Task::DeleteNamespace]
    );
    assert_eq!(down().iter().map(|s| s.must_succeed).collect::<Vec<_>>(), vec![false, false, false, true]);
    let fresh = up(false, false, false);
    assert_eq!(
        fresh.iter().map(|s| s.task).collect::<Vec<_>>(),
        vec![
            Task::CreateNamespace,
            Task::SetupHostSide,
            Task::DetectUplink,
            Task::EnableForwarding,
            Task::SetupNat,
            Task::SetupNsSide,
        ]
    );
    assert!(fresh.iter().all(|s| s.must_succeed));
    let rebuild = up(true, false, false);
    assert_eq!(up(false, true, false), rebuild);
    assert_eq!(up(false, false, true), rebuild);
    assert_eq!(up(true, true, true), rebuild);
    assert_eq!(rebuild[..4], down()[..]);
    assert_eq!(rebuild[4..], fresh[..]);
}

fn tried(steps: &[TaskStep], failing: &[Task]) -> Vec<Task> {
    let mut done = Vec::new();
    for step in steps {
        done.push(step.task);
        if !step.goes_on(!failing.contains(&step.task)) {
            break;
        }
    }
    done
}

#[test]
fn down_goes_on_and_up_stops() {
    let all = [Task::KillAll, Task::TeardownFirewall, Task::TeardownHostSide, Task::DeleteNamespace];
    assert_eq!(tried(&down(), &all), all);
    assert_eq!(tried(&down(), &[]), all);
    assert_eq!(tried(&up(false, false, false), &[Task::SetupHostSide]), [Task::CreateNamespace, Task::SetupHostSide]);
    assert_eq!(tried(&up(true, true, false), &[Task::TeardownFirewall]).len(), 10);
    assert_eq!(tried(&up(true, true, false), &[Task::DeleteNamespace]), all);
}

#[test]
fn probe_runs_as_the_caller() {
    assert_eq!(status_probe(false), None);
    assert_eq!(status_probe(true), Some(ExecOpts { run_as: RunAs::Caller, detach: false }));
}

#[test]
fn what_the_program_says() {
    assert_eq!(up_message("eth0"), "fishnetns is up, routed to the internet via eth0.");
    assert_eq!(namespace_line(true), "fishnetns is up.");
    assert_eq!(namespace_line(false), "fishnetns is down.");
    assert_eq!(veth_line(true), "veth (vh0): up");
    assert_eq!(veth_line(false), "veth (vh0): missing");
    assert_eq!(uplink_line(Ok("eth0".to_string())), "uplink: eth0");
    assert_eq!(uplink_line(Err("why".to_string())), "uplink: unknown (why)");
    assert_eq!(vpn_line(true), "vpn: connected (default route left the NAT fallback)");
    assert_eq!(vpn_line(false), "vpn: NOT connected — exec is blocked (kill switch)");
    assert_eq!(process_count_line(12), "processes: 12");
    assert_eq!(probe_command(), owned(&["curl", "-s", "--max-time", "3", "-4", "ifconfig.me"]));
    assert_eq!(probe_line(Ok(0)), None);
    assert_eq!(probe_line(Ok(28)), Some("(reachability check failed: curl exited with 28)".to_string()));
    assert_eq!(
        probe_line(Err("gone".to_string())),
        Some("(couldn't reach the internet from inside fishnetns: gone)".to_string())
    );
}

#[test]
fn lists_of_processes() {
    let long = "x".repeat(100);
    let list = vec![
        NsProcess { pid: 7, ppid: 1, user: "me".to_string(), cmd: "curl -s".to_string() },
        NsProcess { pid: 8, ppid: 7, user: "me".to_string(), cmd: long.clone() },
    ];
    assert_eq!(
        ps_lines(&list, true),
        vec!["PID\tPPID\tUSER\tCOMMAND".to_string(), "7\t1\tme\tcurl -s".to_string(), format!("8\t7\tme\t{long}")]
    );
    assert_eq!(ps_lines(&list, false)[2], format!("8\t7\tme\t{}", "x".repeat(60)));
}
