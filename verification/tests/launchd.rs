use daemon_green::effect::{Effect, Invocation, Outcome, Reply};
use daemon_green::launchd::{
    default_log, gui_session, gui_session_active, gui_target, launchctl, launchctl_extract_stdout,
    parse_print, path_in_output, plist_path, Launch, LaunchdAgent,
};
use daemon_green::render::launchd_plist;
use daemon_green::service::{Error, ServiceSpec, ServiceStatus};
use daemon_green::session::Session;

const PLIST: &str = "/Users/u/Library/LaunchAgents/com.x.plist";
const LOG: &str = "/Users/u/Library/Logs/com.x.log";

fn login() -> Session {
    Session {
        uid: 501,
        home: Some("/Users/u".to_string()),
        runtime_dir: None,
        bus_address: None,
        user: None,
        logname: None,
    }
}

fn ended(code: Option<i32>, stdout: &[u8], stderr: &[u8]) -> Reply {
    Reply::Ran(Outcome::Exited {
        code,
        stdout: stdout.to_vec(),
        stderr: stderr.to_vec(),
    })
}

fn good() -> Reply {
    ended(Some(0), b"", b"")
}

fn bad() -> Reply {
    ended(Some(5), b"", b" Input/output error \n")
}

fn missing() -> Reply {
    Reply::Ran(Outcome::NotStarted {
        error: "not found".to_string(),
    })
}

fn ctl(args: &[&str]) -> Effect {
    Effect::Run {
        command: Invocation::new("launchctl", args),
    }
}

fn print_session() -> Effect {
    ctl(&["print", "gui/501"])
}

fn bootout() -> Effect {
    ctl(&["bootout", "gui/501/com.x"])
}

fn probe() -> Effect {
    ctl(&["print", "gui/501/com.x"])
}

fn enable() -> Effect {
    ctl(&["enable", "gui/501/com.x"])
}

fn bootstrap() -> Effect {
    ctl(&["bootstrap", "gui/501", PLIST])
}

fn asuser() -> Effect {
    ctl(&["asuser", "501", "launchctl", "bootstrap", "gui/501", PLIST])
}

fn kick() -> Effect {
    ctl(&["kickstart", "-k", "gui/501/com.x"])
}

fn look_for(path: &str) -> Effect {
    Effect::Exists {
        path: path.to_string(),
    }
}

/// Brings an agent up against the given effects and replies, and gives the outcome.
fn play_launch(launch: Launch, script: Vec<(Effect, Reply)>) -> Result<(), Error> {
    let mut launch = launch;
    for (effect, reply) in script {
        assert!(launch.outcome().is_none());
        assert_eq!(launch.pending(), Some(effect));
        launch = launch.resume(reply);
    }
    assert_eq!(launch.pending(), None);
    launch.outcome().expect("the launch has ended")
}

fn up_to_load() -> Vec<(Effect, Reply)> {
    vec![
        (look_for(PLIST), Reply::Flag(true)),
        (print_session(), good()),
        (bootout(), bad()),
        (Effect::StartTimer, Reply::Done),
        (probe(), bad()),
        (enable(), missing()),
    ]
}

#[test]
fn agents_have_their_places() {
    assert_eq!(plist_path(&login(), "com.x"), PLIST);
    assert_eq!(default_log(&login(), "com.x"), LOG);
    let mut s = login();
    s.home = None;
    assert_eq!(plist_path(&s, "com.x"), "Library/LaunchAgents/com.x.plist");
    assert_eq!(default_log(&s, "com.x"), "Library/Logs/com.x.log");
    assert_eq!(gui_session(501), "gui/501");
    assert_eq!(gui_target(0, "com.x"), "gui/0/com.x");
    assert_eq!(launchctl(&["list"]), Invocation::new("launchctl", &["list"]));
}

#[test]
fn install_adds_the_default_log() {
    let spec = ServiceSpec::new("com.x", "/bin/x");
    let mut plan = LaunchdAgent::new().install(&login(), &spec);
    let script = vec![
        (
            Effect::CreateParent {
                path: LOG.to_string(),
            },
            Reply::Failed("denied".to_string()),
        ),
        (
            Effect::CreateParent {
                path: PLIST.to_string(),
            },
            Reply::Done,
        ),
        (
            Effect::Write {
                path: PLIST.to_string(),
                contents: launchd_plist(&spec.clone().log_path(LOG)),
            },
            Reply::Done,
        ),
    ];
    for (effect, reply) in script {
        assert_eq!(plan.pending(), Some(effect));
        plan = plan.resume(reply);
    }
    assert_eq!(plan.pending(), None);
    assert_eq!(plan.outcome(), Some(Ok(())));
}

#[test]
fn install_keeps_a_log_that_is_set() {
    let spec = ServiceSpec::new("com.x", "/bin/x").log_path("/tmp/x.log");
    let plan = LaunchdAgent::new().install(&login(), &spec);
    assert_eq!(
        plan.pending(),
        Some(Effect::CreateParent {
            path: "/tmp/x.log".to_string()
        })
    );
    let plan = plan.resume(Reply::Done).resume(Reply::Done);
    assert_eq!(
        plan.pending(),
        Some(Effect::Write {
            path: PLIST.to_string(),
            contents: launchd_plist(&spec),
        })
    );
    let plan = plan.resume(Reply::Failed("disk full".to_string()));
    assert_eq!(
        plan.outcome(),
        Some(Err(Error::Io("disk full".to_string())))
    );
}

#[test]
fn start_loads_and_kicks() {
    let mut script = up_to_load();
    script.push((bootstrap(), good()));
    script.push((kick(), bad()));
    let start = LaunchdAgent::new().start(&login(), "com.x");
    assert_eq!(play_launch(start, script), Ok(()));
}

#[test]
fn start_needs_the_plist() {
    let start = LaunchdAgent::new().start(&login(), "com.x");
    let script = vec![(look_for(PLIST), Reply::Flag(false))];
    assert_eq!(
        play_launch(start, script),
        Err(Error::Command(
            "com.x: not installed (no plist at /Users/u/Library/LaunchAgents/com.x.plist). Call install() first.".to_string()
        ))
    );
}

#[test]
fn start_needs_a_graphical_session() {
    for reply in [bad(), missing(), ended(None, b"", b"")] {
        let start = LaunchdAgent::new().start(&login(), "com.x");
        let script = vec![
            (look_for(PLIST), Reply::Flag(true)),
            (print_session(), reply),
        ];
        assert_eq!(
            play_launch(start, script),
            Err(Error::Unsupported(
                "no active GUI login (gui/501 missing). Log in at the console once (or enable auto-login) — the agent needs the login session for the keychain.".to_string()
            ))
        );
    }
}

#[test]
fn start_waits_until_the_agent_is_gone() {
    let mut script = vec![
        (look_for(PLIST), Reply::Flag(true)),
        (print_session(), good()),
        (bootout(), good()),
        (Effect::StartTimer, Reply::Done),
    ];
    for ms in [0, 150, 300, 4999] {
        script.push((probe(), good()));
        script.push((Effect::ReadTimer, Reply::Elapsed(ms)));
        script.push((Effect::Sleep { millis: 150 }, Reply::Done));
    }
    script.push((probe(), missing()));
    script.push((enable(), good()));
    script.push((bootstrap(), good()));
    script.push((kick(), good()));
    let start = LaunchdAgent::new().start(&login(), "com.x");
    assert_eq!(play_launch(start, script), Ok(()));
}

#[test]
fn start_does_not_wait_for_ever() {
    for readings in [vec![5000], vec![4900, 5050], vec![0, 4999, u64::MAX]] {
        let mut script = vec![
            (look_for(PLIST), Reply::Flag(true)),
            (print_session(), good()),
            (bootout(), good()),
            (Effect::StartTimer, Reply::Done),
        ];
        for ms in readings {
            script.push((probe(), good()));
            script.push((Effect::ReadTimer, Reply::Elapsed(ms)));
            if ms < 5000 {
                script.push((Effect::Sleep { millis: 150 }, Reply::Done));
            }
        }
        let start = LaunchdAgent::new().start(&login(), "com.x");
        assert_eq!(
            play_launch(start, script),
            Err(Error::Command(
                "launchctl bootout gui/501/com.x: still loaded after 5 s, so it cannot be loaded again".to_string()
            ))
        );
    }
}

#[test]
fn start_does_not_take_another_reply_for_an_agent_that_is_gone() {
    let mut start = LaunchdAgent::new().start(&login(), "com.x");
    for reply in [Reply::Flag(true), good(), good(), Reply::Done] {
        start = start.resume(reply);
    }
    for reply in [
        Reply::Done,
        Reply::Flag(false),
        Reply::Failed("x".to_string()),
        Reply::Contents(String::new()),
        Reply::Elapsed(0),
    ] {
        assert_eq!(start.pending(), Some(probe()));
        start = start.resume(reply);
    }
    assert_eq!(start.pending(), Some(probe()));
    start = start.resume(bad());
    assert_eq!(start.pending(), Some(enable()));
}

#[test]
fn agents_await_replies_that_are_due() {
    let agent = LaunchdAgent::new();
    let status = agent.status(&login(), "com.x").resume(good());
    assert_eq!(status.pending(), Some(look_for(PLIST)));
    let status = status.resume(Reply::Flag(true)).resume(Reply::Flag(true));
    assert_eq!(status.pending(), Some(probe()));
    let logs = agent.logs(&login(), "com.x", 1);
    let extract = logs.pending();
    let logs = logs.resume(Reply::Done);
    assert_eq!(logs.pending(), extract);
    let logs = logs.resume(missing()).resume(Reply::Done);
    assert_eq!(logs.pending(), Some(look_for(LOG)));
    let logs = logs.resume(Reply::Flag(true)).resume(Reply::Done);
    assert_eq!(
        logs.pending(),
        Some(Effect::Read {
            path: LOG.to_string()
        })
    );
}

#[test]
fn start_tries_again_and_then_by_way_of_asuser() {
    for failures in 0..4 {
        let mut script = up_to_load();
        for _ in 0..failures {
            script.push((bootstrap(), bad()));
            script.push((Effect::Sleep { millis: 500 }, Reply::Done));
        }
        if failures < 3 {
            script.push((bootstrap(), good()));
        } else {
            script.push((asuser(), good()));
        }
        script.push((kick(), missing()));
        let start = LaunchdAgent::new().start(&login(), "com.x");
        assert_eq!(play_launch(start, script), Ok(()));
    }
}

#[test]
fn start_reports_the_last_failure() {
    for (third, last, expected) in [
        (bad(), ended(Some(1), b"", b" no \xff\n"), "no \u{fffd}"),
        (bad(), missing(), "Input/output error"),
        (missing(), missing(), "not found"),
    ] {
        let mut script = up_to_load();
        for reply in [missing(), bad(), third] {
            script.push((bootstrap(), reply));
            script.push((Effect::Sleep { millis: 500 }, Reply::Done));
        }
        script.push((asuser(), last));
        let start = LaunchdAgent::new().start(&login(), "com.x");
        assert_eq!(
            play_launch(start, script),
            Err(Error::Command(format!(
                "launchctl bootstrap gui/501 {PLIST} failed after retries + asuser: {expected}"
            )))
        );
    }
}

#[test]
fn stop_does_not_mind_an_agent_that_is_not_loaded() {
    for (reply, expected) in [
        (good(), Ok(())),
        (bad(), Ok(())),
        (ended(None, b"", b""), Ok(())),
        (
            missing(),
            Err(Error::Command("launchctl bootout: not found".to_string())),
        ),
    ] {
        let stop = LaunchdAgent::new().stop(&login(), "com.x");
        assert_eq!(stop.pending(), Some(bootout()));
        let stop = stop.resume(reply);
        assert_eq!(stop.pending(), None);
        assert_eq!(stop.outcome(), Some(expected));
    }
}

#[test]
fn restart_kicks_a_loaded_agent() {
    let restart = LaunchdAgent::new().restart(&login(), "com.x");
    assert_eq!(play_launch(restart, vec![(kick(), good())]), Ok(()));
}

#[test]
fn restart_starts_an_agent_that_is_not_loaded() {
    for reply in [bad(), missing()] {
        let mut script = vec![(kick(), reply)];
        script.extend(up_to_load());
        script.push((bootstrap(), good()));
        script.push((kick(), good()));
        let restart = LaunchdAgent::new().restart(&login(), "com.x");
        assert_eq!(play_launch(restart, script), Ok(()));
    }
}

#[test]
fn printed_agents_become_statuses() {
    for (output, expected) in [
        ("", ServiceStatus::Stopped),
        ("state = running\n\tpid = 42\n", ServiceStatus::Running { pid: Some(42) }),
        ("pid = x\npid =  7 \npid = 8\n", ServiceStatus::Running { pid: Some(7) }),
        ("pid = 0", ServiceStatus::Running { pid: Some(0) }),
        ("pid=42\nlast pid = 3\n", ServiceStatus::Stopped),
        ("pid = 4294967296", ServiceStatus::Stopped),
    ] {
        assert_eq!(parse_print(output), expected, "{output:?}");
    }
}

#[test]
fn status_looks_for_the_plist_first() {
    let agent = LaunchdAgent::new();
    let asked = agent.status(&login(), "com.x");
    assert_eq!(asked.pending(), Some(look_for(PLIST)));
    let answered = asked.resume(Reply::Flag(false));
    assert_eq!(answered.pending(), None);
    assert_eq!(answered.outcome(), Some(Ok(ServiceStatus::NotInstalled)));
    for (reply, expected) in [
        (bad(), Ok(ServiceStatus::Stopped)),
        (ended(Some(1), b"pid = 3", b""), Ok(ServiceStatus::Stopped)),
        (
            ended(Some(0), b"\xff\n  pid = 3\n", b""),
            Ok(ServiceStatus::Running { pid: Some(3) }),
        ),
        (good(), Ok(ServiceStatus::Stopped)),
        (
            missing(),
            Err(Error::Command("launchctl print: not found".to_string())),
        ),
    ] {
        let asked = agent.status(&login(), "com.x").resume(Reply::Flag(true));
        assert_eq!(asked.pending(), Some(probe()));
        assert_eq!(asked.resume(reply).outcome(), Some(expected));
    }
}

#[test]
fn logs_are_read_from_the_named_file_or_the_default_one() {
    let agent = LaunchdAgent::new();
    let extract = Effect::Run {
        command: Invocation::new(
            "plutil",
            &["-extract", "StandardOutPath", "raw", "-o", "-", PLIST],
        ),
    };
    for (reply, log) in [
        (ended(Some(0), b"/tmp/x.log\n", b""), "/tmp/x.log"),
        (ended(Some(0), b"/tmp/\xff.log\n", b""), "/tmp/\u{fffd}.log"),
        (ended(Some(0), b" \n", b""), LOG),
        (ended(Some(1), b"/tmp/x.log\n", b""), LOG),
        (missing(), LOG),
    ] {
        let asked = agent.logs(&login(), "com.x", 2);
        assert_eq!(asked.pending(), Some(extract.clone()));
        let asked = asked.resume(reply);
        assert_eq!(asked.pending(), Some(look_for(log)));
        let asked = asked.resume(Reply::Flag(true));
        assert_eq!(
            asked.pending(),
            Some(Effect::Read {
                path: log.to_string()
            })
        );
        let answered = asked.resume(Reply::Contents("a\nb\nc\n".to_string()));
        assert_eq!(answered.pending(), None);
        assert_eq!(answered.outcome(), Some(Ok("b\nc".to_string())));
    }
}

#[test]
fn logs_of_a_missing_file_are_empty() {
    let agent = LaunchdAgent::new();
    let asked = agent.logs(&login(), "com.x", 2).resume(missing());
    let answered = asked.resume(Reply::Flag(false));
    assert_eq!(answered.pending(), None);
    assert_eq!(answered.outcome(), Some(Ok(String::new())));
    let asked = agent.logs(&login(), "com.x", 2).resume(missing());
    let asked = asked.resume(Reply::Flag(true));
    assert_eq!(
        asked.resume(Reply::Failed("denied".to_string())).outcome(),
        Some(Err(Error::Io("denied".to_string())))
    );
}

#[test]
fn outcomes_are_interpreted() {
    assert_eq!(path_in_output(" /a b \n").as_deref(), Some("/a b"));
    assert_eq!(path_in_output("\n"), None);
    assert_eq!(
        launchctl_extract_stdout(&ended(Some(0), b"/a\n", b"")).as_deref(),
        Some("/a")
    );
    assert_eq!(launchctl_extract_stdout(&Reply::Done), None);
    let active = Outcome::Exited {
        code: Some(0),
        stdout: Vec::new(),
        stderr: Vec::new(),
    };
    assert!(gui_session_active(&active));
    let gone = Outcome::NotStarted {
        error: String::new(),
    };
    assert!(!gui_session_active(&gone));
}
