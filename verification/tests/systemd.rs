use daemon_green::effect::{failure_message, run, Effect, Invocation, Outcome, Reply};
use daemon_green::plan::Plan;
use daemon_green::render::systemd_unit;
use daemon_green::service::{Error, ServiceSpec, ServiceStatus};
use daemon_green::session::Session;
use daemon_green::systemd::{
    bus_address, parse_show, runtime_dir, svc, systemctl, unit_path, user_from_env, user_from_id,
    SystemdUser,
};

const NO_SYSTEMD: &str = "daemon-green: systemd not detected (/run/systemd/system missing) — user-service management unsupported on this host";

fn session() -> Session {
    Session {
        uid: 1000,
        home: Some("/home/u".to_string()),
        runtime_dir: None,
        bus_address: None,
        user: Some("u".to_string()),
        logname: Some("v".to_string()),
    }
}

fn exited(code: Option<i32>, stdout: &[u8], stderr: &[u8]) -> Reply {
    Reply::Ran(Outcome::Exited {
        code,
        stdout: stdout.to_vec(),
        stderr: stderr.to_vec(),
    })
}

fn fine() -> Reply {
    exited(Some(0), b"", b"")
}

fn not_started() -> Reply {
    Reply::Ran(Outcome::NotStarted {
        error: "no such file".to_string(),
    })
}

fn command(program: &str, args: &[&str], env: &[(&str, &str)]) -> Invocation {
    let mut c = Invocation::new(program, args);
    for (k, v) in env {
        c = c.with_env(k, v);
    }
    c
}

fn manager(args: &[&str]) -> Effect {
    Effect::Run {
        command: command(
            "systemctl",
            args,
            &[
                ("XDG_RUNTIME_DIR", "/run/user/1000"),
                ("DBUS_SESSION_BUS_ADDRESS", "unix:path=/run/user/1000/bus"),
            ],
        ),
    }
}

fn detection() -> Effect {
    Effect::IsDir {
        path: "/run/systemd/system".to_string(),
    }
}

/// Performs a plan against the given effects and replies, and gives its outcome.
fn play(plan: Plan, script: Vec<(Effect, Reply)>) -> Result<(), Error> {
    let mut plan = plan;
    for (effect, reply) in script {
        assert!(plan.outcome().is_none());
        assert_eq!(plan.pending(), Some(effect));
        plan = plan.resume(reply);
    }
    assert_eq!(plan.pending(), None);
    plan.outcome().expect("the plan has ended")
}

fn unsupported() -> Error {
    Error::Unsupported(NO_SYSTEMD.to_string())
}

#[test]
fn svc_appends_service_suffix_once() {
    assert_eq!(svc("com.x.y"), "com.x.y.service");
    assert_eq!(svc("com.x.y.service"), "com.x.y.service");
}

#[test]
fn unit_names_are_stable() {
    for label in ["", "x", ".service", "service", "x.service.service", "xservice"] {
        let name = svc(label);
        assert!(name.ends_with(".service"));
        assert_eq!(svc(&name), name);
    }
}

#[test]
fn unit_path_is_below_home() {
    assert_eq!(
        unit_path(&session(), "com.x"),
        "/home/u/.config/systemd/user/com.x.service"
    );
    let mut s = session();
    s.home = None;
    assert_eq!(
        unit_path(&s, "com.x"),
        "/root/.config/systemd/user/com.x.service"
    );
    s.home = Some("/h/".to_string());
    assert_eq!(
        unit_path(&s, "com.x"),
        format!("/h/.config/systemd/user/{}", svc("com.x"))
    );
}

#[test]
fn manager_is_found_from_the_environment_or_the_user_number() {
    let mut s = session();
    assert_eq!(runtime_dir(&s), "/run/user/1000");
    assert_eq!(bus_address(&s), "unix:path=/run/user/1000/bus");
    s.runtime_dir = Some("/xdg".to_string());
    assert_eq!(runtime_dir(&s), "/xdg");
    assert_eq!(bus_address(&s), "unix:path=/xdg/bus");
    s.bus_address = Some("unix:abstract=b".to_string());
    assert_eq!(bus_address(&s), "unix:abstract=b");
    assert_eq!(
        systemctl(&s, &["daemon-reload"]),
        command(
            "systemctl",
            &["--user", "daemon-reload"],
            &[
                ("XDG_RUNTIME_DIR", "/xdg"),
                ("DBUS_SESSION_BUS_ADDRESS", "unix:abstract=b"),
            ],
        )
    );
}

#[test]
fn install_places_the_unit_and_asks_for_lingering() {
    let spec = ServiceSpec::new("com.x", "/bin/x");
    let script = vec![
        (detection(), Reply::Flag(true)),
        (
            Effect::CreateDir {
                path: "/home/u/.config/systemd/user".to_string(),
            },
            Reply::Done,
        ),
        (
            Effect::Write {
                path: "/home/u/.config/systemd/user/com.x.service".to_string(),
                contents: systemd_unit(&spec),
            },
            Reply::Done,
        ),
        (manager(&["--user", "daemon-reload"]), fine()),
        (
            Effect::RunAttached {
                command: command("loginctl", &["enable-linger", "u"], &[]),
            },
            exited(Some(1), b"", b"denied"),
        ),
    ];
    let mut install = SystemdUser::new().install(&session(), &spec);
    for (effect, reply) in script {
        assert_eq!(install.pending(), Some(effect));
        install = install.resume(reply);
    }
    assert_eq!(install.pending(), None);
    assert_eq!(install.outcome(), Some(Ok(())));
}

#[test]
fn install_asks_who_the_user_is() {
    for (reply, user) in [
        (exited(Some(0), b" someone\n", b""), "someone"),
        (exited(Some(0), b"\xff\n", b""), ""),
        (not_started(), ""),
    ] {
        let mut s = session();
        s.user = None;
        s.logname = None;
        let spec = ServiceSpec::new("com.x", "/bin/x");
        let mut install = SystemdUser::new().install(&s, &spec);
        for reply in [Reply::Flag(true), Reply::Done, Reply::Done, fine()] {
            install = install.resume(reply);
        }
        assert_eq!(
            install.pending(),
            Some(Effect::Run {
                command: command("id", &["-un"], &[]),
            })
        );
        install = install.resume(reply);
        assert_eq!(
            install.pending(),
            Some(Effect::RunAttached {
                command: command("loginctl", &["enable-linger", user], &[]),
            })
        );
        install = install.resume(not_started());
        assert_eq!(install.outcome(), Some(Ok(())));
    }
}

#[test]
fn user_is_named_by_the_environment_or_by_id() {
    let mut s = session();
    assert_eq!(user_from_env(&s).as_deref(), Some("u"));
    s.user = None;
    assert_eq!(user_from_env(&s).as_deref(), Some("v"));
    s.logname = None;
    assert_eq!(user_from_env(&s), None);
    assert_eq!(user_from_id(exited(Some(0), "\té\n".as_bytes(), b"")), "é");
    assert_eq!(user_from_id(exited(Some(1), b"x", b"")), "x");
    assert_eq!(user_from_id(exited(Some(0), b"a\xc3", b"")), "");
    assert_eq!(user_from_id(Reply::Done), "");
}

#[test]
fn install_stops_at_the_first_failure() {
    let spec = ServiceSpec::new("com.x", "/bin/x");
    for k in [1, 2] {
        let mut install = SystemdUser::new().install(&session(), &spec);
        install = install.resume(Reply::Flag(true));
        for _ in 1..k {
            install = install.resume(Reply::Done);
        }
        install = install.resume(Reply::Failed("disk full".to_string()));
        assert_eq!(install.pending(), None);
        assert_eq!(
            install.outcome(),
            Some(Err(Error::Io("disk full".to_string())))
        );
    }
    let mut install = SystemdUser::new().install(&session(), &spec);
    for reply in [Reply::Flag(true), Reply::Done, Reply::Done] {
        install = install.resume(reply);
    }
    install = install.resume(exited(Some(1), b"", b"Failed to connect to bus\n"));
    assert_eq!(
        install.outcome(),
        Some(Err(Error::Command(
            "systemctl --user daemon-reload: exited 1: Failed to connect to bus".to_string()
        )))
    );
}

#[test]
fn start_enables_the_unit() {
    let start = SystemdUser::new().start(&session(), "com.x");
    let script = vec![
        (detection(), Reply::Flag(true)),
        (
            manager(&["--user", "enable", "--now", "com.x.service"]),
            fine(),
        ),
    ];
    assert_eq!(play(start, script), Ok(()));
}

#[test]
fn stop_disables_the_unit() {
    let stop = SystemdUser::new().stop(&session(), "com.x.service");
    let script = vec![
        (detection(), Reply::Flag(true)),
        (
            manager(&["--user", "disable", "--now", "com.x.service"]),
            exited(Some(5), b" out \n", b" \n"),
        ),
    ];
    assert_eq!(
        play(stop, script),
        Err(Error::Command(
            "systemctl --user disable --now: exited 5: out".to_string()
        ))
    );
}

#[test]
fn restart_clears_failures_first_and_goes_on_regardless() {
    for cleared in [fine(), exited(Some(1), b"", b"x"), not_started()] {
        let restart = SystemdUser::new().restart(&session(), "com.x");
        let script = vec![
            (detection(), Reply::Flag(true)),
            (
                manager(&["--user", "reset-failed", "com.x.service"]),
                cleared,
            ),
            (manager(&["--user", "restart", "com.x.service"]), fine()),
        ];
        assert_eq!(play(restart, script), Ok(()));
    }
    let restart = SystemdUser::new().restart(&session(), "com.x");
    let script = vec![
        (detection(), Reply::Flag(true)),
        (
            manager(&["--user", "reset-failed", "com.x.service"]),
            fine(),
        ),
        (
            manager(&["--user", "restart", "com.x.service"]),
            not_started(),
        ),
    ];
    assert_eq!(
        play(restart, script),
        Err(Error::Command(
            "systemctl --user restart: spawn failed: no such file".to_string()
        ))
    );
}

#[test]
fn nothing_happens_without_systemd() {
    let m = SystemdUser::new();
    let s = session();
    let no = || vec![(detection(), Reply::Flag(false))];
    assert_eq!(play(m.start(&s, "com.x"), no()), Err(unsupported()));
    assert_eq!(play(m.stop(&s, "com.x"), no()), Err(unsupported()));
    assert_eq!(play(m.restart(&s, "com.x"), no()), Err(unsupported()));
    let install = m.install(&s, &ServiceSpec::new("com.x", "/bin/x"));
    assert_eq!(install.pending(), Some(detection()));
    let install = install.resume(Reply::Flag(false));
    assert_eq!(install.pending(), None);
    assert_eq!(install.outcome(), Some(Err(unsupported())));
    let status = m.status(&s, "com.x");
    assert_eq!(status.pending(), Some(detection()));
    let status = status.resume(Reply::Flag(false));
    assert_eq!(status.pending(), None);
    assert_eq!(status.outcome(), Some(Err(unsupported())));
    let logs = m.logs(&s, "com.x", 1);
    assert_eq!(logs.pending(), Some(detection()));
    let logs = logs.resume(Reply::Flag(false));
    assert_eq!(logs.pending(), None);
    assert_eq!(logs.outcome(), Some(Err(unsupported())));
    assert_eq!(SystemdUser::ensure_systemd(true), Ok(()));
    assert_eq!(SystemdUser::ensure_systemd(false), Err(unsupported()));
}

#[test]
fn unit_states_become_statuses() {
    for (output, expected) in [
        ("", ServiceStatus::NotInstalled),
        ("LoadState=", ServiceStatus::NotInstalled),
        (
            "LoadState=not-found\nActiveState=active\n",
            ServiceStatus::NotInstalled,
        ),
        ("ActiveState=active\n", ServiceStatus::NotInstalled),
        ("LoadState=loaded\n", ServiceStatus::Stopped),
        (
            "LoadState=loaded\nActiveState=inactive\n",
            ServiceStatus::Stopped,
        ),
        (
            "LoadState=loaded\nActiveState=active\nExecMainPID=42\n",
            ServiceStatus::Running { pid: Some(42) },
        ),
        (
            "LoadState=loaded\r\n ActiveState = activating \r\nExecMainPID=0\r\n",
            ServiceStatus::Running { pid: None },
        ),
        (
            "LoadState=loaded\nActiveState=active\nExecMainPID=x\n",
            ServiceStatus::Running { pid: None },
        ),
        (
            "LoadState=loaded\nActiveState=active\n",
            ServiceStatus::Running { pid: None },
        ),
        (
            "LoadState=loaded\nActiveState=active\nActiveState=failed\nResult=exit-code\n",
            ServiceStatus::Failed {
                reason: "exit-code".to_string(),
            },
        ),
        (
            "LoadState=loaded\nActiveState=failed\n",
            ServiceStatus::Failed {
                reason: "failed".to_string(),
            },
        ),
        (
            "LoadState=loaded\nActiveState=failed\nResult=\n",
            ServiceStatus::Failed {
                reason: "".to_string(),
            },
        ),
        (
            "noise\nLoadState=a=b\nActiveState=active",
            ServiceStatus::Running { pid: None },
        ),
    ] {
        assert_eq!(parse_show(output), expected, "{output:?}");
    }
}

#[test]
fn status_shows_the_unit() {
    let show = manager(&[
        "--user",
        "show",
        "com.x.service",
        "-p",
        "LoadState,ActiveState,SubState,ExecMainPID,Result",
    ]);
    let asked = SystemdUser::new()
        .status(&session(), "com.x")
        .resume(Reply::Flag(true));
    assert_eq!(asked.pending(), Some(show));
    let answered = asked.resume(exited(
        Some(1),
        b"LoadState=loaded\nActiveState=failed\nResult=a\xffb\n",
        b"",
    ));
    assert_eq!(answered.pending(), None);
    assert_eq!(
        answered.outcome(),
        Some(Ok(ServiceStatus::Failed {
            reason: "a\u{fffd}b".to_string(),
        }))
    );
    let asked = SystemdUser::new()
        .status(&session(), "com.x")
        .resume(Reply::Flag(true));
    assert_eq!(
        asked.resume(not_started()).outcome(),
        Some(Err(Error::Command(
            "systemctl --user show: spawn failed: no such file".to_string()
        )))
    );
}

#[test]
fn logs_show_the_journal() {
    let journal = Effect::Run {
        command: command(
            "journalctl",
            &["--user", "-u", "com.x.service", "-n", "20", "--no-pager"],
            &[
                ("XDG_RUNTIME_DIR", "/run/user/1000"),
                ("DBUS_SESSION_BUS_ADDRESS", "unix:path=/run/user/1000/bus"),
            ],
        ),
    };
    let asked = SystemdUser::new()
        .logs(&session(), "com.x", 20)
        .resume(Reply::Flag(true));
    assert_eq!(asked.pending(), Some(journal));
    assert_eq!(
        asked.resume(exited(Some(1), b"a\n\xfe\n", b"x")).outcome(),
        Some(Ok("a\n\u{fffd}\n".to_string()))
    );
    let asked = SystemdUser::new()
        .logs(&session(), "com.x", 20)
        .resume(Reply::Flag(true));
    assert_eq!(
        asked.resume(not_started()).outcome(),
        Some(Err(Error::Command(
            "journalctl --user: spawn failed: no such file".to_string()
        )))
    );
}

#[test]
fn failures_of_commands_are_described() {
    assert_eq!(
        failure_message("ctx", Some(-3), " err \n", "out"),
        "ctx: exited -3: err"
    );
    assert_eq!(
        failure_message("ctx", None, " \n", " out "),
        "ctx: exited signal: out"
    );
    let killed = Outcome::Exited {
        code: None,
        stdout: b"\xffout\n".to_vec(),
        stderr: Vec::new(),
    };
    assert_eq!(
        run("ctx", &killed),
        Some(Error::Command("ctx: exited signal: \u{fffd}out".to_string()))
    );
    let good = Outcome::Exited {
        code: Some(0),
        stdout: Vec::new(),
        stderr: b"warning".to_vec(),
    };
    assert_eq!(run("ctx", &good), None);
}

#[test]
fn services_live_through_their_lifecycle() {
    let m = SystemdUser::new();
    let s = session();
    let label = "com.daemongreen.e2e";
    let spec = ServiceSpec::new(label, "/bin/sh").args(&[
        "-c",
        "echo DG_RAN > /tmp/dg-e2e-marker; exec sleep 3600",
    ]);
    let mut install = m.install(&s, &spec);
    let mut unit = String::new();
    while let Some(effect) = install.pending() {
        let reply = match effect {
            Effect::IsDir { .. } => Reply::Flag(true),
            Effect::Write { contents, .. } => {
                unit = contents;
                Reply::Done
            }
            Effect::Run { .. } | Effect::RunAttached { .. } => fine(),
            _ => Reply::Done,
        };
        install = install.resume(reply);
    }
    assert_eq!(install.outcome(), Some(Ok(())));
    assert!(unit.contains(
        "ExecStart=/bin/sh -c \"echo DG_RAN > /tmp/dg-e2e-marker; exec sleep 3600\"\n"
    ));
    for plan in [m.start(&s, label), m.restart(&s, label), m.stop(&s, label)] {
        let mut plan = plan;
        while let Some(effect) = plan.pending() {
            plan = plan.resume(match effect {
                Effect::IsDir { .. } => Reply::Flag(true),
                _ => fine(),
            });
        }
        assert_eq!(plan.outcome(), Some(Ok(())));
    }
}

#[test]
fn units_await_replies_that_are_due() {
    let m = SystemdUser::new();
    let s = session();
    let enable = manager(&["--user", "enable", "--now", "com.x.service"]);
    let mut start = m.start(&s, "com.x").resume(Reply::Done);
    assert_eq!(start.pending(), Some(detection()));
    start = start.resume(Reply::Flag(true));
    for reply in [
        Reply::Failed("x".to_string()),
        Reply::Done,
        Reply::Flag(true),
        Reply::Elapsed(0),
    ] {
        start = start.resume(reply);
        assert_eq!(start.pending(), Some(enable.clone()));
        assert_eq!(start.outcome(), None);
    }
    assert_eq!(start.resume(fine()).outcome(), Some(Ok(())));
    let mut install = m.install(&s, &ServiceSpec::new("com.x", "/bin/x"));
    install = install.resume(Reply::Flag(true)).resume(fine());
    assert_eq!(
        install.pending(),
        Some(Effect::CreateDir {
            path: "/home/u/.config/systemd/user".to_string()
        })
    );
    install = install.resume(Reply::Done).resume(Reply::Done).resume(fine());
    let linger = install.pending();
    install = install.resume(Reply::Done);
    assert_eq!(install.pending(), linger);
    assert_eq!(install.resume(not_started()).outcome(), Some(Ok(())));
    let status = m.status(&s, "com.x").resume(fine());
    assert_eq!(status.pending(), Some(detection()));
    let logs = m.logs(&s, "com.x", 1).resume(Reply::Done);
    assert_eq!(logs.pending(), Some(detection()));
}

#[test]
fn effects_have_their_kinds_of_replies() {
    let path = || "/x".to_string();
    let run = || Invocation::new("x", &[]);
    let replies = [
        Reply::Flag(false),
        Reply::Done,
        Reply::Failed(String::new()),
        Reply::Contents(String::new()),
        fine(),
        Reply::Elapsed(0),
    ];
    for (effect, kinds) in [
        (Effect::IsDir { path: path() }, vec![0]),
        (Effect::Exists { path: path() }, vec![0]),
        (Effect::CreateDir { path: path() }, vec![1, 2]),
        (Effect::CreateParent { path: path() }, vec![1, 2]),
        (
            Effect::Write {
                path: path(),
                contents: path(),
            },
            vec![1, 2],
        ),
        (Effect::Read { path: path() }, vec![2, 3]),
        (Effect::Run { command: run() }, vec![4]),
        (Effect::RunAttached { command: run() }, vec![4]),
        (Effect::StartTimer, vec![1]),
        (Effect::ReadTimer, vec![5]),
        (Effect::Sleep { millis: 1 }, vec![1]),
    ] {
        for (i, reply) in replies.iter().enumerate() {
            assert_eq!(effect.is_answered_by(reply), kinds.contains(&i), "{effect:?}");
        }
    }
}
