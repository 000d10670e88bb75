use mount_status_monitor::machine::{Action, Notice, Observation, Severity};
use mount_status_monitor::probe::{ProbeError, ProbeExit, ProbeOutcome, PROBE_TIMEOUT_SECS};
use mount_status_monitor::registry::MountRegistry;
use mount_status_monitor::status::{MountStatus, ProbeHandle};
use mount_status_monitor::summary::CycleSummary;

/// How a simulated probe of one path behaves.
#[derive(Clone, Copy)]
enum Behaviour {
    Exits(i32),
    Hangs,
    HangsUntilKilled,
    CannotSpawn,
}

/// Stands in for the operating system: it starts and polls pretended probes
/// and keeps count of what it was asked to do.
struct Host {
    behaviours: Vec<(String, Behaviour)>,
    spawned: Vec<String>,
    polled: Vec<ProbeHandle>,
    live: Vec<(ProbeHandle, Behaviour)>,
    next_pid: u32,
}

fn host(behaviours: &[(&str, Behaviour)]) -> Host {
    Host {
        behaviours: behaviours.iter().map(|(p, b)| (p.to_string(), *b)).collect(),
        spawned: Vec::new(),
        polled: Vec::new(),
        live: Vec::new(),
        next_pid: 1000,
    }
}

fn perform(host: &mut Host, path: &String, action: Action, now: u64) -> Observation {
    match action {
        Action::Launch => {
            host.spawned.push(path.clone());
            let behaviour = host.behaviours.iter().find(|(p, _)| p == path).map(|(_, b)| *b);
            match behaviour.unwrap_or(Behaviour::Exits(0)) {
                Behaviour::Exits(code) => Observation::Probe(Ok(ProbeOutcome::Exited(code))),
                Behaviour::CannotSpawn => Observation::Probe(Err(ProbeError::SpawnFailed)),
                hung => {
                    let handle = ProbeHandle { pid: host.next_pid };
                    host.next_pid += 1;
                    host.live.push((handle, hung));
                    Observation::Probe(Ok(ProbeOutcome::StillRunning { handle, start_time: now }))
                }
            }
        }
        Action::Poll(handle) => {
            host.polled.push(handle);
            let at = host.live.iter().position(|(h, _)| *h == handle);
            match at {
                Some(i) => match host.live[i].1 {
                    Behaviour::HangsUntilKilled => {
                        host.live.remove(i);
                        Observation::Poll(Ok(Some(ProbeExit::Signaled(9))))
                    }
                    _ => Observation::Poll(Ok(None)),
                },
                None => Observation::Poll(Err(ProbeError::WaitFailed)),
            }
        }
    }
}

fn run_cycle(
    registry: &mut MountRegistry,
    host: &mut Host,
    mounted: &[&str],
    now: u64,
) -> Vec<(String, Notice)> {
    let mounted: Vec<String> = mounted.iter().map(|p| p.to_string()).collect();
    registry.reconcile(&mounted);
    let mut notices = Vec::new();
    for task in registry.plan() {
        let observation = perform(host, &task.path, task.action, now);
        let after = now + PROBE_TIMEOUT_SECS;
        if let Some(notice) = registry.record(&task.path, observation, after) {
            notices.push((task.path.clone(), notice));
        }
    }
    notices.sort_by(|x, y| x.0.cmp(&y.0));
    notices
}

fn path(name: &str) -> String {
    name.to_string()
}

#[test]
fn hung_probe_is_spawned_once_over_three_cycles() {
    let mut registry = MountRegistry::new();
    let mut os = host(&[("/mnt/stuck", Behaviour::Hangs)]);
    for cycle in 0..3 {
        run_cycle(&mut registry, &mut os, &["/mnt/stuck"], cycle * 60);
        assert_eq!(
            registry.status(&path("/mnt/stuck")),
            Some(MountStatus::CheckRunning { handle: ProbeHandle { pid: 1000 }, start_time: 0 })
        );
    }
    assert_eq!(os.spawned, vec![path("/mnt/stuck")]);
    assert_eq!(os.polled, vec![ProbeHandle { pid: 1000 }, ProbeHandle { pid: 1000 }]);
    assert_eq!(os.live.len(), 1);
}

#[test]
fn healthy_mount_is_probed_every_cycle() {
    let mut registry = MountRegistry::new();
    let mut os = host(&[("/", Behaviour::Exits(0))]);
    for cycle in 0..3 {
        let notices = run_cycle(&mut registry, &mut os, &["/"], cycle * 60);
        assert_eq!(notices, vec![(path("/"), Notice::CheckPassed)]);
    }
    assert_eq!(os.spawned.len(), 3);
    assert!(os.polled.is_empty());
}

#[test]
fn killed_probe_is_reaped_on_next_cycle() {
    let mut registry = MountRegistry::new();
    let mut os = host(&[("/mnt/slow", Behaviour::HangsUntilKilled)]);

    let notices = run_cycle(&mut registry, &mut os, &["/mnt/slow"], 0);
    let stalled = MountStatus::CheckRunning { handle: ProbeHandle { pid: 1000 }, start_time: 0 };
    assert_eq!(registry.status(&path("/mnt/slow")), Some(stalled));
    assert_eq!(notices, vec![(path("/mnt/slow"), Notice::CheckFailed { status: stalled })]);

    let notices = run_cycle(&mut registry, &mut os, &["/mnt/slow"], 60);
    assert_eq!(registry.status(&path("/mnt/slow")), Some(MountStatus::CheckSignaled(9)));
    assert_eq!(
        notices,
        vec![(
            path("/mnt/slow"),
            Notice::SlowCheckExited { exit: ProbeExit::Signaled(9), elapsed: 63 }
        )]
    );
    assert_eq!(os.spawned.len(), 1);
    assert!(os.live.is_empty());

    run_cycle(&mut registry, &mut os, &["/mnt/slow"], 120);
    assert_eq!(os.spawned.len(), 2);
}

#[test]
fn one_mount_alive_one_hung() {
    let mut registry = MountRegistry::new();
    let mut os = host(&[("/mnt/a", Behaviour::Exits(0)), ("/mnt/b", Behaviour::Hangs)]);
    let mounted = ["/mnt/a", "/mnt/b"];

    let notices = run_cycle(&mut registry, &mut os, &mounted, 0);
    let stalled = MountStatus::CheckRunning { handle: ProbeHandle { pid: 1000 }, start_time: 0 };
    assert_eq!(registry.status(&path("/mnt/a")), Some(MountStatus::Alive));
    assert_eq!(registry.status(&path("/mnt/b")), Some(stalled));
    assert_eq!(
        notices,
        vec![
            (path("/mnt/a"), Notice::CheckPassed),
            (path("/mnt/b"), Notice::CheckFailed { status: stalled }),
        ]
    );
    assert_eq!(registry.summary(), CycleSummary { total: 2, dead: 1 });

    let notices = run_cycle(&mut registry, &mut os, &mounted, 1);
    assert_eq!(registry.status(&path("/mnt/a")), Some(MountStatus::Alive));
    assert_eq!(registry.status(&path("/mnt/b")), Some(stalled));
    assert_eq!(
        notices,
        vec![
            (path("/mnt/a"), Notice::CheckPassed),
            (path("/mnt/b"), Notice::SlowCheckPending { elapsed: 4 }),
        ]
    );
    assert_eq!(notices[1].1.severity(), Severity::Warning);
    assert_eq!(os.spawned, vec![path("/mnt/a"), path("/mnt/b"), path("/mnt/a")]);
    assert_eq!(registry.summary(), CycleSummary { total: 2, dead: 1 });
}

#[test]
fn every_mount_gets_exactly_one_notice_per_cycle() {
    let mut registry = MountRegistry::new();
    let mut os = host(&[
        ("/ok", Behaviour::Exits(0)),
        ("/bad", Behaviour::Exits(1)),
        ("/hung", Behaviour::Hangs),
        ("/nospawn", Behaviour::CannotSpawn),
    ]);
    let mounted = ["/ok", "/bad", "/hung", "/nospawn"];
    for cycle in 0..4 {
        let notices = run_cycle(&mut registry, &mut os, &mounted, cycle * 60);
        let mut named: Vec<&str> = notices.iter().map(|(p, _)| p.as_str()).collect();
        named.sort();
        assert_eq!(named, vec!["/bad", "/hung", "/nospawn", "/ok"]);
    }
    assert_eq!(registry.status(&path("/nospawn")), Some(MountStatus::Alive));
    assert_eq!(registry.status(&path("/bad")), Some(MountStatus::CheckFailed(1)));
    assert_eq!(registry.summary(), CycleSummary { total: 4, dead: 2 });
}

#[test]
fn unmounted_hung_mount_leaves_registry() {
    let mut registry = MountRegistry::new();
    let mut os = host(&[("/mnt/b", Behaviour::Hangs)]);
    run_cycle(&mut registry, &mut os, &["/mnt/a", "/mnt/b"], 0);
    assert_eq!(registry.summary(), CycleSummary { total: 2, dead: 1 });
    run_cycle(&mut registry, &mut os, &["/mnt/a"], 60);
    assert_eq!(registry.status(&path("/mnt/b")), None);
    assert_eq!(registry.summary(), CycleSummary { total: 1, dead: 0 });
    assert!(os.polled.is_empty());
}

#[test]
fn lost_probe_keeps_mount_running() {
    let mut registry = MountRegistry::new();
    let mut os = host(&[("/mnt/b", Behaviour::Hangs)]);
    run_cycle(&mut registry, &mut os, &["/mnt/b"], 0);
    os.live.clear();
    let notices = run_cycle(&mut registry, &mut os, &["/mnt/b"], 60);
    assert_eq!(notices, vec![(path("/mnt/b"), Notice::SlowCheckError { elapsed: 63 })]);
    assert_eq!(
        registry.status(&path("/mnt/b")),
        Some(MountStatus::CheckRunning { handle: ProbeHandle { pid: 1000 }, start_time: 0 })
    );
    assert_eq!(os.spawned.len(), 1);
}
