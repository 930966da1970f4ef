use runas::windows::{win_spawn, ShellReply, KILL_EXIT_CODE};
use runas::{
    macos, unix, windows, Child, Command, Error, ExitStatus, OsReply, Release, SpawnRequest,
    Strategy, WaitFailure, WaitStep,
};

fn shell_child(handle: isize) -> windows::ChildInner {
    match win_spawn(&ShellReply { ret: 1, error: 0, process: handle }) {
        Ok(child) => child,
        Err(_) => panic!("no handle after a launch that succeeded"),
    }
}

fn grant_child(pid: i32, grant: usize) -> macos::ChildInner {
    let reply = macos::GuiReply { ret: pid, grant: 0, error: 0 };
    match macos::gui_spawn(macos::GuiStage::Query(grant), &reply) {
        macos::GuiStep::Spawned(child) => child,
        _ => panic!("no handle after a query that succeeded"),
    }
}

fn failure(code: i32, release: Release) -> WaitFailure {
    WaitFailure { error: Error::Os(code), release }
}

fn count(release: Release) -> u32 {
    match release {
        Release::Nothing => 0,
        _ => 1,
    }
}

#[test]
fn a_failed_launch_gives_the_error_code() {
    match win_spawn(&ShellReply { ret: 0, error: 1223, process: 0 }) {
        Err(e) => assert_eq!(e, Error::Os(1223)),
        Ok(_) => panic!("a handle after a failed launch"),
    }
    match win_spawn(&ShellReply { ret: 0, error: 2, process: 77 }) {
        Err(e) => assert_eq!(e, Error::Os(2)),
        Ok(_) => panic!("a handle after a failed launch"),
    }
}

#[test]
fn a_launch_without_a_handle_is_another_error() {
    for process in [0, -1] {
        match win_spawn(&ShellReply { ret: 1, error: 0, process }) {
            Err(e) => assert_eq!(e, Error::Other),
            Ok(_) => panic!("a handle that names no process"),
        }
    }
}

#[test]
fn a_launch_gives_the_handle() {
    let child = shell_child(0x44);
    assert_eq!(child.handle(), Some(0x44));
    assert_eq!(shell_child(-2).handle(), Some(-2));
}

#[test]
fn the_shell_handle_knows_no_id() {
    assert_eq!(shell_child(0x44).id(), 0);
}

#[test]
fn the_shell_handle_reads_the_exit_code() {
    let mut child = shell_child(0x44);
    let done = OsReply { ret: 1, status: 0xc000_013a, error: 0 };
    assert_eq!(
        child.wait(&done),
        Ok(WaitStep::Exited(ExitStatus { bits: 0xc000_013a }, Release::Nothing))
    );
    let failed = OsReply { ret: 0, status: 0, error: 6 };
    assert_eq!(child.wait(&failed), Err(failure(6, Release::Nothing)));
    assert_eq!(child.handle(), Some(0x44));
}

#[test]
fn the_shell_handle_reads_a_kill() {
    let mut child = shell_child(0x44);
    assert_eq!(KILL_EXIT_CODE, 1);
    assert_eq!(child.kill(&OsReply { ret: 1, status: 0, error: 0 }), Ok(()));
    assert_eq!(child.kill(&OsReply { ret: 0, status: 0, error: 5 }), Err(Error::Os(5)));
}

#[test]
fn the_shell_handle_is_given_up_once() {
    let mut child = shell_child(0x44);
    let done = OsReply { ret: 1, status: 0, error: 0 };
    let mut releases = 0;
    if let Ok(WaitStep::Exited(_, release)) = child.wait(&done) {
        releases += count(release);
    }
    let first = child.release();
    assert_eq!(first, Release::Handle(0x44));
    releases += count(first);
    releases += count(child.release());
    assert_eq!(releases, 1);
    assert_eq!(child.handle(), None);
}

#[test]
fn every_strategy_releases_once_after_a_wait() {
    let done = OsReply { ret: 1, status: 0, error: 0 };
    let children = vec![
        (Child::Broker(unix::ChildInner::new(10, true)), 0),
        (Child::Authorization(grant_child(11, 0x1000)), 1),
        (Child::Shell(shell_child(0x44)), 1),
    ];
    for (mut child, owned) in children {
        let mut releases = 0;
        match child.wait(&done) {
            Ok(WaitStep::Exited(status, release)) => {
                assert_eq!(status, ExitStatus { bits: 0 });
                releases += count(release);
            }
            _ => panic!("a wait that did not end"),
        }
        releases += count(child.release());
        releases += count(child.release());
        assert_eq!(releases, owned);
    }
}

#[test]
fn every_strategy_releases_once_without_a_wait() {
    let children = vec![
        (Child::Broker(unix::ChildInner::new(10, true)), Release::Nothing),
        (Child::Authorization(grant_child(11, 0x1000)), Release::Grant(0x1000)),
        (Child::Shell(shell_child(0x44)), Release::Handle(0x44)),
    ];
    for (mut child, owned) in children {
        assert_eq!(child.release(), owned);
        assert_eq!(child.release(), Release::Nothing);
    }
}

#[test]
fn the_handle_gives_the_id_of_its_strategy() {
    assert_eq!(Child::Broker(unix::ChildInner::new(10, false)).id(), 10);
    assert_eq!(Child::Authorization(grant_child(11, 0x1000)).id(), 11);
    assert_eq!(Child::Shell(shell_child(0x44)).id(), 0);
}

#[test]
fn the_handle_reads_a_failure_in_the_way_of_its_strategy() {
    let minus_one = OsReply { ret: -1, status: 0, error: 10 };
    let zero = OsReply { ret: 0, status: 0, error: 10 };
    let mut broker = Child::Broker(unix::ChildInner::new(10, false));
    assert_eq!(broker.wait(&minus_one), Err(failure(10, Release::Nothing)));
    assert_eq!(broker.kill(&minus_one), Err(Error::Os(10)));
    assert_eq!(broker.kill(&zero), Ok(()));
    let mut shell = Child::Shell(shell_child(0x44));
    assert_eq!(shell.wait(&zero), Err(failure(10, Release::Nothing)));
    assert_eq!(shell.kill(&zero), Err(Error::Os(10)));
    assert_eq!(shell.kill(&minus_one), Ok(()));
    let mut grant = Child::Authorization(grant_child(11, 0x1000));
    assert_eq!(grant.kill(&minus_one), Err(Error::Os(10)));
    assert_eq!(grant.kill(&zero), Ok(()));
    let interrupted = OsReply { ret: -1, status: 0, error: libc::EINTR };
    assert_eq!(grant.wait(&interrupted), Ok(WaitStep::Retry));
    let no_child = OsReply { ret: -1, status: 0, error: libc::ECHILD };
    assert_eq!(grant.wait(&no_child), Err(failure(libc::ECHILD, Release::Grant(0x1000))));
    assert_eq!(grant.release(), Release::Nothing);
}

#[test]
fn every_strategy_releases_once_after_a_failed_wait() {
    let children = vec![
        (Child::Broker(unix::ChildInner::new(10, true)), -1, 0),
        (Child::Authorization(grant_child(11, 0x1000)), -1, 1),
        (Child::Shell(shell_child(0x44)), 0, 1),
    ];
    for (mut child, ret, owned) in children {
        let mut releases = 0;
        match child.wait(&OsReply { ret, status: 0, error: libc::ECHILD }) {
            Err(failed) => {
                assert_eq!(failed.error, Error::Os(libc::ECHILD));
                releases += count(failed.release);
            }
            Ok(_) => panic!("a failed wait that was not returned"),
        }
        releases += count(child.release());
        releases += count(child.release());
        assert_eq!(releases, owned);
    }
}

#[test]
fn the_broker_handle_keeps_its_broker() {
    let mut child = Child::Broker(unix::ChildInner::new(10, true));
    let _ = child.wait(&OsReply { ret: 0, status: 0, error: 0 });
    let _ = child.kill(&OsReply { ret: -1, status: 0, error: 3 });
    let _ = child.release();
    match child {
        Child::Broker(inner) => {
            assert!(inner.use_pkexec);
            assert_eq!(inner.pid, 10);
        }
        _ => panic!("a handle of another strategy"),
    }
}

#[test]
fn two_handles_share_nothing() {
    let mut first = Child::Shell(shell_child(0x44));
    let mut second = Child::Shell(shell_child(0x48));
    assert_eq!(first.release(), Release::Handle(0x44));
    assert_eq!(first.release(), Release::Nothing);
    assert_eq!(second.release(), Release::Handle(0x48));
    let mut third = Child::Authorization(grant_child(11, 0x1000));
    let mut fourth = Child::Authorization(grant_child(12, 0x2000));
    let done = OsReply { ret: 11, status: 0, error: 0 };
    assert_eq!(
        third.wait(&done),
        Ok(WaitStep::Exited(ExitStatus { bits: 0 }, Release::Grant(0x1000)))
    );
    assert_eq!(fourth.id(), 12);
    assert_eq!(fourth.release(), Release::Grant(0x2000));
}

#[test]
fn a_missing_program_is_not_found_by_the_authorization_service() {
    let mut cmd = Command::new("nonexistent-xyz");
    match cmd.spawn(Strategy::AuthorizationService, Some("/usr/bin:/bin")) {
        Err(e) => assert_eq!(e, Error::NotFound),
        Ok(_) => panic!("a request for a missing program"),
    }
}

#[test]
fn the_shell_strategy_gives_a_shell_request() {
    let mut cmd = Command::new("nonexistent-xyz");
    cmd.arg("a b");
    match cmd.spawn(Strategy::ShellVerb, None) {
        Ok(SpawnRequest::Shell(request)) => {
            assert_eq!(request.file, "nonexistent-xyz");
            assert_eq!(request.parameters, "\"a b\"");
            assert_eq!(request.show, 1);
        }
        _ => panic!("no shell request"),
    }
}

#[test]
fn the_broker_strategy_gives_a_broker_line_or_finds_none() {
    let mut cmd = Command::new("true");
    cmd.set_hide(true);
    match cmd.spawn(Strategy::BrokerDelegated, None) {
        Ok(SpawnRequest::Broker(launch)) => {
            assert_eq!(&launch.argv[1..3], ["--", "true"]);
            assert_eq!(launch.use_pkexec, launch.argv[0] == "pkexec");
            assert_eq!(launch.argv.len(), if launch.use_pkexec { 4 } else { 3 });
        }
        Ok(_) => panic!("a request of another strategy"),
        Err(e) => assert_eq!(e, Error::NotFound),
    }
}
