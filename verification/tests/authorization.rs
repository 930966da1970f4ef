use runas::macos::{
    first_regular_file, get_exe_path, gui_request, gui_spawn, has_root, make_cstring,
    runas_spawn, search_candidates, GuiReply, GuiStage, GuiStep,
};
use runas::{Command, Error, ExitStatus, OsReply, Release, WaitFailure, WaitStep};
use std::path::Path;

fn strings(v: &[&str]) -> Vec<String> {
    v.iter().map(|s| s.to_string()).collect()
}

#[test]
fn paths_from_the_root() {
    assert!(has_root("/bin/ls"));
    assert!(has_root("/"));
    assert!(!has_root("ls"));
    assert!(!has_root("bin/ls"));
    assert!(!has_root(""));
}

#[test]
fn candidates_follow_the_search_path() {
    assert_eq!(
        search_candidates("/usr/bin:/bin", "ls"),
        strings(&["/usr/bin/ls", "/bin/ls"])
    );
}

#[test]
fn candidates_of_odd_directories() {
    assert_eq!(search_candidates("", "ls"), strings(&["ls"]));
    assert_eq!(search_candidates("/opt/", "ls"), strings(&["/opt/ls"]));
    assert_eq!(search_candidates("/", "ls"), strings(&["/ls"]));
    assert_eq!(search_candidates("a::b:", "x"), strings(&["a/x", "x", "b/x", "x"]));
    assert_eq!(search_candidates("rel/dir", "sub/x"), strings(&["rel/dir/sub/x"]));
}

#[test]
fn first_file_that_was_found_wins() {
    let files = strings(&["a/x", "b/x", "c/x"]);
    assert_eq!(first_regular_file(&files, &vec![false, true, true]), Some("b/x".to_string()));
    assert_eq!(first_regular_file(&files, &vec![true, false, false]), Some("a/x".to_string()));
    assert_eq!(first_regular_file(&files, &vec![false, false, false]), None);
    assert_eq!(first_regular_file(&files, &vec![false]), None);
    assert_eq!(first_regular_file(&files, &vec![]), None);
    assert_eq!(first_regular_file(&vec![], &vec![true]), None);
}

#[test]
fn a_path_from_the_root_is_taken_as_it_is() {
    assert_eq!(get_exe_path("/no/such/file", None), Some("/no/such/file".to_string()));
    assert_eq!(get_exe_path("/no/such/file", Some("/bin")), Some("/no/such/file".to_string()));
}

#[test]
fn a_name_is_searched_along_the_path() {
    let there = Path::new("/bin/sh").is_file();
    let expected = if there { Some("/bin/sh".to_string()) } else { None };
    assert_eq!(get_exe_path("sh", Some("/no/such/dir:/bin")), expected);
    assert_eq!(get_exe_path("nonexistent-xyz", Some("/no/such/dir:/no/other/dir")), None);
    assert_eq!(get_exe_path("sh", None), None);
}

#[test]
fn what_is_no_regular_file_is_no_match() {
    if !Path::new("/bin").is_file() {
        assert_eq!(get_exe_path("bin", Some("/")), None);
    }
}

#[test]
fn c_string_ends_in_zero() {
    assert_eq!(make_cstring("ab"), Ok(vec![b'a', b'b', 0]));
    assert_eq!(make_cstring(""), Ok(vec![0]));
    assert_eq!(make_cstring("é"), Ok(vec![0xc3, 0xa9, 0]));
}

#[test]
fn c_string_with_a_zero_byte_is_invalid() {
    assert_eq!(make_cstring("a\0b"), Err(Error::InvalidInput));
    assert_eq!(make_cstring("\0"), Err(Error::InvalidInput));
}

#[test]
fn request_without_a_program_is_not_found() {
    let cmd = Command::new("nonexistent-xyz");
    match gui_request(None, &cmd) {
        Err(e) => assert_eq!(e, Error::NotFound),
        Ok(_) => panic!("a request without a program"),
    }
}

#[test]
fn request_holds_the_arguments_only() {
    let mut cmd = Command::new("tool");
    cmd.args(&["-a", "b c"]);
    let request = gui_request(Some("/opt/tool".to_string()), &cmd).unwrap();
    assert_eq!(request.prog, b"/opt/tool\0".to_vec());
    assert_eq!(request.argv, vec![b"-a\0".to_vec(), b"b c\0".to_vec()]);
}

#[test]
fn request_with_a_zero_byte_is_invalid() {
    let mut cmd = Command::new("tool");
    cmd.arg("fine").arg("bad\0arg");
    match gui_request(Some("/opt/tool".to_string()), &cmd) {
        Err(e) => assert_eq!(e, Error::InvalidInput),
        Ok(_) => panic!("a request with a zero byte"),
    }
    match gui_request(Some("/opt/\0tool".to_string()), &Command::new("tool")) {
        Err(e) => assert_eq!(e, Error::InvalidInput),
        Ok(_) => panic!("a request with a zero byte"),
    }
}

#[test]
fn spawn_of_a_missing_program_is_not_found() {
    let cmd = Command::new("nonexistent-xyz");
    match runas_spawn(&cmd, Some("/no/such/dir:/no/other/dir")) {
        Err(e) => assert_eq!(e, Error::NotFound),
        Ok(_) => panic!("a request for a missing program"),
    }
    match runas_spawn(&cmd, None) {
        Err(e) => assert_eq!(e, Error::NotFound),
        Ok(_) => panic!("a request for a missing program"),
    }
}

#[test]
fn spawn_resolves_the_program() {
    let mut cmd = Command::new("sh");
    cmd.arg("-c");
    match runas_spawn(&cmd, Some("/bin")) {
        Ok(request) => {
            assert!(Path::new("/bin/sh").is_file());
            assert_eq!(request.prog, b"/bin/sh\0".to_vec());
            assert_eq!(request.argv, vec![b"-c\0".to_vec()]);
        }
        Err(e) => {
            assert!(!Path::new("/bin/sh").is_file());
            assert_eq!(e, Error::NotFound);
        }
    }
}

#[test]
fn spawn_takes_a_path_from_the_root_as_it_is() {
    let mut cmd = Command::new("/no/such/tool");
    cmd.arg("-c");
    let request = runas_spawn(&cmd, None).unwrap();
    assert_eq!(request.prog, b"/no/such/tool\0".to_vec());
    assert_eq!(request.argv, vec![b"-c\0".to_vec()]);
}

#[test]
fn a_refused_grant_is_permission_denied_and_releases_nothing() {
    let reply = GuiReply { ret: -60005, grant: 0, error: 0 };
    match gui_spawn(GuiStage::Create, &reply) {
        GuiStep::Failed(e, release) => {
            assert_eq!(e, Error::PermissionDenied);
            assert_eq!(release, Release::Nothing);
        }
        _ => panic!("a step after a refused grant"),
    }
}

#[test]
fn a_grant_is_handed_to_the_execution() {
    let reply = GuiReply { ret: 0, grant: 0x1000, error: 0 };
    match gui_spawn(GuiStage::Create, &reply) {
        GuiStep::Next(stage) => assert_eq!(stage, GuiStage::Execute(0x1000)),
        _ => panic!("no execution after a grant"),
    }
}

#[test]
fn a_failed_execution_releases_the_grant() {
    let reply = GuiReply { ret: -60006, grant: 0, error: 0 };
    match gui_spawn(GuiStage::Execute(0x1000), &reply) {
        GuiStep::Failed(e, release) => {
            assert_eq!(e, Error::PermissionDenied);
            assert_eq!(release, Release::Grant(0x1000));
        }
        _ => panic!("a step after a failed execution"),
    }
}

#[test]
fn an_execution_is_followed_by_the_query() {
    let reply = GuiReply { ret: 0, grant: 0, error: 0 };
    match gui_spawn(GuiStage::Execute(0x1000), &reply) {
        GuiStep::Next(stage) => assert_eq!(stage, GuiStage::Query(0x1000)),
        _ => panic!("no query after an execution"),
    }
}

#[test]
fn a_failed_query_gives_the_error_code_and_releases_the_grant() {
    let reply = GuiReply { ret: -1, grant: 0, error: 9 };
    match gui_spawn(GuiStage::Query(0x1000), &reply) {
        GuiStep::Failed(e, release) => {
            assert_eq!(e, Error::Os(9));
            assert_eq!(release, Release::Grant(0x1000));
        }
        _ => panic!("a step after a failed query"),
    }
}

fn spawned(pid: i32, grant: usize) -> runas::macos::ChildInner {
    match gui_spawn(GuiStage::Query(grant), &GuiReply { ret: pid, grant: 0, error: 0 }) {
        GuiStep::Spawned(child) => child,
        _ => panic!("no handle after a query that succeeded"),
    }
}

#[test]
fn the_handle_gives_the_recovered_id() {
    assert_eq!(spawned(321, 0x1000).id(), 321);
    assert_eq!(spawned(-2, 0x1000).id(), 0xffff_fffe);
}

#[test]
fn a_kill_sends_the_kill_signal() {
    let child = spawned(321, 0x1000);
    assert_eq!(child.kill_request(), (321, 9));
    assert_eq!(child.kill(&OsReply { ret: 0, status: 0, error: 0 }), Ok(()));
    assert_eq!(child.kill(&OsReply { ret: -1, status: 0, error: 3 }), Err(Error::Os(3)));
}

#[test]
fn an_interrupted_wait_is_made_again_and_keeps_the_grant() {
    let mut child = spawned(321, 0x1000);
    let interrupted = OsReply { ret: -1, status: 0, error: 4 };
    assert_eq!(child.wait_on(&interrupted, 4), Ok(WaitStep::Retry));
    assert_eq!(child.wait_on(&interrupted, 4), Ok(WaitStep::Retry));
    assert_eq!(child.release(), Release::Grant(0x1000));
}

#[test]
fn a_wait_gives_up_the_grant_once() {
    let mut child = spawned(321, 0x1000);
    let done = OsReply { ret: 321, status: 0x0100, error: 0 };
    assert_eq!(
        child.wait_on(&done, 4),
        Ok(WaitStep::Exited(ExitStatus { bits: 0x0100 }, Release::Grant(0x1000)))
    );
    assert_eq!(child.release(), Release::Nothing);
    assert_eq!(child.release(), Release::Nothing);
    assert_eq!(
        child.wait_on(&done, 4),
        Ok(WaitStep::Exited(ExitStatus { bits: 0x0100 }, Release::Nothing))
    );
}

#[test]
fn a_failed_wait_is_returned_and_gives_up_the_grant_once() {
    let mut child = spawned(321, 0x1000);
    let failed = OsReply { ret: -1, status: 0, error: 10 };
    assert_eq!(
        child.wait_on(&failed, 4),
        Err(WaitFailure { error: Error::Os(10), release: Release::Grant(0x1000) })
    );
    assert_eq!(
        child.wait_on(&failed, 4),
        Err(WaitFailure { error: Error::Os(10), release: Release::Nothing })
    );
    assert_eq!(child.release(), Release::Nothing);
    assert_eq!(child.id(), 321);
}

#[test]
fn the_same_answer_is_a_retry_or_a_failure_by_the_code_of_the_interruption() {
    let answer = OsReply { ret: -1, status: 0, error: 4 };
    assert_eq!(spawned(321, 0x1000).wait_on(&answer, 4), Ok(WaitStep::Retry));
    assert_eq!(
        spawned(321, 0x1000).wait_on(&answer, 27),
        Err(WaitFailure { error: Error::Os(4), release: Release::Grant(0x1000) })
    );
}

#[test]
fn a_wait_with_the_code_of_the_platform() {
    let mut child = spawned(321, 0x1000);
    let interrupted = OsReply { ret: -1, status: 0, error: libc::EINTR };
    assert_eq!(child.wait(&interrupted), Ok(WaitStep::Retry));
    let done = OsReply { ret: 321, status: 9, error: 0 };
    assert_eq!(
        child.wait(&done),
        Ok(WaitStep::Exited(ExitStatus { bits: 9 }, Release::Grant(0x1000)))
    );
}

#[test]
fn a_release_without_a_wait_gives_the_grant_once() {
    let mut child = spawned(321, 0x1000);
    assert_eq!(child.release(), Release::Grant(0x1000));
    assert_eq!(child.release(), Release::Nothing);
}
