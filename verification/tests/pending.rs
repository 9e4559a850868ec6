use sol_p4_tools::changes::{fetch_user_fullnames, PendingAction, PendingChanges, PendingEvent};
use sol_p4_tools::command::CommandOutput;
use sol_p4_tools::fstat::stale_head_changes;

fn ok(stdout: &str) -> Result<CommandOutput, String> {
    Ok(CommandOutput {
        success: true,
        code: Some(0),
        stdout: stdout.as_bytes().to_vec(),
        stderr: vec![],
        stdout_codepage: None,
    })
}

fn failed(stderr: &str) -> Result<CommandOutput, String> {
    Ok(CommandOutput {
        success: false,
        code: Some(1),
        stdout: vec![],
        stderr: stderr.as_bytes().to_vec(),
        stdout_codepage: None,
    })
}

const FSTAT: &str = "... depotFile //d/a\n... haveRev 1\n... headRev 2\n... headChange 40\n\n\
... depotFile //d/new\n... headRev 1\n... headChange 7\n\n\
... depotFile //d/b\n... haveRev 3\n... headRev 4\n... headChange 42\n\n\
... depotFile //d/c\n... haveRev 3\n... headRev 3\n... headChange 41\n";

#[test]
fn stale_head_changes_skip_unsynced_files() {
    let mut h = stale_head_changes(FSTAT);
    h.sort();
    assert_eq!(h, vec![40, 42]);
    let mut h = stale_head_changes("... haveRev 1\n... headRev 2\n... headChange 5\n\n... haveRev 1\n... headRev 3\n... headChange 5\n");
    h.sort();
    assert_eq!(h, vec![5]);
}

#[test]
fn pending_listing_end_to_end() {
    let mut p = PendingChanges::new("//d/...");
    match p.step(PendingEvent::Start) {
        PendingAction::RunFstat(a) => assert_eq!(a, vec!["fstat", "-T", "depotFile,haveRev,headRev,headChange", "//d/..."]),
        _ => panic!("fstat first"),
    }
    match p.step(PendingEvent::Fstat(ok(FSTAT))) {
        PendingAction::RunChanges(a) => {
            assert_eq!(a, vec!["-Mj", "-ztag", "changes", "-l", "-s", "submitted", "//d/...@40,#head"])
        }
        _ => panic!("changes next"),
    }
    let changes = "{\"change\":\"40\",\"user\":\"a\",\"client\":\"c\",\"desc\":\"one\",\"time\":\"1\"}\n\
                   {\"change\":\"41\",\"user\":\"b\",\"client\":\"c\",\"desc\":\"two\",\"time\":\"2\"}\n\
                   {\"change\":\"42\",\"user\":\"b\",\"client\":\"c\",\"desc\":\"three\",\"time\":\"3\"}\n";
    match p.step(PendingEvent::Changes(ok(changes))) {
        PendingAction::RunUsers(a) => assert_eq!(a, vec!["-Mj", "-ztag", "users"]),
        _ => panic!("users next"),
    }
    let users = "{\"User\":\"a\",\"FullName\":\"Alice\"}\n";
    match p.step(PendingEvent::Users(ok(users))) {
        PendingAction::Done(Ok(v)) => {
            assert_eq!(v.len(), 2);
            assert_eq!((v[0].number, v[0].user_fullname.as_str()), (40, "Alice"));
            assert_eq!((v[1].number, v[1].user_fullname.as_str()), (42, "b"));
        }
        _ => panic!("done"),
    }
}

#[test]
fn pending_listing_stops_early() {
    let mut p = PendingChanges::new("//d/...");
    let _ = p.step(PendingEvent::Start);
    match p.step(PendingEvent::Fstat(ok("... haveRev 2\n... headRev 2\n... headChange 9\n"))) {
        PendingAction::Done(Ok(v)) => assert!(v.is_empty()),
        _ => panic!("no stale file, no changelist"),
    }
    let mut p = PendingChanges::new("//d/...");
    match p.step(PendingEvent::Fstat(failed("locked\n"))) {
        PendingAction::Done(Err(e)) => assert_eq!(e, "p4 fstat (for changes) non-zero exit (code=Some(1)): locked"),
        _ => panic!("error"),
    }
    let mut p = PendingChanges::new("//d/...");
    let _ = p.step(PendingEvent::Fstat(ok(FSTAT)));
    match p.step(PendingEvent::Changes(Err("gone".into()))) {
        PendingAction::Done(Err(e)) => assert_eq!(e, "p4 changes failed: gone"),
        _ => panic!("error"),
    }
}

#[test]
fn failed_user_lookup_falls_back_to_ids() {
    assert!(fetch_user_fullnames(&failed("x")).is_empty());
    assert!(fetch_user_fullnames(&Err("x".into())).is_empty());
}
