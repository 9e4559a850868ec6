use sol_p4_tools::command::CommandOutput;
use sol_p4_tools::self_update::{
    after_binary_sync, classify_sync, self_update_unsupported, with_old_suffix, SelfUpdate, UpdateAction,
    UpdateEvent,
};

#[test]
fn with_old_suffix_appends() {
    assert_eq!(with_old_suffix("/x/my-tool.exe"), "/x/my-tool.exe.old");
}

#[test]
fn classify_sync_basic() {
    let stdout = "//depot/release/my-tool.exe#13 - updating /local/my-tool.exe\n";
    let stderr = "";
    let (u, e) = classify_sync(stdout, stderr);
    assert_eq!(u.len(), 1);
    assert!(e.is_empty());
}

#[test]
fn classify_sync_error_propagates() {
    let stdout = "";
    let stderr = "//depot/release/my-tool.exe - no such file";
    let (u, e) = classify_sync(stdout, stderr);
    assert!(u.is_empty());
    assert_eq!(e.len(), 1);
}

#[test]
fn classify_sync_skips_up_to_date() {
    let stdout = "";
    let stderr = "//depot/release/my-tool.exe - file(s) up-to-date.";
    let (u, e) = classify_sync(stdout, stderr);
    assert!(u.is_empty());
    assert!(e.is_empty());
}

#[test]
fn classify_sync_kinds_and_trimming() {
    let stdout = "  //a#1 - added as /l/a  \r\n//b#2 - refreshing /l/b\n//c#3 - deleted as /l/c\n\n";
    let stderr = "\n  warn one  \n//x - file(s) up-to-date.\n";
    let (u, e) = classify_sync(stdout, stderr);
    assert_eq!(u, vec!["//a#1 - added as /l/a".to_string(), "//b#2 - refreshing /l/b".to_string()]);
    assert_eq!(e, vec!["warn one".to_string()]);
}

fn output(success: bool, stdout: &str, stderr: &str) -> CommandOutput {
    CommandOutput {
        success,
        code: Some(if success { 0 } else { 1 }),
        stdout: stdout.as_bytes().to_vec(),
        stderr: stderr.as_bytes().to_vec(),
        stdout_codepage: None,
    }
}

#[test]
fn binary_sync_outcomes() {
    let v = after_binary_sync(&Err("not found".to_string()), true);
    assert!(v.restore);
    assert_eq!(v.outcome.err().unwrap(), "p4 sync 실행 실패: not found");

    let out = Ok(output(true, "//t.exe#2 - updating /l/t.exe\n", " e1 \n//t - file(s) up-to-date.\n"));
    let v = after_binary_sync(&out, false);
    assert!(v.restore);
    assert_eq!(v.outcome.err().unwrap(), "p4 sync 후에도 binary 가 없음. errors=1, stderr=e1 \n//t - file(s) up-to-date.");

    let v = after_binary_sync(&out, true);
    assert!(!v.restore);
    let r = v.outcome.ok().unwrap();
    assert_eq!(r.sync_updated, vec!["//t.exe#2 - updating /l/t.exe".to_string()]);
    assert_eq!(r.sync_errors, vec!["e1".to_string()]);
    assert_eq!(r.raw_stderr, " e1 \n//t - file(s) up-to-date.\n");
}

#[test]
fn self_update_only_on_windows() {
    assert!(self_update_unsupported(true).is_none());
    assert_eq!(
        self_update_unsupported(false),
        Some("자기 업데이트는 Windows 전용. macOS/Linux 는 dev rebuild 또는 수동 p4 sync 사용.".to_string())
    );
}

#[test]
fn self_update_steps_in_order() {
    let mut u = SelfUpdate::new("C:/t/tool.exe");
    assert!(matches!(u.step(UpdateEvent::Start { is_windows: true, old_exists: true }), UpdateAction::RemoveOld));
    assert!(matches!(u.step(UpdateEvent::OldRemoved), UpdateAction::RenameToOld));
    match u.step(UpdateEvent::Renamed(Ok(()))) {
        UpdateAction::RunSync(a) => assert_eq!(a, vec!["sync".to_string(), "C:/t/tool.exe".to_string()]),
        _ => panic!("sync after the move"),
    }
    let out = Ok(output(true, "//t.exe#2 - updating C:/t/tool.exe\n", ""));
    assert!(matches!(u.step(UpdateEvent::Synced(out, true)), UpdateAction::SpawnNew));
    assert!(matches!(u.step(UpdateEvent::Spawned(Ok(()))), UpdateAction::Exit));
    match u.step(UpdateEvent::Exited) {
        UpdateAction::Done(Ok(r)) => {
            assert_eq!(r.sync_updated, vec!["//t.exe#2 - updating C:/t/tool.exe".to_string()]);
            assert!(r.sync_errors.is_empty());
        }
        _ => panic!("answer after exit"),
    }
}

#[test]
fn self_update_refused_off_windows_before_touching_files() {
    let mut u = SelfUpdate::new("/t/tool");
    match u.step(UpdateEvent::Start { is_windows: false, old_exists: true }) {
        UpdateAction::Done(Err(m)) => {
            assert_eq!(m, "자기 업데이트는 Windows 전용. macOS/Linux 는 dev rebuild 또는 수동 p4 sync 사용.")
        }
        _ => panic!("refused"),
    }
    let mut u = SelfUpdate::new("C:/t/tool.exe");
    assert!(matches!(u.step(UpdateEvent::Start { is_windows: true, old_exists: false }), UpdateAction::RenameToOld));
}

#[test]
fn self_update_failures() {
    let mut u = SelfUpdate::new("C:/t/tool.exe");
    match u.step(UpdateEvent::Renamed(Err("denied".to_string()))) {
        UpdateAction::Done(Err(m)) => assert_eq!(m, "binary rename 실패 (running .exe → .old): denied"),
        _ => panic!("rename error"),
    }
    let mut u = SelfUpdate::new("C:/t/tool.exe");
    assert!(matches!(u.step(UpdateEvent::Synced(Err("no p4".to_string()), false)), UpdateAction::RestoreOld));
    match u.step(UpdateEvent::Restored) {
        UpdateAction::Done(Err(m)) => assert_eq!(m, "p4 sync 실행 실패: no p4"),
        _ => panic!("sync error after restore"),
    }
    let mut u = SelfUpdate::new("C:/t/tool.exe");
    let out = Ok(output(false, "", "//t.exe - no such file\n"));
    assert!(matches!(u.step(UpdateEvent::Synced(out, false)), UpdateAction::RestoreOld));
    match u.step(UpdateEvent::Restored) {
        UpdateAction::Done(Err(m)) => {
            assert_eq!(m, "p4 sync 후에도 binary 가 없음. errors=1, stderr=//t.exe - no such file")
        }
        _ => panic!("missing binary after restore"),
    }
    let mut u = SelfUpdate::new("C:/t/tool.exe");
    let out = Ok(output(true, "", ""));
    assert!(matches!(u.step(UpdateEvent::Synced(out, true)), UpdateAction::SpawnNew));
    match u.step(UpdateEvent::Spawned(Err("bad exe".to_string()))) {
        UpdateAction::Done(Err(m)) => assert_eq!(m, "새 binary spawn 실패 (수동 재실행 필요): bad exe"),
        _ => panic!("spawn error"),
    }
}
