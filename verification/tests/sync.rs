use sol_p4_tools::command::CommandOutput;
use sol_p4_tools::sync::{p4_sync, p4_sync_output, SyncStep};

#[test]
fn empty_paths_returns_empty() {
    let r = match p4_sync(&vec![]) {
        SyncStep::Done(r) => r,
        SyncStep::Run(_) => panic!("an empty path list runs nothing"),
    };
    assert!(r.stdout.is_empty());
    assert!(r.stderr.is_empty());
}

#[test]
fn sync_runs_all_paths() {
    match p4_sync(&vec!["//a/...".to_string(), "/local/b".to_string()]) {
        SyncStep::Run(a) => assert_eq!(a, vec!["sync", "//a/...", "/local/b"]),
        SyncStep::Done(_) => panic!("paths must be synced"),
    }
}

#[test]
fn sync_output_is_raw() {
    let out = CommandOutput {
        success: false,
        code: Some(1),
        stdout: b"x\n".to_vec(),
        stderr: vec![0xff, b'e'],
        stdout_codepage: None,
    };
    let r = p4_sync_output(&Ok(out)).unwrap();
    assert_eq!(r.stdout, "x\n");
    assert_eq!(r.stderr, "\u{fffd}e");
    assert_eq!(p4_sync_output(&Err("boom".to_string())).err().unwrap(), "p4 sync 실행 실패: boom");
}
