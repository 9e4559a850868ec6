use sol_p4_tools::command::{nonzero_exit_message, p4_cmd_args, CommandOutput, P4Connection, P4Override};
use sol_p4_tools::p4::{
    added_file_diff, added_file_result, check_concurrent_edits, check_stale_revisions, clients_failure_message,
    concurrent_edits_in, is_add_action, list_p4_workspace_names, local_path_in, opened_files, p4_add, p4_delete,
    p4_diff_result, p4_edit, p4_failure, p4_max_protect, p4_revert, p4_revert_unchanged, parse_opened_files,
    parse_workspace_names, pending_file_change, resolve_local_path, workspace_from_spec, workspace_of,
};
use sol_p4_tools::queries::{clients_args, client_spec_args, stale_revisions_args};

fn out(success: bool, code: Option<i32>, stdout: &str, stderr: &str) -> CommandOutput {
    CommandOutput {
        success,
        code,
        stdout: stdout.as_bytes().to_vec(),
        stderr: stderr.as_bytes().to_vec(),
        stdout_codepage: None,
    }
}

#[test]
fn failure_messages() {
    assert_eq!(p4_failure("p4 fstat", &Err("not found".into())), Some("p4 fstat failed: not found".to_string()));
    assert_eq!(
        p4_failure("p4 fstat", &Ok(out(false, Some(1), "", "  session expired \n"))),
        Some("p4 fstat non-zero exit (code=Some(1)): session expired".to_string())
    );
    assert_eq!(
        nonzero_exit_message("p4 changes", &out(false, None, "", "x")),
        "p4 changes non-zero exit (code=None): x"
    );
    assert_eq!(
        nonzero_exit_message("p4 changes", &out(false, Some(-3), "", "")),
        "p4 changes non-zero exit (code=Some(-3)): "
    );
    assert_eq!(p4_failure("p4 fstat", &Ok(out(true, Some(0), "", "warn"))), None);
}

#[test]
fn stale_revisions_from_fstat() {
    let text = "... depotFile //d/a.json\n... haveRev 3\n... headRev 5\n\n\
                ... depotFile //d/b.json\n... haveRev 5\n... headRev 5\n\n\
                ... depotFile //d/new.json\n... headRev 1\n\n\
                ... depotFile //d/c.json\n... haveRev x\n... headRev 9\n\n\
                ... depotFile //d/d.json\n... haveRev 10\n... headRev 12";
    let r = check_stale_revisions(&Ok(out(true, Some(0), text, ""))).unwrap();
    assert_eq!(r, vec!["//d/a.json (local #3 < depot #5)", "//d/d.json (local #10 < depot #12)"]);
    let e = check_stale_revisions(&Ok(out(false, Some(1), "", "Perforce password (P4PASSWD) invalid or unset.\n")));
    assert_eq!(
        e.err().unwrap(),
        "p4 fstat non-zero exit (code=Some(1)): Perforce password (P4PASSWD) invalid or unset."
    );
    assert_eq!(check_stale_revisions(&Err("no p4".into())).err().unwrap(), "p4 fstat failed: no p4");
}

#[test]
fn concurrent_edits_skip_our_client() {
    let text = "//d/a.json#3 - edit default change (text) by bob@bob_ws *locked*\n\
                //d/b.json#1 - edit default change (text) by me@my_ws\n\
                no marker here\n\n\
                //d/c.json - add change 5 (text) by carol";
    assert_eq!(
        concurrent_edits_in(text, "my_ws"),
        vec!["//d/a.json (bob@bob_ws)", "//d/c.json - add change 5 (text) (carol)"]
    );
    assert_eq!(concurrent_edits_in(text, "").len(), 3);
    let info = Ok(out(true, Some(0), "Client name: my_ws\n", ""));
    let r = check_concurrent_edits(&Ok(out(true, Some(0), text, "")), &info).unwrap();
    assert_eq!(r.len(), 2);
    let r = check_concurrent_edits(&Ok(out(true, Some(0), text, "")), &Err("gone".into())).unwrap();
    assert_eq!(r.len(), 3);
    let e = check_concurrent_edits(&Ok(out(false, Some(1), "", "boom")), &info).err().unwrap();
    assert_eq!(e, "p4 opened -a non-zero exit (code=Some(1)): boom");
}

#[test]
fn opened_files_and_where() {
    let text = "//d/a.json#3 - edit default change (text)\n//d/b.json#1 - add change 12 (text) - extra - more\n//d/c.json#1 -    - x\nbad line\n";
    let r = parse_opened_files(text);
    assert_eq!(
        r,
        vec![
            ("//d/a.json".to_string(), "edit".to_string()),
            ("//d/b.json".to_string(), "add".to_string()),
            ("//d/c.json".to_string(), "edit".to_string()),
        ]
    );
    assert!(opened_files(&Err("x".into())).is_empty());
    assert_eq!(opened_files(&Ok(out(false, Some(1), text, ""))).len(), 3);
    let w = "//d/a.json //ws/a.json /home/me/ws/a.json\n//other\n";
    assert_eq!(local_path_in(w), Some("/home/me/ws/a.json".to_string()));
    assert_eq!(local_path_in(""), None);
    assert_eq!(resolve_local_path(&Ok(out(true, Some(0), w, ""))), Some("/home/me/ws/a.json".to_string()));
    assert_eq!(resolve_local_path(&Err("x".into())), None);
    let f = pending_file_change("//d/a".into(), "edit".into(), None);
    assert_eq!(f.local_path, "");
}

#[test]
fn file_operations() {
    assert!(p4_edit(&Ok(out(true, Some(0), "", ""))).is_ok());
    assert_eq!(p4_edit(&Err("spawn".into())).err().unwrap(), "p4 edit: spawn");
    assert_eq!(p4_add(&Ok(out(false, Some(1), "", "not in client view\n"))).err().unwrap(), "not in client view\n");
    assert_eq!(p4_revert_unchanged(&Err("e".into())).err().unwrap(), "p4 revert -a: e");
    assert_eq!(p4_delete(&Err("e".into())).err().unwrap(), "p4 delete: e");
    assert_eq!(p4_revert(&Err("e".into())).err().unwrap(), "p4 revert: e");
}

#[test]
fn max_protect_levels() {
    assert_eq!(p4_max_protect(&Ok(out(true, Some(0), " write \n", ""))).unwrap(), "write");
    assert_eq!(p4_max_protect(&Ok(out(true, Some(0), "  \n", ""))).unwrap(), "none");
    assert_eq!(
        p4_max_protect(&Ok(out(false, Some(1), "", "Protections table is empty: no protections defined.\n"))).unwrap(),
        "none"
    );
    assert_eq!(p4_max_protect(&Ok(out(false, Some(1), "", "You have no permission.\n"))).unwrap(), "none");
    assert_eq!(p4_max_protect(&Ok(out(false, Some(1), "", " connect failed \n"))).err().unwrap(), "connect failed");
    assert_eq!(p4_max_protect(&Err("e".into())).err().unwrap(), "p4 protects: e");
}

#[test]
fn workspaces() {
    let text = "Client ws_a 2024/01/01 root /w/a 'desc'\nClient short line\nNotClient x y z w v\n";
    assert_eq!(parse_workspace_names(text), vec!["ws_a"]);
    assert_eq!(list_p4_workspace_names(&Ok(out(true, Some(0), text, ""))).unwrap(), vec!["ws_a"]);
    assert_eq!(list_p4_workspace_names(&Ok(out(false, Some(1), "", ""))).err().unwrap(), "p4 clients failed");
    assert_eq!(list_p4_workspace_names(&Ok(out(false, Some(1), "", "bad user"))).err().unwrap(), "bad user");
    assert_eq!(clients_failure_message(&Err("e".into())), Some("p4 unavailable: e".to_string()));
    let spec = "Client:\tws_a\nRoot:\t /w/a \nStream:\t//P/Main\nRoot: /w/b\n";
    let w = workspace_from_spec("ws_a", Some(spec));
    assert_eq!((w.name.as_str(), w.stream.as_str(), w.root.as_str()), ("ws_a", "main", "/w/b"));
    let w = workspace_of("x", &Err("e".into()));
    assert_eq!((w.stream.as_str(), w.root.as_str()), ("", ""));
    let w = workspace_of("x", &Ok(out(false, Some(1), "Stream: //p/\nRoot: r\n", "")));
    assert_eq!((w.stream.as_str(), w.root.as_str()), ("", "r"));
}

#[test]
fn diffs() {
    assert_eq!(added_file_diff("a.json", "x\r\ny\n"), "--- /dev/null\n+++ a.json\n@@ -0,0 +1,2 @@\n+x\n+y");
    assert_eq!(added_file_diff("e", ""), "--- /dev/null\n+++ e\n@@ -0,0 +1,0 @@\n");
    assert!(is_add_action("add"));
    assert!(!is_add_action("edit"));
    assert!(!is_add_action("addx"));
    assert_eq!(added_file_result("f".into(), &Err("gone".into())).err().unwrap(), "read failed: gone");
    let d = p4_diff_result("f".into(), &Ok(out(false, Some(1), "--- a\n", ""))).ok().unwrap();
    assert_eq!((d.file.as_str(), d.diff.as_str()), ("f", "--- a\n"));
    assert_eq!(p4_diff_result("f".into(), &Err("e".into())).err().unwrap(), "p4 diff failed: e");
}

#[test]
fn command_lines() {
    let o = Some(P4Override { server: "ssl:p4:1666".into(), user: "".into(), client: "ws".into() });
    assert_eq!(p4_cmd_args(&o), vec!["-p", "ssl:p4:1666", "-c", "ws"]);
    assert!(p4_cmd_args(&None).is_empty());
    let mut c = P4Connection::new();
    assert!(c.p4_cmd_args().is_empty());
    c.set_p4_connection("s".into(), "u".into(), "c".into());
    assert_eq!(c.p4_cmd_args(), vec!["-p", "s", "-u", "u", "-c", "c"]);
    assert_eq!(c.get_override().unwrap().client, "c");
    c.clear_p4_connection();
    assert!(c.p4_cmd_args().is_empty());
    assert!(c.get_override().is_none());
    assert_eq!(clients_args(&"".into(), &"me".into()), vec!["-u", "me", "clients", "-u", "me"]);
    assert_eq!(client_spec_args(&"s".into(), &"".into(), "w"), vec!["-p", "s", "client", "-o", "w"]);
    assert_eq!(stale_revisions_args("//d/..."), vec!["fstat", "-T", "depotFile,haveRev,headRev", "//d/..."]);
}
