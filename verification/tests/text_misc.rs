use sol_p4_tools::command::CommandOutput;
use sol_p4_tools::diagnostics::{client_matches_exe, is_path_prefix, p4_info_text, p4_version_text};
use sol_p4_tools::encoding::decode_p4_stdout;
use sol_p4_tools::metadata_io::{is_metadata_file_name, metadata_file_records, parse_json_text, strip_bom};
use sol_p4_tools::diagnostics::diagnostics;

fn comps(p: &[&str]) -> Vec<String> {
    p.iter().map(|s| s.to_string()).collect()
}

#[test]
fn decode_prefers_utf8_then_codepage_then_lossy() {
    assert_eq!(decode_p4_stdout("한글 ok".as_bytes(), Some("ignored".into())), "한글 ok");
    assert_eq!(decode_p4_stdout(&[0xc7, 0xd1], Some("한".into())), "한");
    assert_eq!(decode_p4_stdout(&[b'a', 0xff], None), "a\u{fffd}");
}

#[test]
fn bom_is_stripped_once() {
    assert_eq!(strip_bom("\u{feff}{\"a\":1}".as_bytes()), "{\"a\":1}");
    assert_eq!(strip_bom("\u{feff}\u{feff}x".as_bytes()), "\u{feff}x");
    assert_eq!(strip_bom(b"plain"), "plain");
    assert_eq!(strip_bom(&[0xff, 0xfe]), "");
}

#[test]
fn metadata_file_names() {
    assert!(is_metadata_file_name("Item_0.json"));
    assert!(!is_metadata_file_name("Item_0.json.tmp"));
    assert!(!is_metadata_file_name("json"));
}

#[test]
fn path_prefix_is_component_wise() {
    let root = comps(&["C:", "\\", "Perforce", "foo"]);
    let other = comps(&["C:", "\\", "Perforce", "foo_other"]);
    let inside = comps(&["C:", "\\", "Perforce", "foo", "Deploy"]);
    assert!(!is_path_prefix(&root, &other, false));
    assert!(is_path_prefix(&root, &inside, false));
    assert!(!is_path_prefix(&inside, &root, false));
    assert!(is_path_prefix(&root, &root, false));
    let upper = comps(&["C:", "\\", "PERFORCE", "Foo"]);
    assert!(!is_path_prefix(&upper, &inside, false));
    assert!(is_path_prefix(&upper, &inside, true));
}

#[test]
fn client_match_either_direction() {
    let p = Some(comps(&["/", "w", "branch"]));
    let r = Some(comps(&["/", "w"]));
    assert!(client_matches_exe(&p, &r, false));
    assert!(client_matches_exe(&r, &p, false));
    assert!(!client_matches_exe(&p, &None, false));
    assert!(!client_matches_exe(&Some(comps(&["/", "x"])), &r, false));
}

#[test]
fn diagnostics_texts() {
    let ok = |stdout: &str, stderr: &str, success: bool| -> Result<CommandOutput, String> {
        Ok(CommandOutput {
            success,
            code: None,
            stdout: stdout.as_bytes().to_vec(),
            stderr: stderr.as_bytes().to_vec(),
            stdout_codepage: None,
        })
    };
    assert_eq!(p4_version_text(&ok("Rev. P4/2024\n", "", true)), "Rev. P4/2024\n");
    assert_eq!(p4_version_text(&ok("x", "", false)), "(p4 unavailable)");
    assert_eq!(p4_info_text(&ok("  \n", "connect failed", false)), "connect failed");
    assert_eq!(p4_info_text(&ok("User name: u\n", "e", false)), "User name: u\n");
    assert_eq!(p4_info_text(&Err("x".into())), "(p4 unavailable)");
}

#[test]
fn metadata_records_tagged_with_their_file() {
    let bytes = "\u{feff}[{\"id\":1},{\"id\":2},7]".as_bytes();
    let r = metadata_file_records("Item_3.json", bytes);
    assert_eq!(r.len(), 3);
    assert_eq!(r[0]["id"], 1);
    assert_eq!(r[0]["_sourceFile"], "Item_3.json");
    assert_eq!(r[1]["id"], 2);
    assert_eq!(r[1]["_sourceFile"], "Item_3.json");
    assert_eq!(r[2], 7);
    let r = metadata_file_records("b.json", b"[{\"_sourceFile\":\"old\",\"k\":\"v\"},[1],\"s\"]");
    assert_eq!(r.len(), 3);
    assert_eq!(r[0]["_sourceFile"], "b.json");
    assert_eq!(r[0]["k"], "v");
    assert_eq!(r[1][0], 1);
    assert_eq!(r[2], "s");
    assert!(metadata_file_records("empty.json", b"[]").is_empty());
    assert!(metadata_file_records("Item_3.txt", bytes).is_empty());
    assert!(metadata_file_records("a.json", b"{\"id\":1}").is_empty());
    assert!(metadata_file_records("a.json", b"[1,").is_empty());
    assert!(metadata_file_records("a.json", &[0xff]).is_empty());
}

#[test]
fn json_text_reading() {
    let v = parse_json_text("x.json", "\u{feff}{\"a\":[1]}".as_bytes()).unwrap();
    assert_eq!(v["a"][0], 1);
    let e = parse_json_text("x.json", b"{oops").err().unwrap();
    assert!(e.starts_with("parse x.json: "), "got {e}");
    assert!(e.len() > "parse x.json: ".len());
    assert!(parse_json_text("x.json", &[0xff]).is_err());
}

#[test]
fn diagnostics_computes_client_match() {
    let d = diagnostics(
        "1.0",
        "linux x86_64".to_string(),
        None,
        None,
        &" v \n".to_string(),
        &"Client name: ws\nClient root: /w\n".to_string(),
        Some("/w/branch".to_string()),
        None,
        false,
        vec![],
    );
    assert!(d.client_matches_exe);
    assert_eq!(d.p4_version, "v");
    assert_eq!(d.p4_client_name, Some("ws".to_string()));
    assert_eq!(d.p4_client_root, Some("/w".to_string()));
    let d = diagnostics("1.0", String::new(), None, None, &String::new(),
        &"Client root: /w\n".to_string(), Some("/x".to_string()), None, false, vec![]);
    assert!(!d.client_matches_exe);
    // A shared stem is not containment.
    let d = diagnostics("1.0", String::new(), None, None, &String::new(),
        &"Client root: /w/foo\n".to_string(), Some("/w/foo_other".to_string()), None, false, vec![]);
    assert!(!d.client_matches_exe);
    // The project root may contain the client root too; a missing root never matches.
    let d = diagnostics("1.0", String::new(), None, None, &String::new(),
        &"Client root: /w/b/c/\n".to_string(), Some("/w//b".to_string()), None, false, vec![]);
    assert!(d.client_matches_exe);
    let d = diagnostics("1.0", String::new(), None, None, &String::new(),
        &"Client name: ws\n".to_string(), Some("/w".to_string()), None, false, vec![]);
    assert!(!d.client_matches_exe);
}
