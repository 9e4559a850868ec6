use sol_p4_tools::command::{CommandOutput, P4Override};
use sol_p4_tools::stream::{
    extract_info_field, extract_stream_name, p4config_client, parse_stream_from_spec, stream_from_info,
    stream_from_switch, stream_step, StreamAction, StreamEvent,
};

fn chars(s: &str) -> Vec<char> {
    s.chars().collect()
}

fn ok(stdout: &str) -> Result<CommandOutput, String> {
    Ok(CommandOutput {
        success: true,
        code: Some(0),
        stdout: stdout.as_bytes().to_vec(),
        stderr: vec![],
        stdout_codepage: None,
    })
}

fn failed(stdout: &str) -> Result<CommandOutput, String> {
    Ok(CommandOutput {
        success: false,
        code: Some(1),
        stdout: stdout.as_bytes().to_vec(),
        stderr: b"err".to_vec(),
        stdout_codepage: None,
    })
}

#[test]
fn stream_name_is_last_segment_lowercased() {
    assert_eq!(extract_stream_name(&chars("  //Depot/Main_Line  ")), Some("main_line".to_string()));
    assert_eq!(extract_stream_name(&chars("////x/Dev")), Some("dev".to_string()));
    assert_eq!(extract_stream_name(&chars("Rel")), Some("rel".to_string()));
    assert_eq!(extract_stream_name(&chars("//depot/")), None);
    assert_eq!(extract_stream_name(&chars("   ")), None);
}

#[test]
fn stream_from_client_spec() {
    let spec = "Client: ws\n\nRoot:\tC:\\ws\n\nStream:\t//Proj/DEV\nStream:\t//Proj/Other\n";
    assert_eq!(parse_stream_from_spec(spec), Some("dev".to_string()));
    assert_eq!(parse_stream_from_spec("Client: x\nRoot: y\n"), None);
    assert_eq!(parse_stream_from_spec("Stream: //p/\nStream: //p/b\n"), None);
}

#[test]
fn stream_from_switch_and_info() {
    assert_eq!(stream_from_switch("\n//depot/x\n  Main  \nother\n"), Some("main".to_string()));
    assert_eq!(stream_from_switch("//a\n\n"), None);
    let info = "User name: u\nClient stream: //p/\nClient stream: //p/Feature\n";
    assert_eq!(stream_from_info(info), Some("feature".to_string()));
    assert_eq!(stream_from_info("Client name: x\n"), None);
}

#[test]
fn info_fields() {
    let info = "User name: me\r\nClient name:  my_ws \r\nClient root: /w\n";
    assert_eq!(extract_info_field(info, "Client name:"), Some("my_ws".to_string()));
    assert_eq!(extract_info_field(info, "Client root:"), Some("/w".to_string()));
    assert_eq!(extract_info_field(info, "Client stream:"), None);
    assert_eq!(p4config_client("P4PORT=ssl:p4:1666\nP4CLIENT= ws_a \nP4CLIENT=ws_b\n"), Some("ws_a".to_string()));
    assert_eq!(p4config_client("P4PORT=x\n"), None);
}

fn run_args(a: &StreamAction) -> Vec<String> {
    match a {
        StreamAction::RunOverrideSpec(v)
        | StreamAction::RunConfigSpec(v)
        | StreamAction::RunSwitch(v)
        | StreamAction::RunInfo(v) => v.clone(),
        StreamAction::ReadConfig => vec!["<read>".to_string()],
        StreamAction::Done(s) => vec![format!("<done {s}>")],
    }
}

#[test]
fn stream_resolution_prefers_override_client() {
    let ovr = Some(P4Override { server: "ssl:p4:1666".into(), user: "".into(), client: "ws".into() });
    let a = stream_step(&ovr, true, StreamEvent::Start);
    assert_eq!(run_args(&a), vec!["-p", "ssl:p4:1666", "client", "-o", "ws"]);
    // The override's spec counts even when p4 exits non-zero.
    let a = stream_step(&ovr, true, StreamEvent::OverrideSpec(failed("Stream: //p/Main\n")));
    assert_eq!(run_args(&a), vec!["<done main>"]);
}

#[test]
fn stream_resolution_falls_through_in_order() {
    let no_client = Some(P4Override { server: "s".into(), user: "u".into(), client: "".into() });
    assert_eq!(run_args(&stream_step(&no_client, true, StreamEvent::Start)), vec!["<read>"]);
    assert_eq!(run_args(&stream_step(&None, false, StreamEvent::Start)), vec!["switch"]);
    assert_eq!(
        run_args(&stream_step(&None, true, StreamEvent::OverrideSpec(Err("x".into())))),
        vec!["<read>"]
    );
    assert_eq!(
        run_args(&stream_step(&None, true, StreamEvent::ConfigFile(Some("P4CLIENT=abc\n".into())))),
        vec!["client", "-o", "abc"]
    );
    assert_eq!(run_args(&stream_step(&None, true, StreamEvent::ConfigFile(None))), vec!["switch"]);
    // A failed spec run does not count for the .p4config client.
    assert_eq!(
        run_args(&stream_step(&None, true, StreamEvent::ConfigSpec(failed("Stream: //p/Main\n")))),
        vec!["switch"]
    );
    assert_eq!(
        run_args(&stream_step(&None, true, StreamEvent::ConfigSpec(ok("Stream: //p/Main\n")))),
        vec!["<done main>"]
    );
    assert_eq!(run_args(&stream_step(&None, true, StreamEvent::Switch(ok("//only/depot\n")))), vec!["info"]);
    assert_eq!(run_args(&stream_step(&None, true, StreamEvent::Switch(ok("Dev\n")))), vec!["<done dev>"]);
    assert_eq!(
        run_args(&stream_step(&None, true, StreamEvent::Info(ok("Client stream: //a/B\n")))),
        vec!["<done b>"]
    );
    assert_eq!(run_args(&stream_step(&None, true, StreamEvent::Info(failed("")))), vec!["<done >"]);
}
