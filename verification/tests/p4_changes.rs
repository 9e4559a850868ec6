use sol_p4_tools::changes::{change_from_members, parse_p4_changes, parse_user_fullnames, lookup_fullname, select_pending_changes, changes_range, P4Change};

#[test]
fn parse_single_change_json() {
    let s = r#"{"change":"12345","user":"jonghyun","client":"my_client","desc":"First line.\nSecond.","time":"1778499509"}"#;
    let r = parse_p4_changes(s);
    assert_eq!(r.len(), 1);
    assert_eq!(r[0].number, 12345);
    assert_eq!(r[0].user, "jonghyun");
    assert_eq!(r[0].client, "my_client");
    assert_eq!(r[0].time, 1778499509);
    assert_eq!(r[0].description, "First line.");
}

#[test]
fn parse_multiple_changes_json() {
    let s = "{\"change\":\"100\",\"user\":\"a\",\"client\":\"c1\",\"desc\":\"desc a\",\"time\":\"1\"}\n{\"change\":\"101\",\"user\":\"b\",\"client\":\"c2\",\"desc\":\"desc b\",\"time\":\"2\"}\n";
    let r = parse_p4_changes(s);
    assert_eq!(r.len(), 2);
    assert_eq!(r[0].number, 100);
    assert_eq!(r[0].description, "desc a");
    assert_eq!(r[1].number, 101);
    assert_eq!(r[1].description, "desc b");
}

#[test]
fn parse_empty() {
    let r = parse_p4_changes("");
    assert_eq!(r.len(), 0);
}

#[test]
fn parse_malformed_line_skipped() {
    let s = "garbage line\n{\"change\":\"\",\"user\":\"x\"}\n{\"change\":\"42\",\"user\":\"u\",\"client\":\"c\",\"desc\":\"ok\",\"time\":\"1\"}\n";
    let r = parse_p4_changes(s);
    assert_eq!(r.len(), 1);
    assert_eq!(r[0].number, 42);
}

#[test]
fn parse_korean_description_preserved() {
    let s = r#"{"change":"7","user":"u","client":"c","desc":"[기획][서영오] 월드 보스 (50 -> 30)","time":"1"}"#;
    let r = parse_p4_changes(s);
    assert_eq!(r.len(), 1);
    assert_eq!(r[0].description, "[기획][서영오] 월드 보스 (50 -> 30)");
}

fn some(s: &str) -> Option<String> {
    Some(s.to_string())
}

#[test]
fn change_from_members_defaults() {
    let c = change_from_members(&some("9"), &None, &None, &some("x"), &some("\n  \n  second line  \nthird")).unwrap();
    assert_eq!(c.number, 9);
    assert_eq!(c.user, "");
    assert_eq!(c.client, "");
    assert_eq!(c.time, 0);
    assert_eq!(c.description, "second line");
    assert_eq!(c.user_fullname, "");
}

#[test]
fn change_from_members_rejects_zero_and_garbage_numbers() {
    assert!(change_from_members(&some("0"), &None, &None, &None, &None).is_none());
    assert!(change_from_members(&some("12a"), &None, &None, &None, &None).is_none());
    assert!(change_from_members(&None, &some("u"), &None, &None, &None).is_none());
    assert_eq!(change_from_members(&some("-5"), &None, &None, &None, &None).unwrap().number, -5);
    assert_eq!(change_from_members(&some("+5"), &None, &None, &None, &None).unwrap().number, 5);
    assert!(change_from_members(&some("99999999999999999999"), &None, &None, &None, &None).is_none());
}

#[test]
fn change_with_numeric_member_is_not_a_string() {
    let s = r#"{"change":12,"user":"u"}"#;
    assert_eq!(parse_p4_changes(s).len(), 0);
}

#[test]
fn user_fullnames_later_entry_wins() {
    let s = "{\"User\":\"a\",\"FullName\":\"Alice\"}\n\nnot json\n{\"User\":\"b\",\"FullName\":\"\"}\n{\"FullName\":\"Nobody\"}\n{\"User\":\"a\",\"FullName\":\"Alice B\"}\n";
    let names = parse_user_fullnames(s);
    assert_eq!(names.len(), 2);
    assert_eq!(lookup_fullname(&names, &"a".to_string()), some("Alice B"));
    assert_eq!(lookup_fullname(&names, &"b".to_string()), None);
}

fn change(number: i64, user: &str) -> P4Change {
    P4Change {
        number,
        user: user.to_string(),
        user_fullname: String::new(),
        client: "c".to_string(),
        time: 1,
        description: "d".to_string(),
    }
}

#[test]
fn pending_selection_filters_and_fills_names() {
    let parsed = vec![change(10, "a"), change(11, "b"), change(12, "a")];
    let names = vec![("a".to_string(), "Alice".to_string())];
    let r = select_pending_changes(parsed, &vec![12, 11], &names);
    assert_eq!(r.len(), 2);
    assert_eq!(r[0].number, 11);
    assert_eq!(r[0].user_fullname, "b");
    assert_eq!(r[1].number, 12);
    assert_eq!(r[1].user_fullname, "Alice");
}

#[test]
fn changes_range_uses_smallest_head_change() {
    assert_eq!(changes_range("//depot/...", &vec![30, 7, 12]), some("//depot/...@7,#head"));
    assert_eq!(changes_range("//depot/...", &vec![]), None);
}

#[test]
fn changes_lines_are_read_independently() {
    let a = "{\"change\":\"1\",\"user\":\"u\",\"desc\":\"x\"}\r";
    let b = "\n{\"change\":\"2\",\"user\":\"v\"}\n";
    let whole = parse_p4_changes(&format!("{a}\n{b}"));
    let mut parts = parse_p4_changes(a);
    parts.extend(parse_p4_changes(b));
    assert_eq!(whole.len(), 2);
    assert_eq!(whole.len(), parts.len());
    for (w, p) in whole.iter().zip(parts.iter()) {
        assert_eq!((w.number, &w.user, &w.description), (p.number, &p.user, &p.description));
    }
}
