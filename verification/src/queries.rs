//! The argument lists of the `p4` commands that the library's operations
//! run (after `p4` and the override's global options).
use vstd::prelude::*;
use crate::command::{server_user_args, server_user_flags};
use crate::text::push_str;

verus! {

/// `fstat -T depotFile,haveRev,headRev <pattern>` (stale files).
pub fn stale_revisions_args(pattern: &str) -> (r: Vec<String>)
    ensures
        r.deep_view() == seq!["fstat"@, "-T"@, "depotFile,haveRev,headRev"@, pattern@],
{
    let mut a: Vec<String> = Vec::new();
    assert(a.deep_view() =~= Seq::<Seq<char>>::empty());
    push_str(&mut a, "fstat");
    push_str(&mut a, "-T");
    push_str(&mut a, "depotFile,haveRev,headRev");
    push_str(&mut a, pattern);
    assert(a.deep_view() =~= seq!["fstat"@, "-T"@, "depotFile,haveRev,headRev"@, pattern@]);
    a
}

/// `fstat -T depotFile,haveRev,headRev,headChange <pattern>` (the head
/// changes of stale files).
pub fn pending_fstat_args(pattern: &str) -> (r: Vec<String>)
    ensures
        r.deep_view() == seq!["fstat"@, "-T"@, "depotFile,haveRev,headRev,headChange"@, pattern@],
{
    let mut a: Vec<String> = Vec::new();
    assert(a.deep_view() =~= Seq::<Seq<char>>::empty());
    push_str(&mut a, "fstat");
    push_str(&mut a, "-T");
    push_str(&mut a, "depotFile,haveRev,headRev,headChange");
    push_str(&mut a, pattern);
    assert(a.deep_view() =~= seq![
        "fstat"@,
        "-T"@,
        "depotFile,haveRev,headRev,headChange"@,
        pattern@,
    ]);
    a
}

/// `-Mj -ztag changes -l -s submitted <range>` (JSON lines, so that the
/// console code page cannot garble descriptions).
pub fn changes_args(range: &str) -> (r: Vec<String>)
    ensures
        r.deep_view() == seq![
            "-Mj"@,
            "-ztag"@,
            "changes"@,
            "-l"@,
            "-s"@,
            "submitted"@,
            range@,
        ],
{
    let mut a: Vec<String> = Vec::new();
    assert(a.deep_view() =~= Seq::<Seq<char>>::empty());
    push_str(&mut a, "-Mj");
    push_str(&mut a, "-ztag");
    push_str(&mut a, "changes");
    push_str(&mut a, "-l");
    push_str(&mut a, "-s");
    push_str(&mut a, "submitted");
    push_str(&mut a, range);
    assert(a.deep_view() =~= seq![
        "-Mj"@,
        "-ztag"@,
        "changes"@,
        "-l"@,
        "-s"@,
        "submitted"@,
        range@,
    ]);
    a
}

/// `-Mj -ztag users`.
pub fn users_args() -> (r: Vec<String>)
    ensures
        r.deep_view() == seq!["-Mj"@, "-ztag"@, "users"@],
{
    let mut a: Vec<String> = Vec::new();
    assert(a.deep_view() =~= Seq::<Seq<char>>::empty());
    push_str(&mut a, "-Mj");
    push_str(&mut a, "-ztag");
    push_str(&mut a, "users");
    assert(a.deep_view() =~= seq!["-Mj"@, "-ztag"@, "users"@]);
    a
}

/// A command word and one operand: `<word> <operand>`.
pub fn word_operand_args(word: &str, operand: &str) -> (r: Vec<String>)
    ensures
        r.deep_view() == seq![word@, operand@],
{
    let mut a: Vec<String> = Vec::new();
    assert(a.deep_view() =~= Seq::<Seq<char>>::empty());
    push_str(&mut a, word);
    push_str(&mut a, operand);
    assert(a.deep_view() =~= seq![word@, operand@]);
    a
}

/// A command word, one flag and one operand: `<word> <flag> <operand>`.
pub fn word_flag_operand_args(word: &str, flag: &str, operand: &str) -> (r: Vec<String>)
    ensures
        r.deep_view() == seq![word@, flag@, operand@],
{
    let mut a: Vec<String> = Vec::new();
    assert(a.deep_view() =~= Seq::<Seq<char>>::empty());
    push_str(&mut a, word);
    push_str(&mut a, flag);
    push_str(&mut a, operand);
    assert(a.deep_view() =~= seq![word@, flag@, operand@]);
    a
}

/// `-p <server> -u <user> clients -u <user>`, each of the first two only
/// when set (run without the override).
pub fn clients_args(server: &String, user: &String) -> (r: Vec<String>)
    ensures
        r.deep_view() == server_user_args(server@, user@) + seq!["clients"@, "-u"@, user@],
{
    let mut a = server_user_flags(server, user);
    let ghost before = a.deep_view();
    push_str(&mut a, "clients");
    push_str(&mut a, "-u");
    push_str(&mut a, user.as_str());
    assert(a.deep_view() =~= before + seq!["clients"@, "-u"@, user@]);
    a
}

/// `-p <server> -u <user> client -o <name>`, each of the first two only
/// when set (run without the override).
pub fn client_spec_args(server: &String, user: &String, name: &str) -> (r: Vec<String>)
    ensures
        r.deep_view() == server_user_args(server@, user@) + seq!["client"@, "-o"@, name@],
{
    let mut a = server_user_flags(server, user);
    let ghost before = a.deep_view();
    push_str(&mut a, "client");
    push_str(&mut a, "-o");
    push_str(&mut a, name);
    assert(a.deep_view() =~= before + seq!["client"@, "-o"@, name@]);
    a
}

} // verus!
