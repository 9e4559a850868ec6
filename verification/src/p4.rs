//! The `p4` operations: what each command's output means, and the errors
//! that a failed command turns into.
use vstd::prelude::*;
use crate::command::{nonzero_exit_message, nonzero_exit_text, CommandOutput};
use crate::number::{decimal_nat, format_u64};
use crate::text::{
    push_string, matches_at, chars_of, contains, contains_exec, find, find_exec, lines, lines_exec, slice_of, string_of,
    trim, trim_exec, words, words_exec,
};

verus! {

// ---------------------------------------------------------------------------
// Failures
// ---------------------------------------------------------------------------

/// The error of a `p4` command that could not be started or exited
/// non-zero: `<what> failed: <error>` or `nonzero_exit_text`; none when it
/// succeeded. A failed command is never read as empty output.
pub open spec fn failure_text(what: Seq<char>, out: Result<CommandOutput, String>) -> Option<
    Seq<char>,
> {
    match out {
        Err(e) => Some(what + " failed: "@ + e@),
        Ok(o) => if o.success {
            None
        } else {
            Some(nonzero_exit_text(what, o))
        },
    }
}

/// The error that a failed `p4` command reports (see `failure_text`).
pub fn p4_failure(what: &str, out: &Result<CommandOutput, String>) -> (r: Option<String>)
    ensures
        r.deep_view() == failure_text(what@, *out),
{
    match out {
        Err(e) => {
            let mut s = chars_of(what);
            let mut a = chars_of(" failed: ");
            s.append(&mut a);
            let mut b = chars_of(e.as_str());
            s.append(&mut b);
            let r = string_of(s.as_slice());
            assert(r@ =~= what@ + " failed: "@ + e@);
            Some(r)
        },
        Ok(o) => if o.success {
            None
        } else {
            Some(nonzero_exit_message(what, o))
        },
    }
}

/// What a file command (`p4 edit`, `add`, `revert`, ...) reports: an error
/// `<what>: <error>` when it could not start, its standard error when it
/// exited non-zero, success otherwise.
pub open spec fn file_op_ok(what: Seq<char>, out: Result<CommandOutput, String>, r: Result<
    (),
    String,
>) -> bool {
    match out {
        Err(e) => r matches Err(m) && m@ == what + ": "@ + e@,
        Ok(o) => if o.success {
            r is Ok
        } else {
            r matches Err(m) && m@ == o.stderr_text()
        },
    }
}

fn file_op(what: &str, out: &Result<CommandOutput, String>) -> (r: Result<(), String>)
    ensures
        file_op_ok(what@, *out, r),
{
    match out {
        Err(e) => {
            let mut s = chars_of(what);
            let mut a = chars_of(": ");
            s.append(&mut a);
            let mut b = chars_of(e.as_str());
            s.append(&mut b);
            let m = string_of(s.as_slice());
            assert(m@ =~= what@ + ": "@ + e@);
            Err(m)
        },
        Ok(o) => if o.success {
            Ok(())
        } else {
            Err(o.stderr_string())
        },
    }
}

/// The outcome of `p4 edit <path>`.
pub fn p4_edit(out: &Result<CommandOutput, String>) -> (r: Result<(), String>)
    ensures
        file_op_ok("p4 edit"@, *out, r),
{
    file_op("p4 edit", out)
}

/// The outcome of `p4 add <path>`.
pub fn p4_add(out: &Result<CommandOutput, String>) -> (r: Result<(), String>)
    ensures
        file_op_ok("p4 add"@, *out, r),
{
    file_op("p4 add", out)
}

/// The outcome of `p4 revert -a <pattern>` (revert the unchanged files).
pub fn p4_revert_unchanged(out: &Result<CommandOutput, String>) -> (r: Result<(), String>)
    ensures
        file_op_ok("p4 revert -a"@, *out, r),
{
    file_op("p4 revert -a", out)
}

/// The outcome of `p4 delete <path>`: on success the file is marked for
/// delete in the pending changelist and removed locally; on failure the
/// caller falls back to deleting it itself.
pub fn p4_delete(out: &Result<CommandOutput, String>) -> (r: Result<(), String>)
    ensures
        file_op_ok("p4 delete"@, *out, r),
{
    file_op("p4 delete", out)
}

/// The outcome of `p4 revert <path>` (back to unopened, whatever the
/// pending action).
pub fn p4_revert(out: &Result<CommandOutput, String>) -> (r: Result<(), String>)
    ensures
        file_op_ok("p4 revert"@, *out, r),
{
    file_op("p4 revert", out)
}

/// The access level that `p4 protects -m <path>` reports: `none` for an
/// empty answer or for a refusal that says there are no protections or no
/// permission; the trimmed standard error for any other refusal; an error
/// `p4 protects: <error>` when `p4` could not start.
pub open spec fn max_protect_ok(out: Result<CommandOutput, String>, r: Result<String, String>) -> bool {
    match out {
        Err(e) => r matches Err(m) && m@ == "p4 protects: "@ + e@,
        Ok(o) => if !o.success {
            let st = trim(o.stderr_text());
            if contains(st, "no protections"@) || contains(st, "no permission"@) {
                r matches Ok(l) && l@ == "none"@
            } else {
                r matches Err(m) && m@ == st
            }
        } else {
            let level = trim(o.stdout_text());
            if level.len() == 0 {
                r matches Ok(l) && l@ == "none"@
            } else {
                r matches Ok(l) && l@ == level
            }
        },
    }
}

/// The user's highest access level under a depot path, from the outcome
/// of `p4 protects -m <path>` (`list`, `read`, `open`, `write`, `review`,
/// `admin`, `super` or `none`).
pub fn p4_max_protect(out: &Result<CommandOutput, String>) -> (r: Result<String, String>)
    ensures
        max_protect_ok(*out, r),
{
    match out {
        Err(e) => {
            let mut s = chars_of("p4 protects: ");
            let mut b = chars_of(e.as_str());
            s.append(&mut b);
            let m = string_of(s.as_slice());
            assert(m@ =~= "p4 protects: "@ + e@);
            Err(m)
        },
        Ok(o) => {
            if !o.success {
                let st = trim_exec(chars_of(o.stderr_string().as_str()).as_slice());
                let np = chars_of("no protections");
                let nperm = chars_of("no permission");
                if contains_exec(st.as_slice(), np.as_slice()) || contains_exec(
                    st.as_slice(),
                    nperm.as_slice(),
                ) {
                    Ok("none".to_owned())
                } else {
                    Err(string_of(st.as_slice()))
                }
            } else {
                let level = trim_exec(chars_of(o.decoded_stdout().as_str()).as_slice());
                if level.len() == 0 {
                    Ok("none".to_owned())
                } else {
                    Ok(string_of(level.as_slice()))
                }
            }
        },
    }
}

// ---------------------------------------------------------------------------
// Splitting helpers
// ---------------------------------------------------------------------------

/// `s` up to its first `c` (`split(c).next()`).
pub open spec fn before_char(s: Seq<char>, c: char) -> Seq<char> {
    match find(s, seq![c]) {
        Some(i) => s.subrange(0, i),
        None => s,
    }
}

/// `s` after its first `c`, if it has one (`splitn(2, c).nth(1)`).
pub open spec fn after_char(s: Seq<char>, c: char) -> Option<Seq<char>> {
    match find(s, seq![c]) {
        Some(i) => Some(s.subrange(i + 1, s.len() as int)),
        None => None,
    }
}

/// `s` up to the first occurrence of `p`.
pub open spec fn before_sub(s: Seq<char>, p: Seq<char>) -> Seq<char> {
    match find(s, p) {
        Some(i) => s.subrange(0, i),
        None => s,
    }
}

fn before_char_exec(s: &[char], c: char) -> (r: Vec<char>)
    ensures
        r@ == before_char(s@, c),
{
    let p = vec![c];
    assert(p@ =~= seq![c]);
    match find_exec(s, p.as_slice()) {
        Some(i) => {
            proof {
                crate::text::lemma_find_props(s@, p@);
            }
            slice_of(s, 0, i)
        },
        None => {
            assert(s@.subrange(0, s@.len() as int) =~= s@);
            slice_of(s, 0, s.len())
        },
    }
}

fn after_char_exec(s: &[char], c: char) -> (r: Option<Vec<char>>)
    ensures
        r.deep_view() == after_char(s@, c),
        r matches Some(v) ==> v@ == after_char(s@, c)->0,
{
    let p = vec![c];
    assert(p@ =~= seq![c]);
    match find_exec(s, p.as_slice()) {
        Some(i) => {
            proof {
                crate::text::lemma_find_props(s@, p@);
            }
            assert(matches_at(s@, p@, i as int));
            let n = s.len();
            assert(i + 1 <= n);
            let v = slice_of(s, i + 1, n);
            assert(v.deep_view() =~= v@);
            Some(v)
        },
        None => None,
    }
}

fn before_sub_exec(s: &[char], p: &[char]) -> (r: Vec<char>)
    ensures
        r@ == before_sub(s@, p@),
{
    match find_exec(s, p) {
        Some(i) => {
            proof {
                crate::text::lemma_find_props(s@, p@);
            }
            slice_of(s, 0, i)
        },
        None => {
            assert(s@.subrange(0, s@.len() as int) =~= s@);
            slice_of(s, 0, s.len())
        },
    }
}

proof fn lemma_lines_step(ls: Vec<Vec<char>>, i: int)
    requires
        0 <= i < ls.len(),
    ensures
        ls.deep_view().take(i + 1).drop_last() == ls.deep_view().take(i),
        ls.deep_view().take(i + 1).last() == ls[i]@,
{
    assert(ls.deep_view().take(i + 1).drop_last() =~= ls.deep_view().take(i));
    crate::text::lemma_deep_index(ls, i);
}


// ---------------------------------------------------------------------------
// Concurrent edits (`p4 opened -a`)
// ---------------------------------------------------------------------------

/// One line of `p4 opened -a`, `<depot>#<rev> - <action> ... by
/// <user>@<client> ...`, as `<depot> (<user>@<client>)`; none for a blank
/// line, a line without ` by `, or a file opened by our own client.
pub open spec fn conflict_of_line(line: Seq<char>, our_client: Seq<char>) -> Option<Seq<char>> {
    let t = trim(line);
    if t.len() == 0 {
        None
    } else {
        match find(t, " by "@) {
            None => None,
            Some(i) => {
                let head = t.subrange(0, i);
                let who = before_char(t.subrange(i + " by "@.len(), t.len() as int), ' ');
                let client = match after_char(who, '@') {
                    Some(c) => c,
                    None => Seq::empty(),
                };
                if our_client.len() != 0 && client == our_client {
                    None
                } else {
                    Some(trim(before_char(head, '#')) + " ("@ + who + ")"@)
                }
            },
        }
    }
}

/// The conflicts of all lines, in order.
pub open spec fn conflicts_of_lines(ls: Seq<Seq<char>>, our_client: Seq<char>) -> Seq<Seq<char>>
    decreases ls.len(),
{
    if ls.len() == 0 {
        Seq::empty()
    } else {
        let before = conflicts_of_lines(ls.drop_last(), our_client);
        match conflict_of_line(ls.last(), our_client) {
            Some(c) => before.push(c),
            None => before,
        }
    }
}

/// The files that other clients have open, from `p4 opened -a` output, as
/// `<depot path> (<user>@<client>)`. Files opened by `our_client` (the
/// `Client name:` of `p4 info`) are left out unless it is empty.
pub fn concurrent_edits_in(opened_text: &str, our_client: &str) -> (r: Vec<String>)
    ensures
        r.deep_view() == conflicts_of_lines(lines(opened_text@), our_client@),
{
    let ls = lines_exec(chars_of(opened_text).as_slice());
    let ours = chars_of(our_client);
    let by = chars_of(" by ");
    let mut out: Vec<String> = Vec::new();
    let mut i: usize = 0;
    assert(ls.deep_view().take(0) =~= Seq::<Seq<char>>::empty());
    assert(out.deep_view() =~= Seq::<Seq<char>>::empty());
    while i < ls.len()
        invariant
            i <= ls.len(),
            ls.deep_view() == lines(opened_text@),
            ours@ == our_client@,
            by@ == " by "@,
            out.deep_view() == conflicts_of_lines(ls.deep_view().take(i as int), our_client@),
        decreases ls.len() - i,
    {
        proof {
            lemma_lines_step(ls, i as int);
        }
        let t = trim_exec(ls[i].as_slice());
        if t.len() != 0 {
            match find_exec(t.as_slice(), by.as_slice()) {
                None => {},
                Some(k) => {
                    proof {
                        crate::text::lemma_find_props(t@, by@);
                    }
                    let head = slice_of(t.as_slice(), 0, k);
                    let tail = slice_of(t.as_slice(), k + by.len(), t.len());
                    let who = before_char_exec(tail.as_slice(), ' ');
                    let client = match after_char_exec(who.as_slice(), '@') {
                        Some(c) => c,
                        None => Vec::new(),
                    };
                    let mut same = ours.len() != 0 && client.len() == ours.len();
                    if same {
                        let mut j: usize = 0;
                        while j < client.len()
                            invariant
                                j <= client.len() == ours.len(),
                                same == (forall|q: int| 0 <= q < j ==> client@[q] == ours@[q]),
                            decreases client.len() - j,
                        {
                            if client[j] != ours[j] {
                                same = false;
                            }
                            j += 1;
                        }
                    }
                    assert(same == (ours@.len() != 0 && client@ == ours@)) by {
                        if ours@.len() != 0 && client@.len() == ours@.len() {
                            if same {
                                assert(client@ =~= ours@);
                            }
                        }
                    }
                    if !same {
                        let mut s = trim_exec(before_char_exec(head.as_slice(), '#').as_slice());
                        let mut a = chars_of(" (");
                        s.append(&mut a);
                        let mut w = who.clone();
                        s.append(&mut w);
                        let mut b = chars_of(")");
                        s.append(&mut b);
                        let line = string_of(s.as_slice());
                        assert(line@ =~= conflict_of_line(ls[i as int]@, our_client@)->0);
                        push_string(&mut out, line);
                    }
                },
            }
        }
        i += 1;
    }
    assert(ls.deep_view().take(ls.len() as int) =~= ls.deep_view());
    out
}

/// The entry of a shown line does not depend on our client: when a line is
/// reported at all, it is reported as it would be with no client of ours.
pub proof fn lemma_conflict_entry_independent_of_client(line: Seq<char>, ours: Seq<char>)
    requires
        conflict_of_line(line, ours) is Some,
    ensures
        conflict_of_line(line, ours) == conflict_of_line(line, Seq::<char>::empty()),
{
}

/// Only one client name hides a given line: if a non-empty name `o1` hides
/// a line that is otherwise reported, every other name `o2` reports it.
/// (A client whose name merely begins or ends like ours is another
/// client.)
pub proof fn lemma_conflict_hidden_by_one_client_only(line: Seq<char>, o1: Seq<char>, o2: Seq<char>)
    requires
        o1.len() != 0,
        o1 != o2,
        conflict_of_line(line, o1) is None,
        conflict_of_line(line, Seq::<char>::empty()) is Some,
    ensures
        conflict_of_line(line, o2) == conflict_of_line(line, Seq::<char>::empty()),
{
}

/// A line is hidden only when the client it names is exactly ours: the
/// entry it would give ends with `@<our client>)`.
pub proof fn lemma_hidden_conflict_names_our_client(line: Seq<char>, ours: Seq<char>)
    requires
        ours.len() != 0,
        conflict_of_line(line, ours) is None,
        conflict_of_line(line, Seq::<char>::empty()) is Some,
    ensures
        exists|x: Seq<char>|
            #[trigger] (x + "@"@ + ours + ")"@) == conflict_of_line(line, Seq::<char>::empty())->0,
{
    let t = trim(line);
    let i = find(t, " by "@)->0;
    let head = t.subrange(0, i);
    let who = before_char(t.subrange(i + " by "@.len(), t.len() as int), ' ');
    crate::text::lemma_find_props(who, seq!['@']);
    let a = find(who, seq!['@'])->0;
    assert(who.subrange(a, a + 1) == seq!['@']);
    reveal_strlit("@");
    assert(after_char(who, '@') == Some(who.subrange(a + 1, who.len() as int)));
    assert(who.subrange(a + 1, who.len() as int) == ours);
    let x = trim(before_char(head, '#')) + " ("@ + who.subrange(0, a);
    assert(who =~= who.subrange(0, a) + "@"@ + ours) by {
        assert(who[a] == who.subrange(a, a + 1)[0]);
    }
    assert((x + "@"@ + ours + ")"@) =~= conflict_of_line(line, Seq::<char>::empty())->0);
}

// ---------------------------------------------------------------------------
// Pending files (`p4 opened`, `p4 where`)
// ---------------------------------------------------------------------------

/// The depot path and action of one line of `p4 opened`,
/// `<depot>#<rev> - <action> ...`; none for a blank line or one without
/// ` - `. The action is the first word after the first ` - `, `edit` when
/// there is none.
pub open spec fn opened_of_line(line: Seq<char>) -> Option<(Seq<char>, Seq<char>)> {
    let t = trim(line);
    if t.len() == 0 {
        None
    } else {
        match find(t, " - "@) {
            None => None,
            Some(i) => {
                let depot = before_char(t.subrange(0, i), '#');
                let part = before_sub(t.subrange(i + " - "@.len(), t.len() as int), " - "@);
                let ws = words(trim(part));
                let action = if ws.len() == 0 {
                    "edit"@
                } else {
                    ws[0]
                };
                Some((depot, action))
            },
        }
    }
}

/// The opened files of all lines, in order.
pub open spec fn opened_of_lines(ls: Seq<Seq<char>>) -> Seq<(Seq<char>, Seq<char>)>
    decreases ls.len(),
{
    if ls.len() == 0 {
        Seq::empty()
    } else {
        let before = opened_of_lines(ls.drop_last());
        match opened_of_line(ls.last()) {
            Some(p) => before.push(p),
            None => before,
        }
    }
}

/// The files open in the workspace, from `p4 opened` output, as
/// (depot path, action) pairs in output order.
pub fn parse_opened_files(text: &str) -> (r: Vec<(String, String)>)
    ensures
        r.deep_view() == opened_of_lines(lines(text@)),
{
    let ls = lines_exec(chars_of(text).as_slice());
    let sep = chars_of(" - ");
    let mut out: Vec<(String, String)> = Vec::new();
    let mut i: usize = 0;
    assert(ls.deep_view().take(0) =~= Seq::<Seq<char>>::empty());
    assert(out.deep_view() =~= Seq::<(Seq<char>, Seq<char>)>::empty());
    while i < ls.len()
        invariant
            i <= ls.len(),
            ls.deep_view() == lines(text@),
            sep@ == " - "@,
            out.deep_view() == opened_of_lines(ls.deep_view().take(i as int)),
        decreases ls.len() - i,
    {
        proof {
            lemma_lines_step(ls, i as int);
        }
        let t = trim_exec(ls[i].as_slice());
        if t.len() != 0 {
            match find_exec(t.as_slice(), sep.as_slice()) {
                None => {},
                Some(k) => {
                    proof {
                        crate::text::lemma_find_props(t@, sep@);
                    }
                    let depot = before_char_exec(slice_of(t.as_slice(), 0, k).as_slice(), '#');
                    let rest = slice_of(t.as_slice(), k + sep.len(), t.len());
                    let part = before_sub_exec(rest.as_slice(), sep.as_slice());
                    let ws = words_exec(trim_exec(part.as_slice()).as_slice());
                    proof {
                        if ws.len() > 0 {
                            crate::text::lemma_deep_index(ws, 0);
                        }
                    }
                    let action = if ws.len() == 0 {
                        "edit".to_owned()
                    } else {
                        string_of(ws[0].as_slice())
                    };
                    let d = string_of(depot.as_slice());
                    let ghost before = out@;
                    let ghost pv = (d, action);
                    out.push((d, action));
                    assert(out.deep_view() =~= opened_of_lines(ls.deep_view().take(i + 1))) by {
                        assert(out@ == before.push(pv));
                    }
                },
            }
        }
        i += 1;
    }
    assert(ls.deep_view().take(ls.len() as int) =~= ls.deep_view());
    out
}

/// The local path in `p4 where` output: the last word of its first line.
pub open spec fn where_local_path(ls: Seq<Seq<char>>) -> Option<Seq<char>> {
    if ls.len() == 0 {
        None
    } else {
        let ws = words(ls[0]);
        if ws.len() == 0 {
            None
        } else {
            Some(ws.last())
        }
    }
}

/// The local path of a depot file in `p4 where <depot path>` output: the
/// last word of the first line.
pub fn local_path_in(where_text: &str) -> (r: Option<String>)
    ensures
        r.deep_view() == where_local_path(lines(where_text@)),
{
    let ls = lines_exec(chars_of(where_text).as_slice());
    if ls.len() == 0 {
        return None;
    }
    proof {
        crate::text::lemma_deep_index(ls, 0);
    }
    let ws = words_exec(ls[0].as_slice());
    if ws.len() == 0 {
        return None;
    }
    proof {
        crate::text::lemma_deep_index(ws, ws.len() - 1);
    }
    Some(string_of(ws[ws.len() - 1].as_slice()))
}

// ---------------------------------------------------------------------------
// Workspaces (`p4 clients`, `p4 client -o`)
// ---------------------------------------------------------------------------

/// The client name of one line of `p4 clients`,
/// `Client <name> <date> root <root> ...`: the second word of a line of at
/// least five words whose first word is `Client`.
pub open spec fn client_of_line(line: Seq<char>) -> Option<Seq<char>> {
    let ws = words(line);
    if ws.len() >= 5 && ws[0] == "Client"@ {
        Some(ws[1])
    } else {
        None
    }
}

/// The client names of all lines, in order.
pub open spec fn clients_of_lines(ls: Seq<Seq<char>>) -> Seq<Seq<char>>
    decreases ls.len(),
{
    if ls.len() == 0 {
        Seq::empty()
    } else {
        let before = clients_of_lines(ls.drop_last());
        match client_of_line(ls.last()) {
            Some(c) => before.push(c),
            None => before,
        }
    }
}

/// The workspace names in `p4 clients` output, in order.
pub fn parse_workspace_names(text: &str) -> (r: Vec<String>)
    ensures
        r.deep_view() == clients_of_lines(lines(text@)),
{
    let ls = lines_exec(chars_of(text).as_slice());
    let client = chars_of("Client");
    let mut out: Vec<String> = Vec::new();
    let mut i: usize = 0;
    assert(ls.deep_view().take(0) =~= Seq::<Seq<char>>::empty());
    assert(out.deep_view() =~= Seq::<Seq<char>>::empty());
    while i < ls.len()
        invariant
            i <= ls.len(),
            ls.deep_view() == lines(text@),
            client@ == "Client"@,
            out.deep_view() == clients_of_lines(ls.deep_view().take(i as int)),
        decreases ls.len() - i,
    {
        proof {
            lemma_lines_step(ls, i as int);
        }
        let ws = words_exec(ls[i].as_slice());
        proof {
            if ws.len() >= 5 {
                crate::text::lemma_deep_index(ws, 0);
                crate::text::lemma_deep_index(ws, 1);
            }
        }
        if ws.len() >= 5 && crate::text::matches_at_exec(ws[0].as_slice(), client.as_slice(), 0)
            && ws[0].len() == client.len() {
            proof {
                assert(ws[0]@.subrange(0, client@.len() as int) =~= ws[0]@);
            }
            push_string(&mut out, string_of(ws[1].as_slice()));
        } else {
            proof {
                if ws@.len() >= 5 && ws.deep_view()[0] == "Client"@ {
                    assert(ws[0]@.subrange(0, client@.len() as int) =~= ws[0]@);
                }
            }
        }
        i += 1;
    }
    assert(ls.deep_view().take(ls.len() as int) =~= ls.deep_view());
    out
}

/// A workspace: its name, the stream it works on (empty when unknown) and
/// its root directory.
pub struct P4Workspace {
    pub name: String,
    pub stream: String,
    pub root: String,
}

/// Reads one line of a client spec into (stream, root): a `Stream:` line
/// sets the stream (empty when it names none), a `Root:` line the trimmed
/// root; later lines override earlier ones.
pub open spec fn spec_fields_step(acc: (Seq<char>, Seq<char>), line: Seq<char>) -> (
    Seq<char>,
    Seq<char>,
) {
    match crate::text::strip_prefix(line, "Stream:"@) {
        Some(v) => (
            match crate::stream::stream_name(v) {
                Some(n) => n,
                None => Seq::empty(),
            },
            acc.1,
        ),
        None => match crate::text::strip_prefix(line, "Root:"@) {
            Some(v) => (acc.0, trim(v)),
            None => acc,
        },
    }
}

/// The (stream, root) of a client spec, read line by line.
pub open spec fn spec_fields(ls: Seq<Seq<char>>) -> (Seq<char>, Seq<char>)
    decreases ls.len(),
{
    if ls.len() == 0 {
        (Seq::empty(), Seq::empty())
    } else {
        spec_fields_step(spec_fields(ls.drop_last()), ls.last())
    }
}

/// The workspace `name` as `p4 client -o <name>` describes it; without a
/// spec (the command could not start) its stream and root are empty.
pub fn workspace_from_spec(name: &str, spec: Option<&str>) -> (r: P4Workspace)
    ensures
        r.name@ == name@,
        spec is None ==> r.stream@.len() == 0 && r.root@.len() == 0,
        spec matches Some(s) ==> (r.stream@, r.root@) == spec_fields(lines(s@)),
{
    let name_s = name.to_owned();
    match spec {
        None => P4Workspace { name: name_s, stream: String::new(), root: String::new() },
        Some(s) => {
            let ls = lines_exec(chars_of(s).as_slice());
            let ps = chars_of("Stream:");
            let pr = chars_of("Root:");
            let mut stream: Vec<char> = Vec::new();
            let mut root: Vec<char> = Vec::new();
            let mut i: usize = 0;
            assert(ls.deep_view().take(0) =~= Seq::<Seq<char>>::empty());
            assert(stream@ =~= Seq::<char>::empty());
            assert(root@ =~= Seq::<char>::empty());
            while i < ls.len()
                invariant
                    i <= ls.len(),
                    ls.deep_view() == lines(s@),
                    ps@ == "Stream:"@,
                    pr@ == "Root:"@,
                    (stream@, root@) == spec_fields(ls.deep_view().take(i as int)),
                decreases ls.len() - i,
            {
                proof {
                    lemma_lines_step(ls, i as int);
                }
                match crate::text::strip_prefix_exec(ls[i].as_slice(), ps.as_slice()) {
                    Some(v) => {
                        stream = match crate::stream::extract_stream_name(v.as_slice()) {
                            Some(n) => chars_of(n.as_str()),
                            None => Vec::new(),
                        };
                    },
                    None => match crate::text::strip_prefix_exec(ls[i].as_slice(), pr.as_slice()) {
                        Some(v) => {
                            root = trim_exec(v.as_slice());
                        },
                        None => {},
                    },
                }
                i += 1;
            }
            assert(ls.deep_view().take(ls.len() as int) =~= ls.deep_view());
            P4Workspace {
                name: name_s,
                stream: string_of(stream.as_slice()),
                root: string_of(root.as_slice()),
            }
        },
    }
}

/// What `p4 clients` failing reports: `p4 unavailable: <error>` when it
/// could not start; its standard error when it exited non-zero, or
/// `p4 clients failed` when that is empty; none when it succeeded.
pub open spec fn clients_failure(out: Result<CommandOutput, String>) -> Option<Seq<char>> {
    match out {
        Err(e) => Some("p4 unavailable: "@ + e@),
        Ok(o) => if o.success {
            None
        } else if o.stderr_text().len() == 0 {
            Some("p4 clients failed"@)
        } else {
            Some(o.stderr_text())
        },
    }
}

/// The error of a failed `p4 clients` run (see `clients_failure`).
pub fn clients_failure_message(out: &Result<CommandOutput, String>) -> (r: Option<String>)
    ensures
        r.deep_view() == clients_failure(*out),
{
    match out {
        Err(e) => {
            let mut s = chars_of("p4 unavailable: ");
            let mut b = chars_of(e.as_str());
            s.append(&mut b);
            let m = string_of(s.as_slice());
            assert(m@ =~= "p4 unavailable: "@ + e@);
            Some(m)
        },
        Ok(o) => if o.success {
            None
        } else {
            let err = o.stderr_string();
            if err.as_str().is_empty() {
                Some("p4 clients failed".to_owned())
            } else {
                Some(err)
            }
        },
    }
}

// ---------------------------------------------------------------------------
// Diff of an added file
// ---------------------------------------------------------------------------

/// The lines joined with `sep` between them.
pub open spec fn join(ls: Seq<Seq<char>>, sep: Seq<char>) -> Seq<char>
    decreases ls.len(),
{
    if ls.len() == 0 {
        Seq::empty()
    } else if ls.len() == 1 {
        ls[0]
    } else {
        join(ls.drop_last(), sep) + sep + ls.last()
    }
}

/// The unified diff of a newly added file: every line of the content as an
/// added line, under a `/dev/null` header.
pub open spec fn added_diff(file: Seq<char>, content: Seq<char>) -> Seq<char> {
    let ls = lines(content);
    "--- /dev/null\n+++ "@ + file + "\n@@ -0,0 +1,"@ + decimal_nat(ls.len()) + " @@\n"@
        + join(ls.map_values(|l: Seq<char>| seq!['+'] + l), seq!['\n'])
}

/// The diff shown for a file opened for add: `file` is its file name and
/// `content` what it holds.
pub fn added_file_diff(file: &str, content: &str) -> (r: String)
    ensures
        r@ == added_diff(file@, content@),
{
    let ls = lines_exec(chars_of(content).as_slice());
    let ghost plus = ls.deep_view().map_values(|l: Seq<char>| seq!['+'] + l);
    let mut body: Vec<char> = Vec::new();
    let mut i: usize = 0;
    assert(plus.take(0) =~= Seq::<Seq<char>>::empty());
    assert(body@ =~= join(plus.take(0), seq!['\n']));
    while i < ls.len()
        invariant
            i <= ls.len(),
            plus.len() == ls.len(),
            forall|k: int| 0 <= k < ls.len() ==> #[trigger] plus[k] == seq!['+'] + ls[k]@,
            body@ == join(plus.take(i as int), seq!['\n']),
        decreases ls.len() - i,
    {
        assert(plus.take(i + 1).drop_last() =~= plus.take(i as int));
        if i > 0 {
            body.push('\n');
        } else {
            assert(plus.take(1) =~= seq![plus[0]]);
        }
        body.push('+');
        let mut l = ls[i].clone();
        body.append(&mut l);
        assert(body@ =~= join(plus.take(i + 1), seq!['\n']));
        i += 1;
    }
    assert(plus.take(ls.len() as int) =~= plus);
    let mut s = chars_of("--- /dev/null\n+++ ");
    let mut f = chars_of(file);
    s.append(&mut f);
    let mut a = chars_of("\n@@ -0,0 +1,");
    s.append(&mut a);
    let mut n = format_u64(ls.len() as u64);
    s.append(&mut n);
    let mut b = chars_of(" @@\n");
    s.append(&mut b);
    s.append(&mut body);
    let r = string_of(s.as_slice());
    assert(r@ =~= added_diff(file@, content@));
    r
}

// ---------------------------------------------------------------------------
// Whole operations
// ---------------------------------------------------------------------------

/// The answer of an operation that fails as `failure_text` says and
/// otherwise reads the command's standard output.
pub open spec fn answer_ok<T>(
    what: Seq<char>,
    out: Result<CommandOutput, String>,
    r: Result<T, String>,
    read: spec_fn(Seq<char>, T) -> bool,
) -> bool {
    match failure_text(what, out) {
        Some(m) => r matches Err(e) && e@ == m,
        None => match (out, r) {
            (Ok(o), Ok(v)) => read(o.stdout_text(), v),
            _ => false,
        },
    }
}

/// The files behind the depot, from the outcome of
/// `p4 fstat -T depotFile,haveRev,headRev <pattern>` (see
/// `stale_revisions`). A failed run is an error carrying its standard
/// error, never an empty list, so that callers keep what they showed.
pub fn check_stale_revisions(out: &Result<CommandOutput, String>) -> (r: Result<Vec<String>, String>)
    ensures
        answer_ok(
            "p4 fstat"@,
            *out,
            r,
            |t: Seq<char>, v: Vec<String>|
                v.deep_view() == crate::fstat::stale_lines(crate::fstat::fstat_records(t)),
        ),
{
    match p4_failure("p4 fstat", out) {
        Some(m) => Err(m),
        None => match out {
            Ok(o) => Ok(crate::fstat::stale_revisions(o.decoded_stdout().as_str())),
            Err(_) => Err(String::new()),
        },
    }
}

/// Our client's name in the outcome of `p4 info` (empty when it is
/// missing or `p4` could not start).
pub open spec fn our_client_name(info: Result<CommandOutput, String>) -> Seq<char> {
    match info {
        Ok(o) => match crate::stream::info_field(lines(o.stdout_text()), "Client name:"@) {
            Some(c) => c,
            None => Seq::empty(),
        },
        Err(_) => Seq::empty(),
    }
}

/// The files other clients have open, from the outcomes of
/// `p4 opened -a <pattern>` and `p4 info` (see `concurrent_edits_in`). A
/// failed `opened` run is an error carrying its standard error.
pub fn check_concurrent_edits(
    opened: &Result<CommandOutput, String>,
    info: &Result<CommandOutput, String>,
) -> (r: Result<Vec<String>, String>)
    ensures
        answer_ok(
            "p4 opened -a"@,
            *opened,
            r,
            |t: Seq<char>, v: Vec<String>|
                v.deep_view() == conflicts_of_lines(lines(t), our_client_name(*info)),
        ),
{
    match p4_failure("p4 opened -a", opened) {
        Some(m) => Err(m),
        None => match opened {
            Ok(o) => {
                let our = match info {
                    Ok(i) => match crate::stream::extract_info_field(
                        i.decoded_stdout().as_str(),
                        "Client name:",
                    ) {
                        Some(c) => c,
                        None => String::new(),
                    },
                    Err(_) => String::new(),
                };
                Ok(concurrent_edits_in(o.decoded_stdout().as_str(), our.as_str()))
            },
            Err(_) => Err(String::new()),
        },
    }
}

/// A file open in the workspace.
pub struct P4FileChange {
    pub depot_path: String,
    pub local_path: String,
    pub action: String,
}

/// The files open in the workspace.
pub struct P4PendingChanges {
    pub files: Vec<P4FileChange>,
}

/// The diff of one file.
pub struct P4FileDiff {
    pub file: String,
    pub diff: String,
}

/// The open files in the outcome of `p4 opened <pattern>`, whatever its
/// exit status; none when `p4` could not start.
pub fn opened_files(out: &Result<CommandOutput, String>) -> (r: Vec<(String, String)>)
    ensures
        out is Err ==> r@.len() == 0,
        out matches Ok(o) ==> r.deep_view() == opened_of_lines(lines(o.stdout_text())),
{
    match out {
        Ok(o) => parse_opened_files(o.decoded_stdout().as_str()),
        Err(_) => Vec::new(),
    }
}

/// The local path of a depot file from the outcome of
/// `p4 where <depot path>`: the last word of the first output line; none
/// when there is none or `p4` could not start.
pub fn resolve_local_path(out: &Result<CommandOutput, String>) -> (r: Option<String>)
    ensures
        out is Err ==> r is None,
        out matches Ok(o) ==> r.deep_view() == where_local_path(lines(o.stdout_text())),
{
    match out {
        Ok(o) => local_path_in(o.decoded_stdout().as_str()),
        Err(_) => None,
    }
}

/// An open file, with its local path when `p4 where` gave one (else
/// empty).
pub fn pending_file_change(depot_path: String, action: String, local: Option<String>) -> (r:
    P4FileChange)
    ensures
        r.depot_path@ == depot_path@,
        r.action@ == action@,
        r.local_path@ == (match local {
            Some(l) => l@,
            None => Seq::empty(),
        }),
{
    let local_path = match local {
        Some(l) => l,
        None => String::new(),
    };
    P4FileChange { depot_path, local_path, action }
}

/// The diff shown for a file opened with `action`: a file being added has
/// no depot revision to compare with, so its content is shown as added.
pub fn is_add_action(action: &str) -> (r: bool)
    ensures
        r == (action@ == "add"@),
{
    let a = chars_of(action);
    let add = chars_of("add");
    crate::text::chars_eq(a.as_slice(), add.as_slice())
}

/// The diff of a file opened for add, from the reading of its content
/// (`read failed: <error>` when it could not be read).
pub fn added_file_result(file: String, content: &Result<String, String>) -> (r: Result<
    P4FileDiff,
    String,
>)
    ensures
        content matches Err(e) ==> (r matches Err(m) && m@ == "read failed: "@ + e@),
        content matches Ok(c) ==> (r matches Ok(d) && d.file@ == file@ && d.diff@ == added_diff(
            file@,
            c@,
        )),
{
    match content {
        Err(e) => {
            let mut s = chars_of("read failed: ");
            let mut b = chars_of(e.as_str());
            s.append(&mut b);
            let m = string_of(s.as_slice());
            assert(m@ =~= "read failed: "@ + e@);
            Err(m)
        },
        Ok(c) => {
            let diff = added_file_diff(file.as_str(), c.as_str());
            Ok(P4FileDiff { file, diff })
        },
    }
}

/// The diff of an opened file from the outcome of `p4 diff -du <file>`:
/// its decoded standard output, whatever the exit status;
/// `p4 diff failed: <error>` when `p4` could not start.
pub fn p4_diff_result(file: String, out: &Result<CommandOutput, String>) -> (r: Result<
    P4FileDiff,
    String,
>)
    ensures
        out matches Err(e) ==> (r matches Err(m) && m@ == "p4 diff failed: "@ + e@),
        out matches Ok(o) ==> (r matches Ok(d) && d.file@ == file@ && d.diff@ == o.stdout_text()),
{
    match out {
        Err(e) => {
            let mut s = chars_of("p4 diff failed: ");
            let mut b = chars_of(e.as_str());
            s.append(&mut b);
            let m = string_of(s.as_slice());
            assert(m@ =~= "p4 diff failed: "@ + e@);
            Err(m)
        },
        Ok(o) => Ok(P4FileDiff { file, diff: o.decoded_stdout() }),
    }
}

/// The workspace `name` from the outcome of `p4 client -o <name>`
/// (see `workspace_from_spec`; its decoded output is read whatever the
/// exit status).
pub fn workspace_of(name: &str, out: &Result<CommandOutput, String>) -> (r: P4Workspace)
    ensures
        r.name@ == name@,
        out is Err ==> r.stream@.len() == 0 && r.root@.len() == 0,
        out matches Ok(o) ==> (r.stream@, r.root@) == spec_fields(lines(o.stdout_text())),
{
    match out {
        Ok(o) => {
            let t = o.decoded_stdout();
            workspace_from_spec(name, Some(t.as_str()))
        },
        Err(_) => workspace_from_spec(name, None),
    }
}

/// The workspace names from the outcome of `p4 clients -u <user>`, or the
/// error of `clients_failure`.
pub fn list_p4_workspace_names(out: &Result<CommandOutput, String>) -> (r: Result<
    Vec<String>,
    String,
>)
    ensures
        match clients_failure(*out) {
            Some(m) => r matches Err(e) && e@ == m,
            None => match (*out, r) {
                (Ok(o), Ok(v)) => v.deep_view() == clients_of_lines(lines(o.stdout_text())),
                _ => false,
            },
        },
{
    match clients_failure_message(out) {
        Some(m) => Err(m),
        None => match out {
            Ok(o) => Ok(parse_workspace_names(o.decoded_stdout().as_str())),
            Err(_) => Err(String::new()),
        },
    }
}

/// A command that could not start or exited non-zero is an error, never
/// output to read (an empty answer would look like "nothing found").
pub proof fn lemma_failed_command_is_error(what: Seq<char>, out: Result<CommandOutput, String>)
    ensures
        (out is Err || (out matches Ok(o) && !o.success)) <==> failure_text(what, out) is Some,
{
}

} // verus!
