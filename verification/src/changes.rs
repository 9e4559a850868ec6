//! Submitted changelists that a workspace has not synced yet: the JSON
//! lines of `p4 -Mj -ztag changes` and `p4 -Mj -ztag users`, and the
//! choice of the changelists that touch stale files.
use vstd::prelude::*;
use crate::number::{decimal, format_i64, parse_i64, parse_i64_exec};
use crate::command::CommandOutput;
use crate::fstat::{fstat_records, stale_changes, stale_head_changes};
use crate::p4::{failure_text, p4_failure};
use crate::stream::{ok_text, ok_text_exec};
use crate::text::{trim_start, chars_of, lines, lines_exec, string_of, trim, trim_exec};

verus! {

/// The name of one JSON read: for the text of one JSON document and a key,
/// `None` when the text is not JSON, `Some(Some(s))` when it is an object
/// whose member `key` is the string `s`, and `Some(None)` otherwise.
pub uninterp spec fn json_member(text: Seq<char>, key: Seq<char>) -> Option<Option<Seq<char>>>;

/// Parses `text` with `serde_json::from_str` into a `serde_json::Value`
/// and reads the string member `key` (`Value::get` and the `String`
/// variant). Its result is named `json_member` of the two arguments; no
/// property of JSON itself is claimed.
#[verifier::external_body]
fn json_string_member(text: &str, key: &str) -> (r: Option<Option<String>>)
    ensures
        r.deep_view() == json_member(text@, key@),
{
    match serde_json::from_str::<serde_json::Value>(text) {
        Ok(v) => Some(
            match v.get(key) {
                Some(serde_json::Value::String(s)) => Some(s.clone()),
                _ => None,
            },
        ),
        Err(_) => None,
    }
}

/// The fields of a changelist.
pub struct ChangeFields {
    pub number: i64,
    pub user: Seq<char>,
    pub user_fullname: Seq<char>,
    pub client: Seq<char>,
    pub time: i64,
    pub description: Seq<char>,
}

/// A submitted changelist not yet synced. `time` is Unix epoch seconds;
/// `description` is the first non-blank line of the description, trimmed;
/// `user_fullname` is the user's full name when `p4 users` knows it, and the
/// user id otherwise.
pub struct P4Change {
    pub number: i64,
    pub user: String,
    pub user_fullname: String,
    pub client: String,
    pub time: i64,
    pub description: String,
}

impl View for P4Change {
    type V = ChangeFields;

    open spec fn view(&self) -> ChangeFields {
        ChangeFields {
            number: self.number,
            user: self.user@,
            user_fullname: self.user_fullname@,
            client: self.client@,
            time: self.time,
            description: self.description@,
        }
    }
}

impl DeepView for P4Change {
    type V = ChangeFields;

    open spec fn deep_view(&self) -> ChangeFields {
        self@
    }
}

/// The string value of a member, or the empty string when it is missing.
pub open spec fn text_or_empty(m: Option<Seq<char>>) -> Seq<char> {
    match m {
        Some(s) => s,
        None => Seq::empty(),
    }
}

/// A member that holds a decimal number, or 0 when it is missing or does
/// not parse.
pub open spec fn number_or_zero(m: Option<Seq<char>>) -> i64 {
    match m {
        Some(s) => match parse_i64(s) {
            Some(v) => v,
            None => 0,
        },
        None => 0,
    }
}

/// The first line that is not blank, trimmed; empty when there is none.
pub open spec fn first_nonblank(ls: Seq<Seq<char>>) -> Seq<char>
    decreases ls.len(),
{
    if ls.len() == 0 {
        Seq::empty()
    } else if trim(ls[0]).len() != 0 {
        trim(ls[0])
    } else {
        first_nonblank(ls.drop_first())
    }
}

/// The changelist that the string members `change`, `user`, `client`,
/// `time` and `desc` of one JSON record describe; none when the change
/// number is missing, unparsable or zero.
pub open spec fn change_of_members(
    change: Option<Seq<char>>,
    user: Option<Seq<char>>,
    client: Option<Seq<char>>,
    time: Option<Seq<char>>,
    desc: Option<Seq<char>>,
) -> Option<ChangeFields> {
    let number = number_or_zero(change);
    if number == 0 {
        None
    } else {
        Some(
            ChangeFields {
                number,
                user: text_or_empty(user),
                user_fullname: Seq::empty(),
                client: text_or_empty(client),
                time: number_or_zero(time),
                description: first_nonblank(lines(text_or_empty(desc))),
            },
        )
    }
}

/// A member as it comes back from the JSON read of a line: missing when the
/// read failed.
pub open spec fn member(t: Seq<char>, key: Seq<char>) -> Option<Seq<char>> {
    match json_member(t, key) {
        Some(m) => m,
        None => None,
    }
}

/// The changelist of one line of `p4 -Mj -ztag changes -l` output; blank
/// lines and lines that are not JSON give none.
pub open spec fn change_of_line(line: Seq<char>) -> Option<ChangeFields> {
    let t = trim(line);
    if t.len() == 0 {
        None
    } else if json_member(t, "change"@) is None {
        None
    } else {
        change_of_members(
            member(t, "change"@),
            member(t, "user"@),
            member(t, "client"@),
            member(t, "time"@),
            member(t, "desc"@),
        )
    }
}

/// The changelists of all lines, in order.
pub open spec fn changes_of_lines(ls: Seq<Seq<char>>) -> Seq<ChangeFields>
    decreases ls.len(),
{
    if ls.len() == 0 {
        Seq::empty()
    } else {
        let before = changes_of_lines(ls.drop_last());
        match change_of_line(ls.last()) {
            Some(c) => before.push(c),
            None => before,
        }
    }
}

fn text_or_empty_exec(m: &Option<String>) -> (r: String)
    ensures
        r@ == text_or_empty(m.deep_view()),
{
    match m {
        Some(s) => s.clone(),
        None => String::new(),
    }
}

fn number_or_zero_exec(m: &Option<String>) -> (r: i64)
    ensures
        r == number_or_zero(m.deep_view()),
{
    match m {
        Some(s) => match parse_i64_exec(chars_of(s.as_str()).as_slice()) {
            Some(v) => v,
            None => 0,
        },
        None => 0,
    }
}

/// The first non-blank line of `text`, trimmed.
pub fn first_nonblank_line(text: &str) -> (r: String)
    ensures
        r@ == first_nonblank(lines(text@)),
{
    let ls = lines_exec(chars_of(text).as_slice());
    let mut i: usize = 0;
    assert(ls.deep_view().subrange(0, ls.len() as int) =~= ls.deep_view());
    while i < ls.len()
        invariant
            i <= ls.len(),
            ls.deep_view() == lines(text@),
            first_nonblank(lines(text@)) == first_nonblank(
                ls.deep_view().subrange(i as int, ls.len() as int),
            ),
        decreases ls.len() - i,
    {
        let ghost sub = ls.deep_view().subrange(i as int, ls.len() as int);
        assert(sub[0] == ls[i as int]@);
        assert(sub.drop_first() =~= ls.deep_view().subrange(i + 1, ls.len() as int));
        let t = trim_exec(ls[i].as_slice());
        if t.len() != 0 {
            return string_of(t.as_slice());
        }
        i += 1;
    }
    assert(ls.deep_view().subrange(ls.len() as int, ls.len() as int) =~= Seq::<
        Seq<char>,
    >::empty());
    String::new()
}

/// The changelist that one JSON record of `p4 changes` describes, from its
/// string members `change`, `user`, `client`, `time` and `desc` (`None` for
/// a missing member): none when the number is missing, unparsable or zero;
/// a missing user or client reads as empty, a missing or unparsable time as
/// 0, and the description is the first non-blank line of `desc`, trimmed.
/// The full name is left empty.
pub fn change_from_members(
    change: &Option<String>,
    user: &Option<String>,
    client: &Option<String>,
    time: &Option<String>,
    desc: &Option<String>,
) -> (r: Option<P4Change>)
    ensures
        r.deep_view() == change_of_members(
            change.deep_view(),
            user.deep_view(),
            client.deep_view(),
            time.deep_view(),
            desc.deep_view(),
        ),
{
    let number = number_or_zero_exec(change);
    if number == 0 {
        return None;
    }
    let d = text_or_empty_exec(desc);
    let r = P4Change {
        number,
        user: text_or_empty_exec(user),
        user_fullname: String::new(),
        client: text_or_empty_exec(client),
        time: number_or_zero_exec(time),
        description: first_nonblank_line(d.as_str()),
    };
    Some(r)
}

fn member_exec(t: &str, key: &str) -> (r: Option<String>)
    ensures
        r.deep_view() == member(t@, key@),
{
    match json_string_member(t, key) {
        Some(m) => m,
        None => None,
    }
}

/// The changelists of `p4 -Mj -ztag changes -l` output, one JSON object per
/// line: blank lines, lines that are not JSON and records whose change
/// number is missing or zero are skipped.
pub fn parse_p4_changes(s: &str) -> (r: Vec<P4Change>)
    ensures
        r.deep_view() == changes_of_lines(lines(s@)),
{
    let ls = lines_exec(chars_of(s).as_slice());
    let mut out: Vec<P4Change> = Vec::new();
    let mut i: usize = 0;
    assert(ls.deep_view().take(0) =~= Seq::<Seq<char>>::empty());
    assert(out.deep_view() =~= Seq::<ChangeFields>::empty());
    while i < ls.len()
        invariant
            i <= ls.len(),
            ls.deep_view() == lines(s@),
            out.deep_view() == changes_of_lines(ls.deep_view().take(i as int)),
        decreases ls.len() - i,
    {
        let ghost pre = ls.deep_view().take(i + 1);
        assert(pre.drop_last() =~= ls.deep_view().take(i as int));
        assert(pre.last() == ls[i as int]@);
        let t = string_of(trim_exec(ls[i].as_slice()).as_slice());
        if !t.as_str().is_empty() {
            match json_string_member(t.as_str(), "change") {
                None => {},
                Some(chg) => {
                    let user = member_exec(t.as_str(), "user");
                    let client = member_exec(t.as_str(), "client");
                    let time = member_exec(t.as_str(), "time");
                    let desc = member_exec(t.as_str(), "desc");
                    match change_from_members(&chg, &user, &client, &time, &desc) {
                        Some(c) => {
                            let ghost before = out@;
                            let ghost cv = c;
                            out.push(c);
                            assert(out.deep_view() =~= changes_of_lines(pre)) by {
                                assert(out@ == before.push(cv));
                            }
                        },
                        None => {},
                    }
                },
            }
        }
        i += 1;
    }
    assert(ls.deep_view().take(ls.len() as int) =~= ls.deep_view());
    out
}

/// A user id with a known full name, from one line of
/// `p4 -Mj -ztag users`: none for a blank or non-JSON line, a record
/// without `User`, or an empty `FullName`.
pub open spec fn user_of_line(line: Seq<char>) -> Option<(Seq<char>, Seq<char>)> {
    let t = trim(line);
    if t.len() == 0 {
        None
    } else {
        match json_member(t, "User"@) {
            Some(Some(u)) => {
                let f = text_or_empty(member(t, "FullName"@));
                if f.len() == 0 {
                    None
                } else {
                    Some((u, f))
                }
            },
            _ => None,
        }
    }
}

/// The (user id, full name) pairs of all lines, in order.
pub open spec fn users_of_lines(ls: Seq<Seq<char>>) -> Seq<(Seq<char>, Seq<char>)>
    decreases ls.len(),
{
    if ls.len() == 0 {
        Seq::empty()
    } else {
        let before = users_of_lines(ls.drop_last());
        match user_of_line(ls.last()) {
            Some(p) => before.push(p),
            None => before,
        }
    }
}

/// The full name that the pairs give a user: the one of its last pair, as
/// a map that each later pair overwrites.
pub open spec fn fullname_of(ps: Seq<(Seq<char>, Seq<char>)>, user: Seq<char>) -> Option<
    Seq<char>,
>
    decreases ps.len(),
{
    if ps.len() == 0 {
        None
    } else if ps.last().0 == user {
        Some(ps.last().1)
    } else {
        fullname_of(ps.drop_last(), user)
    }
}

/// The user ids and full names that `p4 -Mj -ztag users` lists, in output
/// order; a later pair for the same id overrides an earlier one.
pub fn parse_user_fullnames(s: &str) -> (r: Vec<(String, String)>)
    ensures
        r.deep_view() == users_of_lines(lines(s@)),
{
    let ls = lines_exec(chars_of(s).as_slice());
    let mut out: Vec<(String, String)> = Vec::new();
    let mut i: usize = 0;
    assert(ls.deep_view().take(0) =~= Seq::<Seq<char>>::empty());
    assert(out.deep_view() =~= Seq::<(Seq<char>, Seq<char>)>::empty());
    while i < ls.len()
        invariant
            i <= ls.len(),
            ls.deep_view() == lines(s@),
            out.deep_view() == users_of_lines(ls.deep_view().take(i as int)),
        decreases ls.len() - i,
    {
        let ghost pre = ls.deep_view().take(i + 1);
        assert(pre.drop_last() =~= ls.deep_view().take(i as int));
        assert(pre.last() == ls[i as int]@);
        let t = string_of(trim_exec(ls[i].as_slice()).as_slice());
        if !t.as_str().is_empty() {
            match json_string_member(t.as_str(), "User") {
                Some(Some(u)) => {
                    let f = text_or_empty_exec(&member_exec(t.as_str(), "FullName"));
                    if !f.as_str().is_empty() {
                        let ghost before = out@;
                        let ghost pv = (u, f);
                        out.push((u, f));
                        assert(out.deep_view() =~= users_of_lines(pre)) by {
                            assert(out@ == before.push(pv));
                        }
                    }
                },
                _ => {},
            }
        }
        i += 1;
    }
    assert(ls.deep_view().take(ls.len() as int) =~= ls.deep_view());
    out
}

/// The full name of `user` among the pairs (the last pair for it wins).
pub fn lookup_fullname(names: &Vec<(String, String)>, user: &String) -> (r: Option<String>)
    ensures
        r.deep_view() == fullname_of(names.deep_view(), user@),
{
    let mut k = names.len();
    assert(names.deep_view().take(k as int) =~= names.deep_view());
    while k > 0
        invariant
            k <= names.len(),
            fullname_of(names.deep_view(), user@) == fullname_of(
                names.deep_view().take(k as int),
                user@,
            ),
        decreases k,
    {
        let ghost pre = names.deep_view().take(k as int);
        assert(pre.drop_last() =~= names.deep_view().take(k - 1));
        assert(pre.last() == names.deep_view()[k - 1]);
        if names[k - 1].0.eq(user) {
            return Some(names[k - 1].1.clone());
        }
        k -= 1;
    }
    None
}

/// The changelists among `parsed` whose number is one of `heads`, in order,
/// each with the full name that `names` gives its user, or the user id when
/// there is none.
pub open spec fn pending_selection(
    parsed: Seq<ChangeFields>,
    heads: Set<i64>,
    names: Seq<(Seq<char>, Seq<char>)>,
) -> Seq<ChangeFields>
    decreases parsed.len(),
{
    if parsed.len() == 0 {
        Seq::empty()
    } else {
        let before = pending_selection(parsed.drop_last(), heads, names);
        let c = parsed.last();
        if heads.contains(c.number) {
            before.push(
                ChangeFields {
                    user_fullname: match fullname_of(names, c.user) {
                        Some(f) => f,
                        None => c.user,
                    },
                    ..c
                },
            )
        } else {
            before
        }
    }
}

/// Keeps the changelists of `parsed` whose number is a head change of a
/// stale file (other changes in the same range touched other files), and
/// fills in the user's full name, falling back to the user id.
pub fn select_pending_changes(
    parsed: Vec<P4Change>,
    heads: &Vec<i64>,
    names: &Vec<(String, String)>,
) -> (r: Vec<P4Change>)
    ensures
        r.deep_view() == pending_selection(parsed.deep_view(), heads@.to_set(), names.deep_view()),
{
    let mut out: Vec<P4Change> = Vec::new();
    let mut i: usize = 0;
    assert(parsed.deep_view().take(0) =~= Seq::<ChangeFields>::empty());
    assert(out.deep_view() =~= Seq::<ChangeFields>::empty());
    while i < parsed.len()
        invariant
            i <= parsed.len(),
            out.deep_view() == pending_selection(
                parsed.deep_view().take(i as int),
                heads@.to_set(),
                names.deep_view(),
            ),
        decreases parsed.len() - i,
    {
        let ghost pre = parsed.deep_view().take(i + 1);
        assert(pre.drop_last() =~= parsed.deep_view().take(i as int));
        assert(pre.last() == parsed[i as int]@);
        let c = &parsed[i];
        let mut found = false;
        let mut k: usize = 0;
        while k < heads.len()
            invariant
                k <= heads.len(),
                found == (exists|j: int| 0 <= j < k && heads@[j] == c.number),
            decreases heads.len() - k,
        {
            if heads[k] == c.number {
                found = true;
            }
            k += 1;
        }
        assert(found == heads@.to_set().contains(c.number));
        if found {
            let full = match lookup_fullname(names, &c.user) {
                Some(f) => f,
                None => c.user.clone(),
            };
            let nc = P4Change {
                number: c.number,
                user: c.user.clone(),
                user_fullname: full,
                client: c.client.clone(),
                time: c.time,
                description: c.description.clone(),
            };
            let ghost before = out@;
            let ghost ncv = nc;
            out.push(nc);
            assert(out.deep_view() =~= pending_selection(pre, heads@.to_set(), names.deep_view()))
                by {
                assert(out@ == before.push(ncv));
            }
        }
        i += 1;
    }
    assert(parsed.deep_view().take(parsed.len() as int) =~= parsed.deep_view());
    out
}

/// The revision range of `p4 changes` that covers every stale head change:
/// `<pattern>@<smallest head change>,#head`; none when there is no head
/// change.
pub fn changes_range(pattern: &str, heads: &Vec<i64>) -> (r: Option<String>)
    ensures
        heads@.len() == 0 <==> r is None,
        r matches Some(s) ==> exists|m: i64|
            #![trigger heads@.contains(m)]
            heads@.contains(m) && (forall|k: int| 0 <= k < heads@.len() ==> m <= heads@[k]) && s@
                == pattern@ + "@"@ + decimal(m as int) + ",#head"@,
{
    if heads.len() == 0 {
        return None;
    }
    let mut m = heads[0];
    let mut k: usize = 1;
    let mut at: usize = 0;
    while k < heads.len()
        invariant
            1 <= k <= heads.len(),
            at < heads.len(),
            heads@[at as int] == m,
            forall|j: int| 0 <= j < k ==> m <= heads@[j],
        decreases heads.len() - k,
    {
        if heads[k] < m {
            m = heads[k];
            at = k;
        }
        k += 1;
    }
    let mut s = chars_of(pattern);
    let mut a = chars_of("@");
    s.append(&mut a);
    let mut b = format_i64(m);
    s.append(&mut b);
    let mut c = chars_of(",#head");
    s.append(&mut c);
    let r = string_of(s.as_slice());
    assert(r@ =~= pattern@ + "@"@ + decimal(m as int) + ",#head"@);
    assert(heads@.contains(m));
    Some(r)
}

// ---------------------------------------------------------------------------
// Listing the pending changelists
// ---------------------------------------------------------------------------

/// The (user id, full name) pairs from the outcome of `p4 -Mj -ztag users`;
/// none when it failed, so that every user falls back to the id.
pub open spec fn fullnames_of(out: Result<CommandOutput, String>) -> Seq<(Seq<char>, Seq<char>)> {
    match ok_text(out) {
        Some(t) => users_of_lines(lines(t)),
        None => Seq::empty(),
    }
}

/// The user directory of `p4 users` (see `fullnames_of`).
pub fn fetch_user_fullnames(out: &Result<CommandOutput, String>) -> (r: Vec<(String, String)>)
    ensures
        r.deep_view() == fullnames_of(*out),
{
    match ok_text_exec(out) {
        Some(t) => parse_user_fullnames(t.as_str()),
        None => {
            let v: Vec<(String, String)> = Vec::new();
            assert(v.deep_view() =~= Seq::<(Seq<char>, Seq<char>)>::empty());
            v
        },
    }
}

/// `range` is `<pattern>@<m>,#head` for the smallest `m` of `heads`.
pub open spec fn is_range_for(pattern: Seq<char>, heads: Set<i64>, range: Seq<char>) -> bool {
    exists|m: i64|
        #![trigger heads.contains(m)]
        heads.contains(m) && (forall|x: i64| heads.contains(x) ==> m <= x) && range == pattern
            + "@"@ + decimal(m as int) + ",#head"@
}

/// The unsynced submitted changelists of a file pattern
/// (`list_pending_changes`), found step by step:
///   1. `p4 fstat` gives the head change of every file that was synced and
///      has a newer revision (files never synced are left out; they would
///      bring in the changelist of every new file);
///   2. `p4 changes` lists the submitted changelists from the smallest of
///      those head changes to `#head`;
///   3. `p4 users` gives the full names.
/// The answer keeps the changelists that are head changes of stale files,
/// with full names filled in. No stale file means no changelist; a failed
/// `fstat` or `changes` is an error carrying its standard error.
pub struct PendingChanges {
    pub pattern: String,
    /// The head changes of the stale files, each once.
    pub heads: Vec<i64>,
    /// The changelists of the range.
    pub parsed: Vec<P4Change>,
}

/// What the listing has learned last.
pub enum PendingEvent {
    Start,
    Fstat(Result<CommandOutput, String>),
    Changes(Result<CommandOutput, String>),
    Users(Result<CommandOutput, String>),
}

/// What the listing does next: run `p4` with the override options and the
/// given arguments and report the outcome as the event of the same name,
/// or answer.
pub enum PendingAction {
    RunFstat(Vec<String>),
    RunChanges(Vec<String>),
    RunUsers(Vec<String>),
    /// The answer.
    Done(Result<Vec<P4Change>, String>),
}

/// One step of `PendingChanges` (see its documentation).
pub open spec fn pending_step_ok(
    old: PendingChanges,
    new: PendingChanges,
    ev: PendingEvent,
    r: PendingAction,
) -> bool {
    &&& new.pattern@ == old.pattern@
    &&& match ev {
        PendingEvent::Start => r matches PendingAction::RunFstat(a) && a.deep_view() == seq![
            "fstat"@,
            "-T"@,
            "depotFile,haveRev,headRev,headChange"@,
            old.pattern@,
        ],
        PendingEvent::Fstat(out) => match failure_text("p4 fstat (for changes)"@, out) {
            Some(m) => r matches PendingAction::Done(Err(e)) && e@ == m,
            None => {
                let heads = stale_changes(fstat_records(ok_text(out)->0));
                &&& new.heads@.to_set() == heads
                &&& new.heads@.no_duplicates()
                &&& if heads.len() == 0 {
                    r matches PendingAction::Done(Ok(v)) && v@.len() == 0
                } else {
                    r matches PendingAction::RunChanges(a) && a.deep_view().len() == 7 && a.deep_view()
                        == seq![
                        "-Mj"@,
                        "-ztag"@,
                        "changes"@,
                        "-l"@,
                        "-s"@,
                        "submitted"@,
                        a.deep_view()[6],
                    ] && is_range_for(old.pattern@, heads, a.deep_view()[6])
                }
            },
        },
        PendingEvent::Changes(out) => match failure_text("p4 changes"@, out) {
            Some(m) => r matches PendingAction::Done(Err(e)) && e@ == m,
            None => {
                &&& new.heads@ == old.heads@
                &&& new.parsed.deep_view() == changes_of_lines(lines(ok_text(out)->0))
                &&& r matches PendingAction::RunUsers(a) && a.deep_view() == seq![
                    "-Mj"@,
                    "-ztag"@,
                    "users"@,
                ]
            },
        },
        PendingEvent::Users(out) => r matches PendingAction::Done(Ok(v)) && v.deep_view()
            == pending_selection(old.parsed.deep_view(), old.heads@.to_set(), fullnames_of(out)),
    }
}

impl PendingChanges {
    /// A listing of the changelists pending under `pattern`.
    pub fn new(pattern: &str) -> (r: Self)
        ensures
            r.pattern@ == pattern@,
            r.heads@.len() == 0,
            r.parsed@.len() == 0,
    {
        PendingChanges { pattern: pattern.to_owned(), heads: Vec::new(), parsed: Vec::new() }
    }

    /// One step: what to do after `ev`.
    pub fn step(&mut self, ev: PendingEvent) -> (r: PendingAction)
        ensures
            pending_step_ok(*old(self), *final(self), ev, r),
    {
        match ev {
            PendingEvent::Start => PendingAction::RunFstat(
                crate::queries::pending_fstat_args(self.pattern.as_str()),
            ),
            PendingEvent::Fstat(out) => {
                match p4_failure("p4 fstat (for changes)", &out) {
                    Some(m) => PendingAction::Done(Err(m)),
                    None => {
                        let t = match ok_text_exec(&out) {
                            Some(t) => t,
                            None => String::new(),
                        };
                        let heads = stale_head_changes(t.as_str());
                        proof {
                            heads@.unique_seq_to_set();
                        }
                        let range = changes_range(self.pattern.as_str(), &heads);
                        self.heads = heads;
                        match range {
                            None => {
                                let v: Vec<P4Change> = Vec::new();
                                PendingAction::Done(Ok(v))
                            },
                            Some(rg) => {
                                let a = crate::queries::changes_args(rg.as_str());
                                assert(a.deep_view()[6] == rg@);
                                proof {
                                    let hs = self.heads@;
                                    let m = choose|m: i64|
                                        #![trigger hs.contains(m)]
                                        hs.contains(m) && (forall|k: int|
                                            0 <= k < hs.len() ==> m <= hs[k]) && rg@ == self.pattern@
                                            + "@"@ + decimal(m as int) + ",#head"@;
                                    assert(hs.to_set().contains(m));
                                    assert forall|x: i64| hs.to_set().contains(x) implies m <= x by {
                                        let k = choose|k: int| 0 <= k < hs.len() && hs[k] == x;
                                    }
                                    assert(is_range_for(self.pattern@, hs.to_set(), rg@));
                                }
                                PendingAction::RunChanges(a)
                            },
                        }
                    },
                }
            },
            PendingEvent::Changes(out) => {
                match p4_failure("p4 changes", &out) {
                    Some(m) => PendingAction::Done(Err(m)),
                    None => {
                        let t = match ok_text_exec(&out) {
                            Some(t) => t,
                            None => String::new(),
                        };
                        self.parsed = parse_p4_changes(t.as_str());
                        PendingAction::RunUsers(crate::queries::users_args())
                    },
                }
            },
            PendingEvent::Users(out) => {
                let names = fetch_user_fullnames(&out);
                let mut parsed: Vec<P4Change> = Vec::new();
                std::mem::swap(&mut parsed, &mut self.parsed);
                let sel = select_pending_changes(parsed, &self.heads, &names);
                PendingAction::Done(Ok(sel))
            },
        }
    }
}

/// The listing keeps only changelists that are head changes of stale
/// files, never more than the range held, each with a full name that is
/// the directory's or else the user id.
pub proof fn lemma_pending_selection_within_heads(
    parsed: Seq<ChangeFields>,
    heads: Set<i64>,
    names: Seq<(Seq<char>, Seq<char>)>,
)
    ensures
        pending_selection(parsed, heads, names).len() <= parsed.len(),
        forall|i: int|
            0 <= i < pending_selection(parsed, heads, names).len() ==> {
                let c = #[trigger] pending_selection(parsed, heads, names)[i];
                &&& heads.contains(c.number)
                &&& c.user_fullname == match fullname_of(names, c.user) {
                    Some(f) => f,
                    None => c.user,
                }
            },
    decreases parsed.len(),
{
    if parsed.len() > 0 {
        lemma_pending_selection_within_heads(parsed.drop_last(), heads, names);
    }
}

/// No listed changelist has number zero.
pub proof fn lemma_changes_have_numbers(ls: Seq<Seq<char>>)
    ensures
        forall|i: int| 0 <= i < changes_of_lines(ls).len() ==> #[trigger] changes_of_lines(ls)[i].number != 0,
    decreases ls.len(),
{
    if ls.len() > 0 {
        let before = changes_of_lines(ls.drop_last());
        lemma_changes_have_numbers(ls.drop_last());
        assert forall|i: int| 0 <= i < changes_of_lines(ls).len() implies #[trigger] changes_of_lines(
            ls,
        )[i].number != 0 by {
            if i < before.len() {
                assert(changes_of_lines(ls)[i] == before[i]);
            }
        }
    }
}

/// Reading lines one by one: the changelists of two runs of lines are
/// those of the first followed by those of the second.
pub proof fn lemma_changes_of_concat(x: Seq<Seq<char>>, y: Seq<Seq<char>>)
    ensures
        changes_of_lines(x + y) == changes_of_lines(x) + changes_of_lines(y),
    decreases y.len(),
{
    if y.len() == 0 {
        assert(x + y =~= x);
        assert(changes_of_lines(x) + Seq::<ChangeFields>::empty() =~= changes_of_lines(x));
    } else {
        assert((x + y).drop_last() =~= x + y.drop_last());
        assert((x + y).last() == y.last());
        lemma_changes_of_concat(x, y.drop_last());
        let a = changes_of_lines(x);
        let b = changes_of_lines(y.drop_last());
        match change_of_line(y.last()) {
            Some(c) => {
                assert((a + b).push(c) =~= a + b.push(c));
            },
            None => {},
        }
    }
}

/// A final line break adds no changelist.
proof fn lemma_changes_final_newline(s: Seq<char>)
    ensures
        changes_of_lines(lines(s + seq!['\n'])) == changes_of_lines(lines(s)),
    decreases s.len(),
{
    let v = s + seq!['\n'];
    crate::text::lemma_line_len(s);
    let i = crate::text::line_len(s) as int;
    assert(forall|k: int| 0 <= k < i ==> v[k] == s[k]);
    if s.len() == 0 {
        assert(v[0] == '\n');
        crate::text::lemma_line_len_is(v, 0);
        assert(v.subrange(0, 0) =~= Seq::<char>::empty());
        assert(v.subrange(1, 1) =~= Seq::<char>::empty());
        assert(lines(Seq::<char>::empty()) =~= Seq::<Seq<char>>::empty());
        let one = lines(v);
        assert(one =~= seq![crate::text::strip_last(Seq::<char>::empty(), '\r')]);
        assert(one.drop_last() =~= Seq::<Seq<char>>::empty());
        assert(crate::text::strip_last(Seq::<char>::empty(), '\r') =~= Seq::<char>::empty());
        assert(one.last() =~= Seq::<char>::empty());
        assert(trim_start(Seq::<char>::empty()) =~= Seq::<char>::empty());
        assert(trim(Seq::<char>::empty()).len() == 0);
        assert(change_of_line(one.last()) is None);
        assert(changes_of_lines(one.drop_last()) =~= Seq::<ChangeFields>::empty());
        assert(changes_of_lines(one) =~= Seq::<ChangeFields>::empty());
        assert(changes_of_lines(Seq::<Seq<char>>::empty()) =~= Seq::<ChangeFields>::empty());
    } else if i < s.len() {
        assert(v[i] == s[i]);
        crate::text::lemma_line_len_is(v, i);
        let s2 = s.subrange(i + 1, s.len() as int);
        let first = crate::text::strip_last(s.subrange(0, i), '\r');
        assert(v.subrange(0, i) =~= s.subrange(0, i));
        assert(v.subrange(i + 1, v.len() as int) =~= s2 + seq!['\n']);
        lemma_changes_final_newline(s2);
        assert(lines(v) =~= seq![first] + lines(s2 + seq!['\n']));
        assert(lines(s) =~= seq![first] + lines(s2));
        lemma_changes_of_concat(seq![first], lines(s2 + seq!['\n']));
        lemma_changes_of_concat(seq![first], lines(s2));
    } else {
        assert(v[i] == '\n');
        crate::text::lemma_line_len_is(v, i);
        assert(v.subrange(0, i) =~= s);
        assert(v.subrange(i + 1, v.len() as int) =~= Seq::<char>::empty());
        assert(lines(Seq::<char>::empty()) =~= Seq::<Seq<char>>::empty());
        let l2 = crate::text::strip_last(s, '\r');
        assert(lines(v) =~= seq![l2]);
        assert(lines(s) =~= seq![s]);
        if s.last() == '\r' {
            crate::text::lemma_trim_drop_ws_last(s);
        }
        assert(trim(l2) == trim(s));
        assert(change_of_line(l2) == change_of_line(s));
        assert(seq![l2].drop_last() =~= Seq::<Seq<char>>::empty());
        assert(seq![s].drop_last() =~= Seq::<Seq<char>>::empty());
        assert(seq![l2].last() == l2);
        assert(seq![s].last() == s);
    }
}

/// Each line of `p4 changes` output is read on its own: the changelists
/// of `a`, a line break and `b` are those of `a` followed by those of `b`.
pub proof fn lemma_parse_changes_line_independent(a: Seq<char>, b: Seq<char>)
    ensures
        changes_of_lines(lines(a + seq!['\n'] + b)) == changes_of_lines(lines(a)) + changes_of_lines(
            lines(b),
        ),
{
    crate::text::lemma_lines_split(a, b);
    lemma_changes_of_concat(lines(a + seq!['\n']), lines(b));
    lemma_changes_final_newline(a);
}

} // verus!
