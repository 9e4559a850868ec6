//! Which stream a workspace works on: the stream name in client specs,
//! `p4 switch` and `p4 info` output, and the `P4CLIENT` of a `.p4config`.
use vstd::prelude::*;
use crate::command::{server_user_args, server_user_flags, CommandOutput, P4Override};
use crate::text::{
    chars_of, lines, lines_exec, lowercase, rfind_char, slice_of, starts_with, starts_with_exec,
    string_of, strip_prefix, strip_prefix_exec, to_lowercase, trim, trim_exec,
};

verus! {

/// `s` without every leading `//` pair (`trim_start_matches("//")`).
pub open spec fn skip_slash_pairs(s: Seq<char>) -> Seq<char>
    decreases s.len(),
{
    if s.len() >= 2 && s[0] == '/' && s[1] == '/' {
        skip_slash_pairs(s.subrange(2, s.len() as int))
    } else {
        s
    }
}

/// The part of `s` after its last `/` (all of `s` when it has none).
pub open spec fn after_last_slash(s: Seq<char>) -> Seq<char>
    decreases s.len(),
{
    if s.len() == 0 {
        s
    } else if s.last() == '/' {
        Seq::empty()
    } else {
        after_last_slash(s.drop_last()).push(s.last())
    }
}

/// The stream name of a `Stream:` value such as `//depot/Main`: the last
/// path segment, lower-cased; none when that segment is empty.
pub open spec fn stream_name(raw: Seq<char>) -> Option<Seq<char>> {
    let seg = after_last_slash(skip_slash_pairs(trim(raw)));
    if seg.len() == 0 {
        None
    } else {
        Some(lowercase(seg))
    }
}

/// The value of the first line of `text` that begins with `prefix`,
/// trimmed.
pub open spec fn info_field(ls: Seq<Seq<char>>, prefix: Seq<char>) -> Option<Seq<char>>
    decreases ls.len(),
{
    if ls.len() == 0 {
        None
    } else {
        match strip_prefix(ls[0], prefix) {
            Some(v) => Some(trim(v)),
            None => info_field(ls.drop_first(), prefix),
        }
    }
}

/// The stream of a client spec (`p4 client -o`): the name in the first
/// `Stream:` line.
pub open spec fn spec_stream(ls: Seq<Seq<char>>) -> Option<Seq<char>>
    decreases ls.len(),
{
    if ls.len() == 0 {
        None
    } else {
        match strip_prefix(ls[0], "Stream:"@) {
            Some(v) => stream_name(v),
            None => spec_stream(ls.drop_first()),
        }
    }
}

/// The stream that `p4 switch` prints: the first line that is neither
/// blank nor a depot path, trimmed and lower-cased.
pub open spec fn switch_stream(ls: Seq<Seq<char>>) -> Option<Seq<char>>
    decreases ls.len(),
{
    if ls.len() == 0 {
        None
    } else {
        let t = trim(ls[0]);
        if t.len() != 0 && !starts_with(t, "//"@) {
            Some(lowercase(t))
        } else {
            switch_stream(ls.drop_first())
        }
    }
}

/// The stream in `p4 info` output: the name in the first `Client stream:`
/// line that has one.
pub open spec fn info_stream(ls: Seq<Seq<char>>) -> Option<Seq<char>>
    decreases ls.len(),
{
    if ls.len() == 0 {
        None
    } else {
        match strip_prefix(ls[0], "Client stream:"@) {
            Some(v) => match stream_name(v) {
                Some(n) => Some(n),
                None => info_stream(ls.drop_first()),
            },
            None => info_stream(ls.drop_first()),
        }
    }
}

proof fn lemma_after_last_slash_at(s: Seq<char>, i: int)
    requires
        0 <= i < s.len(),
        s[i] == '/',
        forall|k: int| i < k < s.len() ==> s[k] != '/',
    ensures
        after_last_slash(s) == s.subrange(i + 1, s.len() as int),
    decreases s.len(),
{
    if s.last() != '/' {
        lemma_after_last_slash_at(s.drop_last(), i);
        assert(s.drop_last().subrange(i + 1, s.len() - 1).push(s.last()) =~= s.subrange(
            i + 1,
            s.len() as int,
        ));
    } else {
        assert(s.subrange(i + 1, s.len() as int) =~= Seq::<char>::empty());
    }
}

proof fn lemma_after_last_slash_none(s: Seq<char>)
    requires
        forall|k: int| 0 <= k < s.len() ==> s[k] != '/',
    ensures
        after_last_slash(s) == s,
    decreases s.len(),
{
    if s.len() > 0 {
        lemma_after_last_slash_none(s.drop_last());
        assert(s.drop_last().push(s.last()) =~= s);
    }
}

/// The stream name of a `Stream:` or `Client stream:` value: trimmed, the
/// leading `//` pairs dropped, the last `/`-separated segment, lower-cased;
/// `None` when that segment is empty.
pub fn extract_stream_name(raw: &[char]) -> (r: Option<String>)
    ensures
        r.deep_view() == stream_name(raw@),
{
    let t = trim_exec(raw);
    let mut i: usize = 0;
    let n = t.len();
    assert(t@.subrange(0, n as int) =~= t@);
    while n - i >= 2 && t[i] == '/' && t[i + 1] == '/'
        invariant
            i <= n == t.len(),
            skip_slash_pairs(t@) == skip_slash_pairs(t@.subrange(i as int, n as int)),
        decreases n - i,
    {
        assert(t@.subrange(i as int, n as int).subrange(2, n - i) =~= t@.subrange(i + 2, n as int));
        i += 2;
    }
    let rest = slice_of(t.as_slice(), i, n);
    assert(skip_slash_pairs(t@) == rest@);
    let seg = match rfind_char(rest.as_slice(), '/') {
        Some(k) => {
            proof {
                lemma_after_last_slash_at(rest@, k as int);
            }
            slice_of(rest.as_slice(), k + 1, rest.len())
        },
        None => {
            proof {
                lemma_after_last_slash_none(rest@);
            }
            slice_of(rest.as_slice(), 0, rest.len())
        },
    };
    assert(rest@.subrange(0, rest@.len() as int) =~= rest@);
    if seg.len() == 0 {
        None
    } else {
        let s = string_of(seg.as_slice());
        Some(to_lowercase(s.as_str()))
    }
}

/// The value of the first line of `text` that begins with `prefix`,
/// trimmed (for example `Client name:` in `p4 info` output).
pub fn extract_info_field(text: &str, prefix: &str) -> (r: Option<String>)
    ensures
        r.deep_view() == info_field(lines(text@), prefix@),
{
    let ls = lines_exec(chars_of(text).as_slice());
    let p = chars_of(prefix);
    let mut i: usize = 0;
    assert(ls.deep_view().subrange(0, ls.len() as int) =~= ls.deep_view());
    while i < ls.len()
        invariant
            i <= ls.len(),
            ls.deep_view() == lines(text@),
            p@ == prefix@,
            info_field(lines(text@), prefix@) == info_field(
                ls.deep_view().subrange(i as int, ls.len() as int),
                prefix@,
            ),
        decreases ls.len() - i,
    {
        let ghost sub = ls.deep_view().subrange(i as int, ls.len() as int);
        assert(sub[0] == ls[i as int]@);
        assert(sub.drop_first() =~= ls.deep_view().subrange(i + 1, ls.len() as int));
        match strip_prefix_exec(ls[i].as_slice(), p.as_slice()) {
            Some(v) => {
                let t = trim_exec(v.as_slice());
                return Some(string_of(t.as_slice()));
            },
            None => {},
        }
        i += 1;
    }
    None
}

/// The stream named in a client spec (`p4 client -o` output): the value of
/// the first `Stream:` line.
pub fn parse_stream_from_spec(spec: &str) -> (r: Option<String>)
    ensures
        r.deep_view() == spec_stream(lines(spec@)),
{
    let ls = lines_exec(chars_of(spec).as_slice());
    let p = chars_of("Stream:");
    let mut i: usize = 0;
    assert(ls.deep_view().subrange(0, ls.len() as int) =~= ls.deep_view());
    while i < ls.len()
        invariant
            i <= ls.len(),
            ls.deep_view() == lines(spec@),
            p@ == "Stream:"@,
            spec_stream(lines(spec@)) == spec_stream(
                ls.deep_view().subrange(i as int, ls.len() as int),
            ),
        decreases ls.len() - i,
    {
        let ghost sub = ls.deep_view().subrange(i as int, ls.len() as int);
        assert(sub[0] == ls[i as int]@);
        assert(sub.drop_first() =~= ls.deep_view().subrange(i + 1, ls.len() as int));
        match strip_prefix_exec(ls[i].as_slice(), p.as_slice()) {
            Some(v) => {
                return extract_stream_name(v.as_slice());
            },
            None => {},
        }
        i += 1;
    }
    None
}

/// The stream that `p4 switch` printed: the first line that is neither
/// blank nor a depot path (`//...`), lower-cased.
pub fn stream_from_switch(out: &str) -> (r: Option<String>)
    ensures
        r.deep_view() == switch_stream(lines(out@)),
{
    let ls = lines_exec(chars_of(out).as_slice());
    let slashes = chars_of("//");
    let mut i: usize = 0;
    assert(ls.deep_view().subrange(0, ls.len() as int) =~= ls.deep_view());
    while i < ls.len()
        invariant
            i <= ls.len(),
            ls.deep_view() == lines(out@),
            slashes@ == "//"@,
            switch_stream(lines(out@)) == switch_stream(
                ls.deep_view().subrange(i as int, ls.len() as int),
            ),
        decreases ls.len() - i,
    {
        let ghost sub = ls.deep_view().subrange(i as int, ls.len() as int);
        assert(sub[0] == ls[i as int]@);
        assert(sub.drop_first() =~= ls.deep_view().subrange(i + 1, ls.len() as int));
        let t = trim_exec(ls[i].as_slice());
        if t.len() != 0 && !starts_with_exec(t.as_slice(), slashes.as_slice()) {
            let s = string_of(t.as_slice());
            return Some(to_lowercase(s.as_str()));
        }
        i += 1;
    }
    None
}

/// The stream in `p4 info` output: the name in the first `Client stream:`
/// line that yields one.
pub fn stream_from_info(out: &str) -> (r: Option<String>)
    ensures
        r.deep_view() == info_stream(lines(out@)),
{
    let ls = lines_exec(chars_of(out).as_slice());
    let p = chars_of("Client stream:");
    let mut i: usize = 0;
    assert(ls.deep_view().subrange(0, ls.len() as int) =~= ls.deep_view());
    while i < ls.len()
        invariant
            i <= ls.len(),
            ls.deep_view() == lines(out@),
            p@ == "Client stream:"@,
            info_stream(lines(out@)) == info_stream(
                ls.deep_view().subrange(i as int, ls.len() as int),
            ),
        decreases ls.len() - i,
    {
        let ghost sub = ls.deep_view().subrange(i as int, ls.len() as int);
        assert(sub[0] == ls[i as int]@);
        assert(sub.drop_first() =~= ls.deep_view().subrange(i + 1, ls.len() as int));
        match strip_prefix_exec(ls[i].as_slice(), p.as_slice()) {
            Some(v) => {
                match extract_stream_name(v.as_slice()) {
                    Some(n) => {
                        return Some(n);
                    },
                    None => {},
                }
            },
            None => {},
        }
        i += 1;
    }
    None
}

/// The client that a `.p4config` names: the value of its first
/// `P4CLIENT=` line, trimmed.
pub fn p4config_client(content: &str) -> (r: Option<String>)
    ensures
        r.deep_view() == info_field(lines(content@), "P4CLIENT="@),
{
    extract_info_field(content, "P4CLIENT=")
}

// ---------------------------------------------------------------------------
// Resolving the stream of a workspace
// ---------------------------------------------------------------------------

/// What the resolution of a workspace's stream has learned last.
pub enum StreamEvent {
    /// Nothing yet.
    Start,
    /// `p4 client -o <override client>` ran (or failed to start).
    OverrideSpec(Result<CommandOutput, String>),
    /// The `.p4config` file was read (`None` when it could not be).
    ConfigFile(Option<String>),
    /// `p4 client -o <P4CLIENT of .p4config>` ran in the workspace.
    ConfigSpec(Result<CommandOutput, String>),
    /// `p4 switch` ran in the workspace.
    Switch(Result<CommandOutput, String>),
    /// `p4 info` ran in the workspace.
    Info(Result<CommandOutput, String>),
}

/// What the resolution does next.
pub enum StreamAction {
    /// Run `p4` with exactly these arguments (no override options added),
    /// then report `OverrideSpec`.
    RunOverrideSpec(Vec<String>),
    /// Read the `.p4config` of the workspace, then report `ConfigFile`.
    ReadConfig,
    /// Run `p4` with the override options and these arguments in the
    /// workspace directory (with `P4CONFIG=.p4config`), then report
    /// `ConfigSpec`.
    RunConfigSpec(Vec<String>),
    /// Run `p4 switch` the same way, then report `Switch`.
    RunSwitch(Vec<String>),
    /// Run `p4 info` the same way, then report `Info`.
    RunInfo(Vec<String>),
    /// The stream, or the empty string when no source names one.
    Done(String),
}

/// The text of a command's standard output when it started and exited
/// zero.
pub open spec fn ok_text(out: Result<CommandOutput, String>) -> Option<Seq<char>> {
    match out {
        Ok(o) => if o.success {
            Some(o.stdout_text())
        } else {
            None
        },
        Err(_) => None,
    }
}

/// After the override's spec gave no stream: the `.p4config` when the
/// workspace has one, `p4 switch` otherwise.
pub open spec fn after_override(has_config: bool, r: StreamAction) -> bool {
    if has_config {
        r is ReadConfig
    } else {
        r matches StreamAction::RunSwitch(a) && a.deep_view() == seq!["switch"@]
    }
}

/// `p4 switch` comes next.
pub open spec fn to_switch(r: StreamAction) -> bool {
    r matches StreamAction::RunSwitch(a) && a.deep_view() == seq!["switch"@]
}

/// `p4 info` comes next.
pub open spec fn to_info(r: StreamAction) -> bool {
    r matches StreamAction::RunInfo(a) && a.deep_view() == seq!["info"@]
}

/// The answer is `s`.
pub open spec fn answers(r: StreamAction, s: Seq<char>) -> bool {
    r matches StreamAction::Done(d) && d@ == s
}

fn run_switch() -> (r: StreamAction)
    ensures
        to_switch(r),
{
    let mut a: Vec<String> = Vec::new();
    a.push("switch".to_owned());
    assert(a.deep_view() =~= seq!["switch"@]);
    StreamAction::RunSwitch(a)
}

fn after_override_exec(has_config: bool) -> (r: StreamAction)
    ensures
        after_override(has_config, r),
{
    if has_config {
        StreamAction::ReadConfig
    } else {
        run_switch()
    }
}

fn client_spec_args(client: &String) -> (r: Vec<String>)
    ensures
        r.deep_view() == seq!["client"@, "-o"@, client@],
{
    let mut a: Vec<String> = Vec::new();
    a.push("client".to_owned());
    a.push("-o".to_owned());
    a.push(client.clone());
    assert(a.deep_view() =~= seq!["client"@, "-o"@, client@]);
    a
}

/// One step of finding the stream a workspace works on (`get_p4_stream`).
/// The sources, in order: the client spec of the override's client (when
/// an override names one); the client spec of the `P4CLIENT` in the
/// workspace's `.p4config` (when there is one); `p4 switch`; the
/// `Client stream:` of `p4 info`. The first that names a stream answers;
/// when none does, the answer is empty. The override's spec counts even
/// when `p4` exits non-zero; the other commands only when they succeed.
pub fn stream_step(o: &Option<P4Override>, has_config: bool, ev: StreamEvent) -> (r: StreamAction)
    ensures
        ev is Start ==> match *o {
            Some(ov) if ov.client@.len() != 0 => r matches StreamAction::RunOverrideSpec(a)
                && a.deep_view() == server_user_args(ov.server@, ov.user@) + seq![
                "client"@,
                "-o"@,
                ov.client@,
            ],
            _ => after_override(has_config, r),
        },
        ev matches StreamEvent::OverrideSpec(out) ==> match out {
            Ok(x) => match spec_stream(lines(x.stdout_text())) {
                Some(s) => answers(r, s),
                None => after_override(has_config, r),
            },
            Err(_) => after_override(has_config, r),
        },
        ev matches StreamEvent::ConfigFile(c) ==> match c {
            Some(text) => match info_field(lines(text@), "P4CLIENT="@) {
                Some(client) => r matches StreamAction::RunConfigSpec(a) && a.deep_view()
                    == seq!["client"@, "-o"@, client],
                None => to_switch(r),
            },
            None => to_switch(r),
        },
        ev matches StreamEvent::ConfigSpec(out) ==> match ok_text(out) {
            Some(t) => match spec_stream(lines(t)) {
                Some(s) => answers(r, s),
                None => to_switch(r),
            },
            None => to_switch(r),
        },
        ev matches StreamEvent::Switch(out) ==> match ok_text(out) {
            Some(t) => match switch_stream(lines(t)) {
                Some(s) => answers(r, s),
                None => to_info(r),
            },
            None => to_info(r),
        },
        ev matches StreamEvent::Info(out) ==> match ok_text(out) {
            Some(t) => match info_stream(lines(t)) {
                Some(s) => answers(r, s),
                None => answers(r, Seq::empty()),
            },
            None => answers(r, Seq::empty()),
        },
{
    match ev {
        StreamEvent::Start => {
            match o {
                Some(ov) => {
                    if !ov.client.as_str().is_empty() {
                        let mut a = server_user_flags(&ov.server, &ov.user);
                        let mut b = client_spec_args(&ov.client);
                        let ghost av = a.deep_view();
                        let ghost bv = b.deep_view();
                        a.append(&mut b);
                        assert(a.deep_view() =~= av + bv);
                        StreamAction::RunOverrideSpec(a)
                    } else {
                        after_override_exec(has_config)
                    }
                },
                None => after_override_exec(has_config),
            }
        },
        StreamEvent::OverrideSpec(out) => {
            match out {
                Ok(x) => {
                    let t = x.decoded_stdout();
                    match parse_stream_from_spec(t.as_str()) {
                        Some(s) => StreamAction::Done(s),
                        None => after_override_exec(has_config),
                    }
                },
                Err(_) => after_override_exec(has_config),
            }
        },
        StreamEvent::ConfigFile(c) => {
            match c {
                Some(text) => match p4config_client(text.as_str()) {
                    Some(client) => StreamAction::RunConfigSpec(client_spec_args(&client)),
                    None => run_switch(),
                },
                None => run_switch(),
            }
        },
        StreamEvent::ConfigSpec(out) => {
            match ok_text_exec(&out) {
                Some(t) => match parse_stream_from_spec(t.as_str()) {
                    Some(s) => StreamAction::Done(s),
                    None => run_switch(),
                },
                None => run_switch(),
            }
        },
        StreamEvent::Switch(out) => {
            match ok_text_exec(&out) {
                Some(t) => match stream_from_switch(t.as_str()) {
                    Some(s) => StreamAction::Done(s),
                    None => run_info(),
                },
                None => run_info(),
            }
        },
        StreamEvent::Info(out) => {
            match ok_text_exec(&out) {
                Some(t) => match stream_from_info(t.as_str()) {
                    Some(s) => StreamAction::Done(s),
                    None => StreamAction::Done(String::new()),
                },
                None => StreamAction::Done(String::new()),
            }
        },
    }
}

fn run_info() -> (r: StreamAction)
    ensures
        to_info(r),
{
    let mut a: Vec<String> = Vec::new();
    a.push("info".to_owned());
    assert(a.deep_view() =~= seq!["info"@]);
    StreamAction::RunInfo(a)
}

/// The decoded standard output of a command that started and exited zero.
pub fn ok_text_exec(out: &Result<CommandOutput, String>) -> (r: Option<String>)
    ensures
        r.deep_view() == ok_text(*out),
{
    match out {
        Ok(o) => if o.success {
            Some(o.decoded_stdout())
        } else {
            None
        },
        Err(_) => None,
    }
}

} // verus!
