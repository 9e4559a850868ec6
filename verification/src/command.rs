//! What a `p4` run hands back, the connection override, and the argument
//! lists of the `p4` commands that the library runs.
use vstd::prelude::*;
use crate::encoding::{decode_p4_stdout, p4_text, utf8_lossy, utf8_lossy_string};
use crate::number::{decimal, format_i64};
use crate::text::{chars_of, string_of, trim, trim_exec};

verus! {

/// The result of one `p4` process that ran to its end.
pub struct CommandOutput {
    /// The process exited with status zero.
    pub success: bool,
    /// The exit code, where the platform reports one.
    pub code: Option<i32>,
    pub stdout: Vec<u8>,
    pub stderr: Vec<u8>,
    /// The system code page's reading of `stdout`, where the platform has
    /// one (Windows); `None` elsewhere or when that reading failed.
    pub stdout_codepage: Option<String>,
}

impl CommandOutput {
    /// The text of standard output as `decode_p4_stdout` gives it.
    pub open spec fn stdout_text(&self) -> Seq<char> {
        p4_text(self.stdout@, self.stdout_codepage.deep_view())
    }

    /// Standard error decoded lossily.
    pub open spec fn stderr_text(&self) -> Seq<char> {
        utf8_lossy(self.stderr@)
    }

    /// Standard output decoded lossily.
    pub open spec fn stdout_lossy(&self) -> Seq<char> {
        utf8_lossy(self.stdout@)
    }

    /// `decode_p4_stdout` of standard output.
    pub fn decoded_stdout(&self) -> (r: String)
        ensures
            r@ == self.stdout_text(),
    {
        let cp = match &self.stdout_codepage {
            Some(s) => Some(s.clone()),
            None => None,
        };
        decode_p4_stdout(self.stdout.as_slice(), cp)
    }

    /// Standard error, decoded lossily.
    pub fn stderr_string(&self) -> (r: String)
        ensures
            r@ == self.stderr_text(),
    {
        utf8_lossy_string(self.stderr.as_slice())
    }

    /// Standard output, decoded lossily.
    pub fn stdout_lossy_string(&self) -> (r: String)
        ensures
            r@ == self.stdout_lossy(),
    {
        utf8_lossy_string(self.stdout.as_slice())
    }
}

/// Connection settings chosen in the UI; they take precedence over the
/// environment for every later `p4` run. An empty field is not passed.
#[derive(Clone, Default)]
pub struct P4Override {
    pub server: String,
    pub user: String,
    pub client: String,
}

/// `flag value`, or nothing when the value is empty.
pub open spec fn flag_args(flag: Seq<char>, value: Seq<char>) -> Seq<Seq<char>> {
    if value.len() == 0 {
        Seq::empty()
    } else {
        seq![flag, value]
    }
}

/// `-p server -u user`, each only when set.
pub open spec fn server_user_args(server: Seq<char>, user: Seq<char>) -> Seq<Seq<char>> {
    flag_args("-p"@, server) + flag_args("-u"@, user)
}

/// The global options that an override adds to every `p4` command:
/// `-p server -u user -c client`, each only when set.
pub open spec fn override_args(o: Option<P4Override>) -> Seq<Seq<char>> {
    match o {
        None => Seq::empty(),
        Some(o) => server_user_args(o.server@, o.user@) + flag_args("-c"@, o.client@),
    }
}

fn push_flag(args: &mut Vec<String>, flag: &str, value: &String)
    ensures
        final(args).deep_view() == old(args).deep_view() + flag_args(flag@, value@),
{
    let ghost before = args.deep_view();
    if !value.as_str().is_empty() {
        args.push(flag.to_owned());
        args.push(value.clone());
        assert(args.deep_view() =~= before + seq![flag@, value@]);
    } else {
        assert(args.deep_view() =~= before + flag_args(flag@, value@));
    }
}

/// The options `-p server -u user` that `p4` runs with an explicit server
/// and user take; empty values are left out.
pub fn server_user_flags(server: &String, user: &String) -> (r: Vec<String>)
    ensures
        r.deep_view() == server_user_args(server@, user@),
{
    let mut args: Vec<String> = Vec::new();
    assert(args.deep_view() =~= Seq::<Seq<char>>::empty());
    push_flag(&mut args, "-p", server);
    push_flag(&mut args, "-u", user);
    assert(args.deep_view() =~= server_user_args(server@, user@));
    args
}

/// The global options of a `p4` command under the current override
/// (what `p4_cmd` adds): `-p`, `-u`, `-c` for the fields that are set.
pub fn p4_cmd_args(o: &Option<P4Override>) -> (r: Vec<String>)
    ensures
        r.deep_view() == override_args(*o),
{
    match o {
        None => {
            let r: Vec<String> = Vec::new();
            assert(r.deep_view() =~= Seq::<Seq<char>>::empty());
            r
        },
        Some(ov) => {
            let mut args = server_user_flags(&ov.server, &ov.user);
            push_flag(&mut args, "-c", &ov.client);
            args
        },
    }
}

/// The connection override in effect for the whole application: set from
/// the workspace prompt, cleared to fall back to the environment.
pub struct P4Connection {
    pub current: Option<P4Override>,
}

impl P4Connection {
    /// No override: `p4` runs with the environment's settings.
    pub fn new() -> (r: Self)
        ensures
            r.current is None,
    {
        P4Connection { current: None }
    }

    /// A copy of the override in effect.
    pub fn get_override(&self) -> (r: Option<P4Override>)
        ensures
            r == self.current,
    {
        match &self.current {
            Some(o) => {
                let c = P4Override {
                    server: o.server.clone(),
                    user: o.user.clone(),
                    client: o.client.clone(),
                };
                proof {
                    assert(c.server@ == o.server@);
                }
                Some(c)
            },
            None => None,
        }
    }

    /// Makes `server`, `user` and `client` the override for every later
    /// `p4` run.
    pub fn set_p4_connection(&mut self, server: String, user: String, client: String)
        ensures
            final(self).current == Some(P4Override { server, user, client }),
            final(self).p4_args() == server_user_args(server@, user@) + flag_args("-c"@, client@),
    {
        self.current = Some(P4Override { server, user, client });
    }

    /// Drops the override: later `p4` runs use the environment again.
    pub fn clear_p4_connection(&mut self)
        ensures
            final(self).current is None,
            final(self).p4_args().len() == 0,
    {
        self.current = None;
    }

    /// The global options that the override adds to a `p4` command.
    pub open spec fn p4_args(&self) -> Seq<Seq<char>> {
        override_args(self.current)
    }

    /// The global options of every `p4` command under this connection
    /// (`p4_cmd`).
    pub fn p4_cmd_args(&self) -> (r: Vec<String>)
        ensures
            r.deep_view() == self.p4_args(),
    {
        p4_cmd_args(&self.current)
    }
}

/// The `Debug` text of an exit code: `Some(n)` or `None`.
pub open spec fn code_debug(code: Option<i32>) -> Seq<char> {
    match code {
        Some(c) => "Some("@ + decimal(c as int) + ")"@,
        None => "None"@,
    }
}

/// The error that a `p4` command which exited non-zero reports:
/// `<what> non-zero exit (code=<code>): <stderr, trimmed>`.
pub open spec fn nonzero_exit_text(what: Seq<char>, out: CommandOutput) -> Seq<char> {
    what + " non-zero exit (code="@ + code_debug(out.code) + "): "@ + trim(out.stderr_text())
}

/// Builds the message of `nonzero_exit_text`.
pub fn nonzero_exit_message(what: &str, out: &CommandOutput) -> (r: String)
    ensures
        r@ == nonzero_exit_text(what@, *out),
{
    let mut s: Vec<char> = chars_of(what);
    let ghost a = s@;
    let mut t = chars_of(" non-zero exit (code=");
    s.append(&mut t);
    match out.code {
        Some(c) => {
            let mut p = chars_of("Some(");
            s.append(&mut p);
            let mut d = format_i64(c as i64);
            s.append(&mut d);
            let mut q = chars_of(")");
            s.append(&mut q);
        },
        None => {
            let mut p = chars_of("None");
            s.append(&mut p);
        },
    }
    let mut u = chars_of("): ");
    s.append(&mut u);
    let err = chars_of(out.stderr_string().as_str());
    let mut e = trim_exec(err.as_slice());
    s.append(&mut e);
    let r = string_of(s.as_slice());
    assert(r@ =~= nonzero_exit_text(what@, *out));
    r
}

} // verus!
