//! Replacing the tool's own binary from Perforce: the `.old` name of the
//! running binary, the reading of the `p4 sync` output, and the errors of
//! each failed step.
use vstd::prelude::*;
use crate::command::CommandOutput;
use crate::number::{decimal_nat, format_u64};
use crate::text::{chars_of, contains, contains_exec, lines, lines_exec, push_string, string_of, trim, trim_exec};

verus! {

/// What a self-update's `p4 sync` did.
pub struct UpdateResult {
    /// The lines of standard output that report an updated file.
    pub sync_updated: Vec<String>,
    /// The lines of standard error other than the up-to-date notice.
    pub sync_errors: Vec<String>,
    /// Standard error as it came.
    pub raw_stderr: String,
}

/// The path that the running binary moves to while its replacement is
/// synced: the same path with `.old` appended.
pub fn with_old_suffix(p: &str) -> (r: String)
    ensures
        r@ == p@ + ".old"@,
{
    let mut s = chars_of(p);
    let mut a = chars_of(".old");
    s.append(&mut a);
    let r = string_of(s.as_slice());
    assert(r@ =~= p@ + ".old"@);
    r
}

/// A `p4 sync` output line that reports a file written.
pub open spec fn is_update_line(l: Seq<char>) -> bool {
    contains(l, " - updating "@) || contains(l, " - added as "@) || contains(l, " - refreshing "@)
}

/// The trimmed lines of `ls` that report a file written, in order.
pub open spec fn updated_lines(ls: Seq<Seq<char>>) -> Seq<Seq<char>>
    decreases ls.len(),
{
    if ls.len() == 0 {
        Seq::empty()
    } else {
        let before = updated_lines(ls.drop_last());
        let l = trim(ls.last());
        if l.len() != 0 && is_update_line(l) {
            before.push(l)
        } else {
            before
        }
    }
}

/// The trimmed non-blank lines of `ls` other than the up-to-date notice,
/// in order.
pub open spec fn error_lines(ls: Seq<Seq<char>>) -> Seq<Seq<char>>
    decreases ls.len(),
{
    if ls.len() == 0 {
        Seq::empty()
    } else {
        let before = error_lines(ls.drop_last());
        let l = trim(ls.last());
        if l.len() != 0 && !contains(l, "file(s) up-to-date"@) {
            before.push(l)
        } else {
            before
        }
    }
}

/// Sorts `p4 sync` output: the standard output lines that report an
/// update, add or refresh, and the standard error lines that are not the
/// `file(s) up-to-date` notice; blank lines are skipped and lines trimmed.
pub fn classify_sync(stdout: &str, stderr: &str) -> (r: (Vec<String>, Vec<String>))
    ensures
        r.0.deep_view() == updated_lines(lines(stdout@)),
        r.1.deep_view() == error_lines(lines(stderr@)),
{
    let out_ls = lines_exec(chars_of(stdout).as_slice());
    let err_ls = lines_exec(chars_of(stderr).as_slice());
    let upd = chars_of(" - updating ");
    let add = chars_of(" - added as ");
    let refr = chars_of(" - refreshing ");
    let utd = chars_of("file(s) up-to-date");
    let mut updated: Vec<String> = Vec::new();
    let mut errors: Vec<String> = Vec::new();
    let mut i: usize = 0;
    assert(out_ls.deep_view().take(0) =~= Seq::<Seq<char>>::empty());
    assert(updated.deep_view() =~= Seq::<Seq<char>>::empty());
    while i < out_ls.len()
        invariant
            i <= out_ls.len(),
            out_ls.deep_view() == lines(stdout@),
            upd@ == " - updating "@,
            add@ == " - added as "@,
            refr@ == " - refreshing "@,
            updated.deep_view() == updated_lines(out_ls.deep_view().take(i as int)),
        decreases out_ls.len() - i,
    {
        proof {
            assert(out_ls.deep_view().take(i + 1).drop_last() =~= out_ls.deep_view().take(i as int));
            crate::text::lemma_deep_index(out_ls, i as int);
        }
        let l = trim_exec(out_ls[i].as_slice());
        if l.len() != 0 && (contains_exec(l.as_slice(), upd.as_slice()) || contains_exec(
            l.as_slice(),
            add.as_slice(),
        ) || contains_exec(l.as_slice(), refr.as_slice())) {
            push_string(&mut updated, string_of(l.as_slice()));
        }
        i += 1;
    }
    assert(out_ls.deep_view().take(out_ls.len() as int) =~= out_ls.deep_view());
    let mut j: usize = 0;
    assert(err_ls.deep_view().take(0) =~= Seq::<Seq<char>>::empty());
    assert(errors.deep_view() =~= Seq::<Seq<char>>::empty());
    while j < err_ls.len()
        invariant
            j <= err_ls.len(),
            err_ls.deep_view() == lines(stderr@),
            utd@ == "file(s) up-to-date"@,
            errors.deep_view() == error_lines(err_ls.deep_view().take(j as int)),
        decreases err_ls.len() - j,
    {
        proof {
            assert(err_ls.deep_view().take(j + 1).drop_last() =~= err_ls.deep_view().take(j as int));
            crate::text::lemma_deep_index(err_ls, j as int);
        }
        let l = trim_exec(err_ls[j].as_slice());
        if l.len() != 0 && !contains_exec(l.as_slice(), utd.as_slice()) {
            push_string(&mut errors, string_of(l.as_slice()));
        }
        j += 1;
    }
    assert(err_ls.deep_view().take(err_ls.len() as int) =~= err_ls.deep_view());
    (updated, errors)
}

/// The error when the platform cannot replace a running binary.
pub open spec fn unsupported_message() -> Seq<char> {
    "자기 업데이트는 Windows 전용. macOS/Linux 는 dev rebuild 또는 수동 p4 sync 사용."@
}

/// The error when the platform cannot replace a running binary: only
/// Windows is supported.
pub fn self_update_unsupported(is_windows: bool) -> (r: Option<String>)
    ensures
        is_windows <==> r is None,
        !is_windows ==> (r matches Some(m) && m@ == unsupported_message()),
{
    if is_windows {
        None
    } else {
        Some(
            "자기 업데이트는 Windows 전용. macOS/Linux 는 dev rebuild 또는 수동 p4 sync 사용.".to_owned(),
        )
    }
}

/// The error when the running binary could not be moved aside.
pub fn rename_failure_message(e: &str) -> (r: String)
    ensures
        r@ == "binary rename 실패 (running .exe → .old): "@ + e@,
{
    let mut s = chars_of("binary rename 실패 (running .exe → .old): ");
    let mut b = chars_of(e);
    s.append(&mut b);
    let r = string_of(s.as_slice());
    assert(r@ =~= "binary rename 실패 (running .exe → .old): "@ + e@);
    r
}

/// The error when the new binary could not be started.
pub fn spawn_failure_message(e: &str) -> (r: String)
    ensures
        r@ == "새 binary spawn 실패 (수동 재실행 필요): "@ + e@,
{
    let mut s = chars_of("새 binary spawn 실패 (수동 재실행 필요): ");
    let mut b = chars_of(e);
    s.append(&mut b);
    let r = string_of(s.as_slice());
    assert(r@ =~= "새 binary spawn 실패 (수동 재실행 필요): "@ + e@);
    r
}

/// What follows the `p4 sync` of the binary's own path.
pub struct SyncVerdict {
    /// Move `.old` back to the binary's path before answering.
    pub restore: bool,
    /// The update so far, or the error to report.
    pub outcome: Result<UpdateResult, String>,
}

/// The update result of a finished `p4 sync`: both streams decoded lossily
/// and sorted by `classify_sync`.
pub open spec fn update_result_ok(o: CommandOutput, u: UpdateResult) -> bool {
    &&& u.sync_updated.deep_view() == updated_lines(lines(o.stdout_lossy()))
    &&& u.sync_errors.deep_view() == error_lines(lines(o.stderr_text()))
    &&& u.raw_stderr@ == o.stderr_text()
}

/// The verdict after `p4 sync <binary>` (see `after_binary_sync`).
pub open spec fn verdict_ok(
    out: Result<CommandOutput, String>,
    binary_exists: bool,
    restore: bool,
    outcome: Result<UpdateResult, String>,
) -> bool {
    match out {
        Err(e) => restore && (outcome matches Err(m) && m@ == "p4 sync 실행 실패: "@ + e@),
        Ok(o) => if binary_exists {
            !restore && (outcome matches Ok(u) && update_result_ok(o, u))
        } else {
            restore && (outcome matches Err(m) && m@ == "p4 sync 후에도 binary 가 없음. errors="@
                + decimal_nat(error_lines(lines(o.stderr_text())).len()) + ", stderr="@ + trim(
                o.stderr_text(),
            ))
        },
    }
}

/// Decides after `p4 sync <binary>`: when `p4` could not start, restore
/// and report `p4 sync 실행 실패: <error>`; when no binary came back at the
/// path, restore and report how many error lines there were and the
/// trimmed standard error; otherwise keep the new binary and go on with
/// the result.
pub fn after_binary_sync(out: &Result<CommandOutput, String>, binary_exists: bool) -> (r:
    SyncVerdict)
    ensures
        verdict_ok(*out, binary_exists, r.restore, r.outcome),
{
    match out {
        Err(e) => {
            let mut s = chars_of("p4 sync 실행 실패: ");
            let mut b = chars_of(e.as_str());
            s.append(&mut b);
            let m = string_of(s.as_slice());
            assert(m@ =~= "p4 sync 실행 실패: "@ + e@);
            SyncVerdict { restore: true, outcome: Err(m) }
        },
        Ok(o) => {
            let stdout = o.stdout_lossy_string();
            let stderr = o.stderr_string();
            let (updated, errors) = classify_sync(stdout.as_str(), stderr.as_str());
            if !binary_exists {
                let mut s = chars_of("p4 sync 후에도 binary 가 없음. errors=");
                assert(errors.deep_view().len() == errors.len());
                let mut n = format_u64(errors.len() as u64);
                s.append(&mut n);
                let mut a = chars_of(", stderr=");
                s.append(&mut a);
                let mut t = trim_exec(chars_of(stderr.as_str()).as_slice());
                s.append(&mut t);
                let m = string_of(s.as_slice());
                assert(m@ =~= "p4 sync 후에도 binary 가 없음. errors="@ + decimal_nat(
                    error_lines(lines(o.stderr_text())).len(),
                ) + ", stderr="@ + trim(o.stderr_text()));
                SyncVerdict { restore: true, outcome: Err(m) }
            } else {
                SyncVerdict {
                    restore: false,
                    outcome: Ok(
                        UpdateResult { sync_updated: updated, sync_errors: errors, raw_stderr: stderr },
                    ),
                }
            }
        },
    }
}

/// A self-update of the running binary from Perforce
/// (`p4_update_and_restart`), step by step:
///   1. only Windows can replace a running binary; elsewhere the answer is
///      an error before any file is touched;
///   2. a `<binary>.old` left by an earlier update is removed;
///   3. the running binary moves to `<binary>.old`;
///   4. `p4 sync <binary>` writes the new binary at the binary's path;
///   5. when `p4` could not start or no binary came back, `.old` moves back
///      and the answer is the error (`after_binary_sync`);
///   6. the new binary is started detached and the running process asked
///      to exit; the answer is what the sync did.
pub struct SelfUpdate {
    /// The path of the running binary.
    pub binary: String,
    /// The answer, once the sync has decided it, given after `.old` is
    /// moved back or the process is asked to exit.
    pub answer: Option<Result<UpdateResult, String>>,
}

/// What the update has learned last.
pub enum UpdateEvent {
    /// The platform, and whether `<binary>.old` is there.
    Start { is_windows: bool, old_exists: bool },
    /// `<binary>.old` was removed (or could not be; that is not checked).
    OldRemoved,
    /// The move of the binary to `<binary>.old`, or its error text.
    Renamed(Result<(), String>),
    /// The outcome of the sync, and whether a binary is at the path after
    /// it.
    Synced(Result<CommandOutput, String>, bool),
    /// `.old` was moved back (or could not be; that is not checked).
    Restored,
    /// The start of the new binary, or its error text.
    Spawned(Result<(), String>),
    /// The process was asked to exit with code 0.
    Exited,
}

/// What the update does next, each reported as the event of the same
/// step, or the answer.
pub enum UpdateAction {
    RemoveOld,
    RenameToOld,
    /// Run `p4` with the override options and these arguments.
    RunSync(Vec<String>),
    RestoreOld,
    SpawnNew,
    Exit,
    Done(Result<UpdateResult, String>),
}

/// One step of `SelfUpdate` (see its documentation).
pub open spec fn update_step_ok(
    old: SelfUpdate,
    new: SelfUpdate,
    ev: UpdateEvent,
    r: UpdateAction,
) -> bool {
    &&& new.binary@ == old.binary@
    &&& match ev {
        UpdateEvent::Start { is_windows, old_exists } => if !is_windows {
            r matches UpdateAction::Done(Err(m)) && m@ == unsupported_message()
        } else if old_exists {
            r is RemoveOld
        } else {
            r is RenameToOld
        },
        UpdateEvent::OldRemoved => r is RenameToOld,
        UpdateEvent::Renamed(res) => match res {
            Err(e) => r matches UpdateAction::Done(Err(m)) && m@
                == "binary rename 실패 (running .exe → .old): "@ + e@,
            Ok(_) => r matches UpdateAction::RunSync(a) && a.deep_view() == seq![
                "sync"@,
                old.binary@,
            ],
        },
        UpdateEvent::Synced(out, binary_exists) => {
            &&& r is RestoreOld || r is SpawnNew
            &&& new.answer matches Some(a) && verdict_ok(out, binary_exists, r is RestoreOld, a)
        },
        UpdateEvent::Restored => r == UpdateAction::Done(old.answer->0),
        UpdateEvent::Spawned(res) => match res {
            Err(e) => r matches UpdateAction::Done(Err(m)) && m@
                == "새 binary spawn 실패 (수동 재실행 필요): "@ + e@,
            Ok(_) => r is Exit && new.answer == old.answer,
        },
        UpdateEvent::Exited => r == UpdateAction::Done(old.answer->0),
    }
}

impl SelfUpdate {
    /// An update of the binary at `binary`.
    pub fn new(binary: &str) -> (r: Self)
        ensures
            r.binary@ == binary@,
            r.answer is None,
    {
        SelfUpdate { binary: binary.to_owned(), answer: None }
    }

    /// One step: what to do after `ev`. The answer is given only after the
    /// sync has decided it.
    pub fn step(&mut self, ev: UpdateEvent) -> (r: UpdateAction)
        requires
            ev is Restored || ev is Exited ==> old(self).answer is Some,
        ensures
            update_step_ok(*old(self), *final(self), ev, r),
    {
        match ev {
            UpdateEvent::Start { is_windows, old_exists } => match self_update_unsupported(is_windows) {
                Some(m) => UpdateAction::Done(Err(m)),
                None => if old_exists {
                    UpdateAction::RemoveOld
                } else {
                    UpdateAction::RenameToOld
                },
            },
            UpdateEvent::OldRemoved => UpdateAction::RenameToOld,
            UpdateEvent::Renamed(res) => match res {
                Err(e) => UpdateAction::Done(Err(rename_failure_message(e.as_str()))),
                Ok(_) => UpdateAction::RunSync(
                    crate::queries::word_operand_args("sync", self.binary.as_str()),
                ),
            },
            UpdateEvent::Synced(out, binary_exists) => {
                let v = after_binary_sync(&out, binary_exists);
                let restore = v.restore;
                self.answer = Some(v.outcome);
                if restore {
                    UpdateAction::RestoreOld
                } else {
                    UpdateAction::SpawnNew
                }
            },
            UpdateEvent::Restored => self.give_answer(),
            UpdateEvent::Spawned(res) => match res {
                Err(e) => UpdateAction::Done(Err(spawn_failure_message(e.as_str()))),
                Ok(_) => UpdateAction::Exit,
            },
            UpdateEvent::Exited => self.give_answer(),
        }
    }

    fn give_answer(&mut self) -> (r: UpdateAction)
        requires
            old(self).answer is Some,
        ensures
            r == UpdateAction::Done(old(self).answer->0),
            final(self).binary == old(self).binary,
    {
        let mut a: Option<Result<UpdateResult, String>> = None;
        std::mem::swap(&mut a, &mut self.answer);
        match a {
            Some(x) => UpdateAction::Done(x),
            None => UpdateAction::Done(Err(String::new())),
        }
    }
}

/// A sync that failed, or after which no binary is at the path, moves
/// `.old` back before anything else; a sync that left the new binary in
/// place goes on to start it.
pub proof fn lemma_failed_sync_restores(
    old: SelfUpdate,
    new: SelfUpdate,
    out: Result<CommandOutput, String>,
    binary_exists: bool,
    r: UpdateAction,
)
    requires
        update_step_ok(old, new, UpdateEvent::Synced(out, binary_exists), r),
    ensures
        r is RestoreOld <==> (new.answer matches Some(a) && a is Err),
        r is RestoreOld <==> (out is Err || !binary_exists),
{
}

/// Every updated line is non-blank, trimmed and reports a file written.
pub proof fn lemma_updated_lines(out: Seq<Seq<char>>)
    ensures
        forall|i: int|
            0 <= i < updated_lines(out).len() ==> #[trigger] updated_lines(out)[i].len() != 0
                && is_update_line(updated_lines(out)[i]),
    decreases out.len(),
{
    if out.len() > 0 {
        let before = updated_lines(out.drop_last());
        lemma_updated_lines(out.drop_last());
        assert forall|i: int| 0 <= i < updated_lines(out).len() implies #[trigger] updated_lines(
            out,
        )[i].len() != 0 && is_update_line(updated_lines(out)[i]) by {
            if i < before.len() {
                assert(updated_lines(out)[i] == before[i]);
            }
        }
    }
}

/// No error line is blank or the up-to-date notice.
pub proof fn lemma_error_lines(err: Seq<Seq<char>>)
    ensures
        forall|i: int|
            0 <= i < error_lines(err).len() ==> #[trigger] error_lines(err)[i].len() != 0
                && !contains(error_lines(err)[i], "file(s) up-to-date"@),
    decreases err.len(),
{
    if err.len() > 0 {
        let before = error_lines(err.drop_last());
        lemma_error_lines(err.drop_last());
        assert forall|i: int| 0 <= i < error_lines(err).len() implies #[trigger] error_lines(
            err,
        )[i].len() != 0 && !contains(error_lines(err)[i], "file(s) up-to-date"@) by {
            if i < before.len() {
                assert(error_lines(err)[i] == before[i]);
            }
        }
    }
}

} // verus!
