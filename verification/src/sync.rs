//! `p4 sync` of a list of paths, handing back the raw output; sorting its
//! lines into updated, current and failed is the caller's business.
use vstd::prelude::*;
use crate::command::CommandOutput;
use crate::text::{chars_of, push_string, string_of};

verus! {

/// The raw standard output and standard error of a `p4 sync`.
pub struct P4SyncRawOutput {
    pub stdout: String,
    pub stderr: String,
}

/// What `p4_sync` asks for.
pub enum SyncStep {
    /// Nothing to run: the answer.
    Done(P4SyncRawOutput),
    /// Run `p4` (with the override options) with these arguments and hand
    /// the outcome to `p4_sync_output`.
    Run(Vec<String>),
}

/// `p4 sync <path>...` of depot or local paths (p4 interprets them). An
/// empty list answers at once with empty output and runs nothing.
pub fn p4_sync(paths: &Vec<String>) -> (r: SyncStep)
    ensures
        paths.len() == 0 ==> (r matches SyncStep::Done(o) && o.stdout@.len() == 0
            && o.stderr@.len() == 0),
        paths.len() > 0 ==> (r matches SyncStep::Run(a) && a.deep_view() == seq!["sync"@]
            + paths.deep_view()),
{
    if paths.len() == 0 {
        return SyncStep::Done(P4SyncRawOutput { stdout: String::new(), stderr: String::new() });
    }
    let mut a: Vec<String> = Vec::new();
    assert(a.deep_view() =~= Seq::<Seq<char>>::empty());
    push_string(&mut a, "sync".to_owned());
    let mut i: usize = 0;
    while i < paths.len()
        invariant
            i <= paths.len(),
            a.deep_view() == seq!["sync"@] + paths.deep_view().take(i as int),
        decreases paths.len() - i,
    {
        let p = paths[i].clone();
        push_string(&mut a, p);
        assert(a.deep_view() =~= seq!["sync"@] + paths.deep_view().take(i + 1));
        i += 1;
    }
    assert(paths.deep_view().take(paths.len() as int) =~= paths.deep_view());
    SyncStep::Run(a)
}

/// The answer of `p4 sync` from the outcome of the run: both streams,
/// decoded lossily, whatever the exit status; when `p4` could not start,
/// the error `p4 sync 실행 실패: <error>`.
pub fn p4_sync_output(out: &Result<CommandOutput, String>) -> (r: Result<P4SyncRawOutput, String>)
    ensures
        out matches Err(e) ==> (r matches Err(m) && m@ == "p4 sync 실행 실패: "@ + e@),
        out matches Ok(o) ==> (r matches Ok(s) && s.stdout@ == o.stdout_lossy() && s.stderr@
            == o.stderr_text()),
{
    match out {
        Err(e) => {
            let mut s = chars_of("p4 sync 실행 실패: ");
            let mut b = chars_of(e.as_str());
            s.append(&mut b);
            let m = string_of(s.as_slice());
            assert(m@ =~= "p4 sync 실행 실패: "@ + e@);
            Err(m)
        },
        Ok(o) => Ok(P4SyncRawOutput { stdout: o.stdout_lossy_string(), stderr: o.stderr_string() }),
    }
}

} // verus!
