//! `p4 fstat` output: its records, the files that are behind the depot,
//! and the changelists that would bring them up to date.
use vstd::prelude::*;
use crate::number::{decimal, format_i64, parse_i64, parse_i64_exec};
use crate::text::{
    chars_of, lines, lines_exec, string_of, strip_prefix, strip_prefix_exec, trim, trim_exec,
};

verus! {

/// The fields of one `p4 fstat` record that the library reads.
pub struct FstatFields {
    pub depot_file: Option<Seq<char>>,
    pub have_rev: Option<i64>,
    pub head_rev: Option<i64>,
    pub head_change: Option<i64>,
}

/// One record of `p4 fstat -T ...` output (the `... name value` lines
/// between two blank lines). A field is `None` when its line is missing or
/// its number does not parse.
pub struct FstatRecord {
    pub depot_file: Option<String>,
    pub have_rev: Option<i64>,
    pub head_rev: Option<i64>,
    pub head_change: Option<i64>,
}

impl View for FstatRecord {
    type V = FstatFields;

    open spec fn view(&self) -> FstatFields {
        FstatFields {
            depot_file: self.depot_file.deep_view(),
            have_rev: self.have_rev,
            head_rev: self.head_rev,
            head_change: self.head_change,
        }
    }
}

impl DeepView for FstatRecord {
    type V = FstatFields;

    open spec fn deep_view(&self) -> FstatFields {
        self@
    }
}

/// A record with no field seen yet.
pub open spec fn empty_fields() -> FstatFields {
    FstatFields { depot_file: None, have_rev: None, head_rev: None, head_change: None }
}

/// The record being read and the records finished so far.
pub struct FstatScan {
    pub cur: FstatFields,
    pub done: Seq<FstatFields>,
}

/// Ends the current record.
pub open spec fn flush(st: FstatScan) -> FstatScan {
    FstatScan { cur: empty_fields(), done: st.done.push(st.cur) }
}

/// Reads one line: a blank line ends the record, a `... field value` line
/// sets that field, any other line changes nothing.
pub open spec fn fstat_step(st: FstatScan, line: Seq<char>) -> FstatScan {
    let t = trim(line);
    let c = st.cur;
    if t.len() == 0 {
        flush(st)
    } else if let Some(v) = strip_prefix(t, "... depotFile "@) {
        FstatScan { cur: FstatFields { depot_file: Some(v), ..c }, done: st.done }
    } else if let Some(v) = strip_prefix(t, "... haveRev "@) {
        FstatScan { cur: FstatFields { have_rev: parse_i64(v), ..c }, done: st.done }
    } else if let Some(v) = strip_prefix(t, "... headRev "@) {
        FstatScan { cur: FstatFields { head_rev: parse_i64(v), ..c }, done: st.done }
    } else if let Some(v) = strip_prefix(t, "... headChange "@) {
        FstatScan { cur: FstatFields { head_change: parse_i64(v), ..c }, done: st.done }
    } else {
        st
    }
}

/// The scan after reading `ls` in order.
pub open spec fn fstat_scan(ls: Seq<Seq<char>>) -> FstatScan
    decreases ls.len(),
{
    if ls.len() == 0 {
        FstatScan { cur: empty_fields(), done: Seq::empty() }
    } else {
        fstat_step(fstat_scan(ls.drop_last()), ls.last())
    }
}

/// The records of `p4 fstat` output: one per blank line and one at the end
/// (records with no field are kept; the readers below skip them).
pub open spec fn fstat_records(text: Seq<char>) -> Seq<FstatFields> {
    flush(fstat_scan(lines(text))).done
}

/// A record of a file that was synced and has a newer head revision.
pub open spec fn is_stale(r: FstatFields) -> bool {
    r.have_rev is Some && r.head_rev is Some && r.have_rev->0 < r.head_rev->0
}

/// `<depotFile> (local #<haveRev> < depot #<headRev>)`.
pub open spec fn stale_line(d: Seq<char>, have: i64, head: i64) -> Seq<char> {
    d + " (local #"@ + decimal(have as int) + " < depot #"@ + decimal(head as int) + ")"@
}

/// The stale files among the records, each as `stale_line`; a record
/// without a depot path, a have revision or a head revision is skipped.
pub open spec fn stale_lines(rs: Seq<FstatFields>) -> Seq<Seq<char>>
    decreases rs.len(),
{
    if rs.len() == 0 {
        Seq::empty()
    } else {
        let r = rs.last();
        let before = stale_lines(rs.drop_last());
        if r.depot_file is Some && is_stale(r) {
            before.push(stale_line(r.depot_file->0, r.have_rev->0, r.head_rev->0))
        } else {
            before
        }
    }
}

/// The head changelists of the stale files among the records; a record
/// without a have revision, a head revision or a head change is skipped.
pub open spec fn stale_changes(rs: Seq<FstatFields>) -> Set<i64>
    decreases rs.len(),
{
    if rs.len() == 0 {
        Set::empty()
    } else {
        let r = rs.last();
        let before = stale_changes(rs.drop_last());
        if r.head_change is Some && is_stale(r) {
            before.insert(r.head_change->0)
        } else {
            before
        }
    }
}

/// The characters of an optional character vector.
pub open spec fn opt_chars(o: Option<Vec<char>>) -> Option<Seq<char>> {
    match o {
        Some(v) => Some(v@),
        None => None,
    }
}

fn fields_exec(
    depot: &Option<Vec<char>>,
    have: Option<i64>,
    head: Option<i64>,
    change: Option<i64>,
) -> (r: FstatRecord)
    ensures
        r@ == (FstatFields {
            depot_file: opt_chars(*depot),
            have_rev: have,
            head_rev: head,
            head_change: change,
        }),
{
    let d = match depot {
        Some(v) => Some(string_of(v.as_slice())),
        None => None,
    };
    FstatRecord { depot_file: d, have_rev: have, head_rev: head, head_change: change }
}

fn push_record(out: &mut Vec<FstatRecord>, r: FstatRecord)
    ensures
        final(out).deep_view() == old(out).deep_view().push(r@),
{
    let ghost before = out@;
    let ghost rv = r;
    out.push(r);
    assert(out.deep_view() =~= old(out).deep_view().push(rv@)) by {
        assert(out@ == before.push(rv));
        assert forall|i: int| 0 <= i < out.deep_view().len() implies #[trigger] out.deep_view()[i]
            == old(out).deep_view().push(rv@)[i] by {
            if i < before.len() {
                assert(out@[i] == before[i]);
            }
        }
    }
}

/// The records of `p4 fstat` output (see `fstat_records`).
pub fn parse_fstat_records(text: &str) -> (r: Vec<FstatRecord>)
    ensures
        r.deep_view() == fstat_records(text@),
{
    let ls = lines_exec(chars_of(text).as_slice());
    let p_depot = chars_of("... depotFile ");
    let p_have = chars_of("... haveRev ");
    let p_head = chars_of("... headRev ");
    let p_change = chars_of("... headChange ");
    let mut out: Vec<FstatRecord> = Vec::new();
    let mut depot: Option<Vec<char>> = None;
    let mut have: Option<i64> = None;
    let mut head: Option<i64> = None;
    let mut change: Option<i64> = None;
    let mut i: usize = 0;
    assert(ls.deep_view().take(0) =~= Seq::<Seq<char>>::empty());
    assert(out.deep_view() =~= Seq::<FstatFields>::empty());
    while i < ls.len()
        invariant
            i <= ls.len(),
            ls.deep_view() == lines(text@),
            p_depot@ == "... depotFile "@,
            p_have@ == "... haveRev "@,
            p_head@ == "... headRev "@,
            p_change@ == "... headChange "@,
            fstat_scan(ls.deep_view().take(i as int)) == (FstatScan {
                cur: FstatFields {
                    depot_file: opt_chars(depot),
                    have_rev: have,
                    head_rev: head,
                    head_change: change,
                },
                done: out.deep_view(),
            }),
        decreases ls.len() - i,
    {
        let ghost prefix = ls.deep_view().take(i + 1);
        assert(prefix.drop_last() =~= ls.deep_view().take(i as int));
        assert(prefix.last() == ls[i as int]@);
        let t = trim_exec(ls[i].as_slice());
        if t.len() == 0 {
            let r = fields_exec(&depot, have, head, change);
            push_record(&mut out, r);
            depot = None;
            have = None;
            head = None;
            change = None;
        } else if let Some(v) = strip_prefix_exec(t.as_slice(), p_depot.as_slice()) {
            depot = Some(v);
        } else if let Some(v) = strip_prefix_exec(t.as_slice(), p_have.as_slice()) {
            have = parse_i64_exec(v.as_slice());
        } else if let Some(v) = strip_prefix_exec(t.as_slice(), p_head.as_slice()) {
            head = parse_i64_exec(v.as_slice());
        } else if let Some(v) = strip_prefix_exec(t.as_slice(), p_change.as_slice()) {
            change = parse_i64_exec(v.as_slice());
        }
        i += 1;
    }
    assert(ls.deep_view().take(ls.len() as int) =~= ls.deep_view());
    let r = fields_exec(&depot, have, head, change);
    push_record(&mut out, r);
    out
}

/// `stale_line` for one record.
fn stale_line_exec(d: &String, have: i64, head: i64) -> (r: String)
    ensures
        r@ == stale_line(d@, have, head),
{
    let mut s = chars_of(d.as_str());
    let mut a = chars_of(" (local #");
    s.append(&mut a);
    let mut b = format_i64(have);
    s.append(&mut b);
    let mut c = chars_of(" < depot #");
    s.append(&mut c);
    let mut e = format_i64(head);
    s.append(&mut e);
    let mut f = chars_of(")");
    s.append(&mut f);
    let r = string_of(s.as_slice());
    assert(r@ =~= stale_line(d@, have, head));
    r
}

/// The files that `p4 fstat -T depotFile,haveRev,headRev` reports behind
/// the depot, as `<depotFile> (local #<have> < depot #<head>)`, in the
/// order of the output.
pub fn stale_revisions(fstat_text: &str) -> (r: Vec<String>)
    ensures
        r.deep_view() == stale_lines(fstat_records(fstat_text@)),
{
    let recs = parse_fstat_records(fstat_text);
    let mut out: Vec<String> = Vec::new();
    let mut i: usize = 0;
    assert(recs.deep_view().take(0) =~= Seq::<FstatFields>::empty());
    assert(out.deep_view() =~= Seq::<Seq<char>>::empty());
    while i < recs.len()
        invariant
            i <= recs.len(),
            recs.deep_view() == fstat_records(fstat_text@),
            out.deep_view() == stale_lines(recs.deep_view().take(i as int)),
        decreases recs.len() - i,
    {
        let ghost pre = recs.deep_view().take(i + 1);
        assert(pre.drop_last() =~= recs.deep_view().take(i as int));
        assert(pre.last() == recs[i as int]@);
        let r = &recs[i];
        match (&r.depot_file, r.have_rev, r.head_rev) {
            (Some(d), Some(h), Some(hd)) => {
                if h < hd {
                    let line = stale_line_exec(d, h, hd);
                    let ghost before = out.deep_view();
                    out.push(line);
                    assert(out.deep_view() =~= before.push(line@));
                }
            },
            _ => {},
        }
        i += 1;
    }
    assert(recs.deep_view().take(recs.len() as int) =~= recs.deep_view());
    out
}

/// The head changelists of the files that `p4 fstat -T
/// depotFile,haveRev,headRev,headChange` reports behind the depot, each
/// once. Files never synced (no have revision) are left out.
pub fn stale_head_changes(fstat_text: &str) -> (r: Vec<i64>)
    ensures
        r@.to_set() == stale_changes(fstat_records(fstat_text@)),
        r@.no_duplicates(),
{
    let recs = parse_fstat_records(fstat_text);
    let mut out: Vec<i64> = Vec::new();
    let mut i: usize = 0;
    assert(recs.deep_view().take(0) =~= Seq::<FstatFields>::empty());
    assert(out@.to_set() =~= Set::<i64>::empty());
    while i < recs.len()
        invariant
            i <= recs.len(),
            recs.deep_view() == fstat_records(fstat_text@),
            out@.to_set() == stale_changes(recs.deep_view().take(i as int)),
            out@.no_duplicates(),
        decreases recs.len() - i,
    {
        let ghost pre = recs.deep_view().take(i + 1);
        assert(pre.drop_last() =~= recs.deep_view().take(i as int));
        assert(pre.last() == recs[i as int]@);
        let r = &recs[i];
        match (r.have_rev, r.head_rev, r.head_change) {
            (Some(h), Some(hd), Some(c)) => {
                if h < hd {
                    let mut seen = false;
                    let mut k: usize = 0;
                    while k < out.len()
                        invariant
                            k <= out.len(),
                            seen == (exists|j: int| 0 <= j < k && out@[j] == c),
                        decreases out.len() - k,
                    {
                        if out[k] == c {
                            seen = true;
                        }
                        k += 1;
                    }
                    let ghost before = out@;
                    if !seen {
                        out.push(c);
                        assert(out@.to_set() =~= before.to_set().insert(c)) by {
                            assert forall|x: i64| out@.to_set().contains(x) <==> before.to_set().insert(c).contains(x) by {
                                if out@.contains(x) && x != c {
                                    let j = choose|j: int| 0 <= j < out@.len() && out@[j] == x;
                                    assert(before[j] == x);
                                }
                                if before.contains(x) {
                                    let j = choose|j: int| 0 <= j < before.len() && before[j] == x;
                                    assert(out@[j] == x);
                                }
                                if x == c {
                                    assert(out@[before.len() as int] == c);
                                }
                            }
                        }
                    } else {
                        assert(before.to_set().insert(c) =~= before.to_set());
                    }
                }
            },
            _ => {},
        }
        i += 1;
    }
    assert(recs.deep_view().take(recs.len() as int) =~= recs.deep_view());
    out
}

/// Every reported stale file is a record whose have revision is below its
/// head revision, written as `stale_line` of that record.
pub proof fn lemma_stale_lines_are_stale_records(rs: Seq<FstatFields>)
    ensures
        stale_lines(rs).len() <= rs.len(),
        forall|i: int|
            0 <= i < stale_lines(rs).len() ==> exists|j: int|
                0 <= j < rs.len() && #[trigger] rs[j].depot_file is Some && is_stale(rs[j])
                    && #[trigger] stale_lines(rs)[i] == stale_line(
                    rs[j].depot_file->0,
                    rs[j].have_rev->0,
                    rs[j].head_rev->0,
                ),
    decreases rs.len(),
{
    if rs.len() > 0 {
        let before = rs.drop_last();
        lemma_stale_lines_are_stale_records(before);
        assert forall|i: int| 0 <= i < stale_lines(rs).len() implies exists|j: int|
            0 <= j < rs.len() && #[trigger] rs[j].depot_file is Some && is_stale(rs[j])
                && #[trigger] stale_lines(rs)[i] == stale_line(
                rs[j].depot_file->0,
                rs[j].have_rev->0,
                rs[j].head_rev->0,
            ) by {
            if i < stale_lines(before).len() {
                let j = choose|j: int|
                    0 <= j < before.len() && #[trigger] before[j].depot_file is Some && is_stale(
                        before[j],
                    ) && stale_lines(before)[i] == stale_line(
                        before[j].depot_file->0,
                        before[j].have_rev->0,
                        before[j].head_rev->0,
                    );
                assert(rs[j] == before[j]);
            } else {
                assert(rs[rs.len() - 1] == rs.last());
            }
        }
    }
}

/// Only files that were synced and are behind contribute a changelist:
/// every collected head change is that of a record with a have revision
/// below its head revision.
pub proof fn lemma_stale_changes_from_stale_records(rs: Seq<FstatFields>, c: i64)
    requires
        stale_changes(rs).contains(c),
    ensures
        exists|j: int|
            0 <= j < rs.len() && #[trigger] rs[j].head_change == Some(c) && is_stale(rs[j]),
    decreases rs.len(),
{
    let before = rs.drop_last();
    if stale_changes(before).contains(c) {
        lemma_stale_changes_from_stale_records(before, c);
        let j = choose|j: int|
            0 <= j < before.len() && #[trigger] before[j].head_change == Some(c) && is_stale(
                before[j],
            );
        assert(rs[j] == before[j]);
    } else {
        assert(rs[rs.len() - 1] == rs.last());
    }
}

/// A line that ends a record: blank once trimmed.
pub open spec fn is_blank_line(l: Seq<char>) -> bool {
    trim(l).len() == 0
}

/// The number of blank lines in `ls`. Line `j` belongs to record
/// `blank_count(ls.take(j))`: records are the runs of lines between blank
/// lines, counted from 0.
pub open spec fn blank_count(ls: Seq<Seq<char>>) -> nat
    decreases ls.len(),
{
    if ls.len() == 0 {
        0
    } else {
        blank_count(ls.drop_last()) + if is_blank_line(ls.last()) {
            1nat
        } else {
            0nat
        }
    }
}

/// Line `j` of `ls` belongs to record `k` and reads `<prefix><v>` once
/// trimmed.
pub open spec fn field_line_at(
    ls: Seq<Seq<char>>,
    k: int,
    j: int,
    prefix: Seq<char>,
    v: Seq<char>,
) -> bool {
    &&& 0 <= j < ls.len()
    &&& blank_count(ls.take(j)) == k
    &&& strip_prefix(trim(ls[j]), prefix) == Some(v)
}

/// Record `k` of `ls` has a `<prefix><v>` line.
pub open spec fn text_in_record(ls: Seq<Seq<char>>, k: int, prefix: Seq<char>, v: Seq<char>) -> bool {
    exists|j: int| #[trigger] field_line_at(ls, k, j, prefix, v)
}

/// Record `k` of `ls` has a `<prefix><number>` line whose number is `n`.
pub open spec fn number_in_record(ls: Seq<Seq<char>>, k: int, prefix: Seq<char>, n: i64) -> bool {
    exists|j: int, v: Seq<char>| #[trigger] field_line_at(ls, k, j, prefix, v) && parse_i64(v) == Some(
        n,
    )
}

/// Every field that `f` holds comes from a line of record `k` of `ls`.
pub open spec fn fields_from_record(ls: Seq<Seq<char>>, f: FstatFields, k: int) -> bool {
    &&& (f.depot_file matches Some(v) ==> text_in_record(ls, k, "... depotFile "@, v))
    &&& (f.have_rev matches Some(n) ==> number_in_record(ls, k, "... haveRev "@, n))
    &&& (f.head_rev matches Some(n) ==> number_in_record(ls, k, "... headRev "@, n))
    &&& (f.head_change matches Some(n) ==> number_in_record(ls, k, "... headChange "@, n))
}

proof fn lemma_field_line_extend(
    ls: Seq<Seq<char>>,
    l: Seq<char>,
    k: int,
    j: int,
    prefix: Seq<char>,
    v: Seq<char>,
)
    requires
        field_line_at(ls, k, j, prefix, v),
    ensures
        field_line_at(ls.push(l), k, j, prefix, v),
{
    assert(ls.push(l).take(j) =~= ls.take(j));
    assert(ls.push(l)[j] == ls[j]);
}

proof fn lemma_number_extend(ls: Seq<Seq<char>>, l: Seq<char>, k: int, prefix: Seq<char>, n: i64)
    requires
        number_in_record(ls, k, prefix, n),
    ensures
        number_in_record(ls.push(l), k, prefix, n),
{
    let (j, v) = choose|j: int, v: Seq<char>|
        #[trigger] field_line_at(ls, k, j, prefix, v) && parse_i64(v) == Some(n);
    lemma_field_line_extend(ls, l, k, j, prefix, v);
}

proof fn lemma_fields_extend(ls: Seq<Seq<char>>, l: Seq<char>, f: FstatFields, k: int)
    requires
        fields_from_record(ls, f, k),
    ensures
        fields_from_record(ls.push(l), f, k),
{
    if let Some(v) = f.depot_file {
        let j = choose|j: int| #[trigger] field_line_at(ls, k, j, "... depotFile "@, v);
        lemma_field_line_extend(ls, l, k, j, "... depotFile "@, v);
    }
    if let Some(n) = f.have_rev {
        lemma_number_extend(ls, l, k, "... haveRev "@, n);
    }
    if let Some(n) = f.head_rev {
        lemma_number_extend(ls, l, k, "... headRev "@, n);
    }
    if let Some(n) = f.head_change {
        lemma_number_extend(ls, l, k, "... headChange "@, n);
    }
}

proof fn lemma_scan_from_own_lines(ls: Seq<Seq<char>>)
    ensures
        fstat_scan(ls).done.len() == blank_count(ls),
        forall|k: int|
            0 <= k < fstat_scan(ls).done.len() ==> fields_from_record(
                ls,
                #[trigger] fstat_scan(ls).done[k],
                k,
            ),
        fields_from_record(ls, fstat_scan(ls).cur, blank_count(ls) as int),
    decreases ls.len(),
{
    if ls.len() > 0 {
        let pre = ls.drop_last();
        let l = ls.last();
        lemma_scan_from_own_lines(pre);
        assert(pre.push(l) =~= ls);
        let st = fstat_scan(pre);
        let bc = blank_count(pre) as int;
        assert forall|k: int| 0 <= k < st.done.len() implies fields_from_record(
            ls,
            #[trigger] st.done[k],
            k,
        ) by {
            lemma_fields_extend(pre, l, st.done[k], k);
        }
        lemma_fields_extend(pre, l, st.cur, bc);
        let j = pre.len() as int;
        assert(ls.take(j) =~= pre);
        assert(ls[j] == l);
        let t = trim(l);
        let c = st.cur;
        if t.len() == 0 {
            assert(fstat_scan(ls).done == st.done.push(c));
        } else if let Some(v) = strip_prefix(t, "... depotFile "@) {
            assert(field_line_at(ls, bc, j, "... depotFile "@, v));
        } else if let Some(v) = strip_prefix(t, "... haveRev "@) {
            assert(field_line_at(ls, bc, j, "... haveRev "@, v));
        } else if let Some(v) = strip_prefix(t, "... headRev "@) {
            assert(field_line_at(ls, bc, j, "... headRev "@, v));
        } else if let Some(v) = strip_prefix(t, "... headChange "@) {
            assert(field_line_at(ls, bc, j, "... headChange "@, v));
        }
    }
}

/// Each record holds only the fields of its own lines: the output has one
/// record more than it has blank lines, and every field of record `k`
/// (depot path, have revision, head revision, head change) is read from a
/// line of the `k`-th run of lines between blank lines. Nothing carries
/// over from one record to the next.
pub proof fn lemma_fstat_records_from_own_lines(text: Seq<char>)
    ensures
        fstat_records(text).len() == blank_count(lines(text)) + 1,
        forall|k: int|
            0 <= k < fstat_records(text).len() ==> fields_from_record(
                lines(text),
                #[trigger] fstat_records(text)[k],
                k,
            ),
{
    let ls = lines(text);
    lemma_scan_from_own_lines(ls);
    let st = fstat_scan(ls);
    assert forall|k: int| 0 <= k < fstat_records(text).len() implies fields_from_record(
        ls,
        #[trigger] fstat_records(text)[k],
        k,
    ) by {
        if k < st.done.len() {
            assert(fstat_records(text)[k] == st.done[k]);
        } else {
            assert(fstat_records(text)[k] == st.cur);
        }
    }
}

/// A file whose record has no `... haveRev` line (never synced) has no
/// have revision, so it is never reported stale and never brings its head
/// change into the pending changelists.
pub proof fn lemma_record_without_have_line_not_stale(text: Seq<char>, k: int)
    requires
        0 <= k < fstat_records(text).len(),
        forall|j: int, v: Seq<char>| !field_line_at(lines(text), k, j, "... haveRev "@, v),
    ensures
        fstat_records(text)[k].have_rev is None,
        !is_stale(fstat_records(text)[k]),
{
    lemma_fstat_records_from_own_lines(text);
    assert(fields_from_record(lines(text), fstat_records(text)[k], k));
}

} // verus!
