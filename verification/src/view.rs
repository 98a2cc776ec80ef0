use vstd::prelude::*;

use crate::display::{basename, basename_chars, shorten_path, shortened_of};
use crate::tasks::{status_chars, status_display, JobSet, Task};
use crate::text::{
    chars_vec, contains_seq, contains_sub, dec_digits, fold_lower, lemma_lex_le_antisymmetric,
    lemma_lex_le_reflexive, lemma_lex_le_total, lemma_lex_le_transitive, lex_le, lex_le_vec,
    lower_of, string_of, u64_to_dec,
};
use vstd::string::StrSliceExecFns;

verus! {

/// The column the table is ordered by.
#[derive(Debug, Clone, Copy, PartialEq, Eq, Structural)]
pub enum SortField {
    Id,
    Status,
    Command,
    Path,
}

impl Default for SortField {
    /// The table starts out ordered by id.
    fn default() -> (r: SortField)
        ensures
            r == SortField::Id,
    {
        SortField::Id
    }
}

/// Order on one string column, ties broken by id.
pub open spec fn keyed_le(x: Seq<char>, y: Seq<char>, xid: u64, yid: u64) -> bool {
    if x == y {
        xid <= yid
    } else {
        lex_le(x, y)
    }
}

/// The string key a task is compared by under `f`; unused for `Id`.
pub open spec fn sort_key(f: SortField, t: Task) -> Seq<char> {
    match f {
        SortField::Id => Seq::empty(),
        SortField::Status => status_chars(t.status),
        SortField::Command => t.command@,
        SortField::Path => t.path@,
    }
}

/// Total order on tasks under sort field `f`: by the field, ties by id.
pub open spec fn task_le(f: SortField, a: Task, b: Task) -> bool {
    keyed_le(sort_key(f, a), sort_key(f, b), a.id, b.id)
}

pub proof fn lemma_task_le_total(f: SortField, a: Task, b: Task)
    ensures
        task_le(f, a, b) || task_le(f, b, a),
{
    lemma_lex_le_total(sort_key(f, a), sort_key(f, b));
}

pub proof fn lemma_task_le_antisymmetric(f: SortField, a: Task, b: Task)
    requires
        task_le(f, a, b),
        task_le(f, b, a),
    ensures
        a.id == b.id,
{
    if sort_key(f, a) != sort_key(f, b) {
        lemma_lex_le_antisymmetric(sort_key(f, a), sort_key(f, b));
    }
}

pub proof fn lemma_task_le_transitive(f: SortField, a: Task, b: Task, c: Task)
    requires
        task_le(f, a, b),
        task_le(f, b, c),
    ensures
        task_le(f, a, c),
{
    let x = sort_key(f, a);
    let y = sort_key(f, b);
    let z = sort_key(f, c);
    if x == y && y == z {
    } else if x == y {
        // x != z, lex_le(y, z)
    } else if y == z {
    } else {
        lemma_lex_le_transitive(x, y, z);
        if x == z {
            lemma_lex_le_antisymmetric(x, y);
        }
    }
}

/// Decides `keyed_le` on character vectors.
fn keyed_le_vec(x: &Vec<char>, y: &Vec<char>, xid: u64, yid: u64) -> (r: bool)
    ensures
        r == keyed_le(x@, y@, xid, yid),
{
    let le1 = lex_le_vec(x, y);
    let le2 = lex_le_vec(y, x);
    proof {
        if le1 && le2 {
            lemma_lex_le_antisymmetric(x@, y@);
        }
        if x@ == y@ {
            lemma_lex_le_reflexive(x@);
        }
    }
    if le1 && le2 {
        xid <= yid
    } else {
        le1
    }
}

/// Decides `task_le`.
fn task_le_exec(f: SortField, a: &Task, b: &Task) -> (r: bool)
    ensures
        r == task_le(f, *a, *b),
{
    match f {
        SortField::Id => a.id <= b.id,
        SortField::Status => {
            let x = chars_vec(status_display(&a.status).as_str());
            let y = chars_vec(status_display(&b.status).as_str());
            keyed_le_vec(&x, &y, a.id, b.id)
        },
        SortField::Command => {
            let x = chars_vec(a.command.as_str());
            let y = chars_vec(b.command.as_str());
            keyed_le_vec(&x, &y, a.id, b.id)
        },
        SortField::Path => {
            let x = chars_vec(a.path.as_str());
            let y = chars_vec(b.path.as_str());
            keyed_le_vec(&x, &y, a.id, b.id)
        },
    }
}

/// Whether a task stays visible under `filter`: case-insensitive substring
/// match against its displayed id, status, command basename, shortened path.
pub open spec fn task_matches(t: Task, filter: Seq<char>) -> bool {
    ||| filter.len() == 0
    ||| contains_sub(lower_of(dec_digits(t.id as nat)), lower_of(filter))
    ||| contains_sub(lower_of(status_chars(t.status)), lower_of(filter))
    ||| contains_sub(lower_of(basename_chars(t.command@)), lower_of(filter))
    ||| contains_sub(lower_of(shortened_of(t.path@)), lower_of(filter))
}

/// Decides `task_matches`.
pub fn task_matches_exec(t: &Task, filter: &str) -> (r: bool)
    ensures
        r == task_matches(*t, filter@),
{
    if filter.unicode_len() == 0 {
        return true;
    }
    let f = chars_vec(fold_lower(filter).as_str());
    let id_str = string_of(&u64_to_dec(t.id));
    if contains_seq(&chars_vec(fold_lower(id_str.as_str()).as_str()), &f) {
        return true;
    }
    let status_str = status_display(&t.status);
    if contains_seq(&chars_vec(fold_lower(status_str.as_str()).as_str()), &f) {
        return true;
    }
    let cmd = basename(t.command.as_str());
    if contains_seq(&chars_vec(fold_lower(cmd.as_str()).as_str()), &f) {
        return true;
    }
    let p = shorten_path(t.path.as_str());
    contains_seq(&chars_vec(fold_lower(p.as_str()).as_str()), &f)
}

/// Strict order between two ids of the view: both belong to `jobs`, differ,
/// and the first's task comes no later than the second's.
pub open spec fn id_lt(jobs: JobSet, f: SortField, x: u64, y: u64) -> bool {
    &&& jobs.has_id(x)
    &&& jobs.has_id(y)
    &&& x != y
    &&& task_le(f, jobs.spec_task_of(x)->Some_0, jobs.spec_task_of(y)->Some_0)
}

/// What the table shows: exactly the matching ids, in strictly ascending
/// order under the sort field (ties broken by id, so the order is unique).
pub open spec fn is_view_of(v: Seq<u64>, jobs: JobSet, filter: Seq<char>, f: SortField) -> bool {
    &&& forall|p: int, q: int| 0 <= p < q < v.len() ==> id_lt(jobs, f, v[p], v[q])
    &&& forall|id: u64|
        #[trigger] v.contains(id) <==> (jobs.has_id(id) && task_matches(
            jobs.spec_task_of(id)->Some_0,
            filter,
        ))
}

/// Builds the view: filters the job set, then orders it by `f`.
pub fn view_ids(jobs: &JobSet, filter: &str, f: SortField) -> (r: Vec<u64>)
    requires
        jobs.wf(),
    ensures
        is_view_of(r@, *jobs, filter@, f),
        r@.len() <= jobs.tasks@.len(),
{
    let n = jobs.tasks.len();
    let mut out: Vec<u64> = Vec::new();
    let mut ti: usize = 0;
    while ti < n
        invariant
            jobs.wf(),
            n == jobs.tasks@.len(),
            ti <= n,
            out@.len() <= ti,
            forall|p: int| 0 <= p < out@.len() ==> jobs.has_id(#[trigger] out@[p]),
            forall|p: int, q: int| 0 <= p < q < out@.len() ==> id_lt(*jobs, f, out@[p], out@[q]),
            forall|id: u64|
                #[trigger] out@.contains(id) <==> exists|j: int|
                    0 <= j < ti && (#[trigger] jobs.tasks@[j]).id == id && task_matches(
                        jobs.tasks@[j],
                        filter@,
                    ),
        decreases n - ti,
    {
        let t = &jobs.tasks[ti];
        if task_matches_exec(t, filter) {
            proof {
                // the new id is not yet present: ids are unique
                if out@.contains(t.id) {
                    let j = choose|j: int|
                        0 <= j < ti && (#[trigger] jobs.tasks@[j]).id == t.id && task_matches(
                            jobs.tasks@[j],
                            filter@,
                        );
                    assert(jobs.tasks@[j].id == jobs.tasks@[ti as int].id);
                    assert(false);
                }
            }
            // find the insertion position
            let mut k: usize = 0;
            let olen = out.len();
            loop
                invariant
                    jobs.wf(),
                    ti < n,
                    n == jobs.tasks@.len(),
                    t == &jobs.tasks@[ti as int],
                    olen == out@.len(),
                    k <= olen,
                    !out@.contains(t.id),
                    forall|p: int| 0 <= p < out@.len() ==> jobs.has_id(#[trigger] out@[p]),
                    forall|p: int, q: int|
                        0 <= p < q < out@.len() ==> id_lt(*jobs, f, out@[p], out@[q]),
                    forall|p: int|
                        0 <= p < k ==> task_le(
                            f,
                            jobs.spec_task_of(#[trigger] out@[p])->Some_0,
                            jobs.tasks@[ti as int],
                        ),
                ensures
                    k <= olen,
                    forall|p: int|
                        0 <= p < k ==> task_le(
                            f,
                            jobs.spec_task_of(#[trigger] out@[p])->Some_0,
                            jobs.tasks@[ti as int],
                        ),
                    k < olen ==> task_le(
                        f,
                        jobs.tasks@[ti as int],
                        jobs.spec_task_of(out@[k as int])->Some_0,
                    ),
                decreases olen - k,
            {
                if k == olen {
                    break;
                }
                let prev = jobs.task_of(out[k]);
                let prev_task = match prev {
                    Some(pt) => pt,
                    None => {
                        proof {
                            assert(out@.contains(out@[k as int]));
                        }
                        unreached()
                    },
                };
                if task_le_exec(f, prev_task, t) {
                    k = k + 1;
                } else {
                    proof {
                        lemma_task_le_total(f, *prev_task, jobs.tasks@[ti as int]);
                    }
                    break;
                }
            }
            let ghost old_out = out@;
            out.insert(k, t.id);
            proof {
                let ghost tid = jobs.tasks@[ti as int].id;
                assert forall|id: u64| #[trigger]
                    out@.contains(id) <==> (old_out.contains(id) || id == tid) by {
                    if out@.contains(id) {
                        let p = choose|p: int| 0 <= p < out@.len() && out@[p] == id;
                        if p < k {
                            assert(old_out[p] == id);
                            assert(old_out.contains(id));
                        } else if p == k {
                        } else {
                            assert(old_out[p - 1] == id);
                            assert(old_out.contains(id));
                        }
                    } else {
                    }
                    if old_out.contains(id) {
                        let p = choose|p: int| 0 <= p < old_out.len() && old_out[p] == id;
                        if p < k {
                            assert(out@[p] == id);
                        } else {
                            assert(out@[p + 1] == id);
                        }
                        assert(out@.contains(id));
                    }
                    if id == jobs.tasks@[ti as int].id {
                        assert(out@[k as int] == id);
                        assert(out@.contains(id));
                    }
                }
                let ghost tnew0 = jobs.tasks@[ti as int];
                assert(jobs.has_id(tnew0.id));
                assert forall|p: int| 0 <= p < out@.len() implies jobs.has_id(
                    #[trigger] out@[p],
                ) by {
                    if p < k {
                        assert(out@[p] == old_out[p]);
                    } else if p == k {
                        assert(out@[p] == tnew0.id);
                    } else {
                        assert(out@[p] == old_out[p - 1]);
                    }
                }
                // sortedness of the extended sequence
                assert forall|p: int, q: int| 0 <= p < q < out@.len() implies id_lt(
                    *jobs,
                    f,
                    out@[p],
                    out@[q],
                ) by {
                    let tnew = jobs.tasks@[ti as int];
                    assert(jobs.has_id(tnew.id));
                    assert(jobs.spec_task_of(tnew.id) == Some(tnew)) by {
                        let w = choose|w: int|
                            0 <= w < jobs.tasks@.len() && (#[trigger] jobs.tasks@[w]).id
                                == tnew.id;
                        assert(w == ti as int);
                    }
                    if p < k && q < k {
                        assert(old_out[p] == out@[p] && old_out[q] == out@[q]);
                    } else if p < k && q == k {
                        assert(out@[p] == old_out[p]);
                        assert(task_le(f, jobs.spec_task_of(old_out[p])->Some_0, tnew));
                        assert(old_out.contains(old_out[p]));
                    } else if p < k && q > k {
                        assert(out@[p] == old_out[p] && out@[q] == old_out[q - 1]);
                    } else if p == k {
                        // q > k
                        assert(out@[q] == old_out[q - 1]);
                        let other = jobs.spec_task_of(old_out[q - 1])->Some_0;
                        if q - 1 == k {
                            assert(task_le(f, tnew, other));
                        } else {
                            assert(id_lt(*jobs, f, old_out[k as int], old_out[q - 1]));
                            assert(task_le(f, tnew, jobs.spec_task_of(old_out[k as int])->Some_0));
                            lemma_task_le_transitive(
                                f,
                                tnew,
                                jobs.spec_task_of(old_out[k as int])->Some_0,
                                other,
                            );
                        }
                        assert(old_out.contains(old_out[q - 1]));
                        assert(out@[p] == tnew.id);
                    } else {
                        // p > k, q > k
                        assert(out@[p] == old_out[p - 1] && out@[q] == old_out[q - 1]);
                    }
                }
            }
        }
        ti = ti + 1;
    }
    proof {
        assert forall|id: u64| #[trigger]
            out@.contains(id) <==> (jobs.has_id(id) && task_matches(
            jobs.spec_task_of(id)->Some_0,
            filter@,
        )) by {
            if out@.contains(id) {
                let j = choose|j: int|
                    0 <= j < n && (#[trigger] jobs.tasks@[j]).id == id && task_matches(
                        jobs.tasks@[j],
                        filter@,
                    );
                assert(jobs.has_id(id));
                let w = choose|w: int|
                    0 <= w < jobs.tasks@.len() && (#[trigger] jobs.tasks@[w]).id == id;
                assert(w == j);
            }
            if jobs.has_id(id) && task_matches(jobs.spec_task_of(id)->Some_0, filter@) {
                let w = choose|w: int|
                    0 <= w < jobs.tasks@.len() && (#[trigger] jobs.tasks@[w]).id == id;
                assert(jobs.tasks@[w].id == id && task_matches(jobs.tasks@[w], filter@));
            }
        }
    }
    out
}

/// The view's filter agrees with the displayed row: a formatted task matches
/// a filter exactly when the task itself does, because the filter reads only
/// the four displayed fields.
pub proof fn lemma_filter_agrees_with_display(
    ft: crate::display::FormattedTask,
    t: Task,
    now: i64,
    filter: Seq<char>,
)
    requires
        crate::display::formatted_ok(ft, t, now),
    ensures
        crate::display::formatted_matches(ft, filter) == task_matches(t, filter),
{
}

/// A filter no job matches yields an empty view.
pub proof fn lemma_no_match_empty_view(v: Seq<u64>, jobs: JobSet, filter: Seq<char>, f: SortField)
    requires
        is_view_of(v, jobs, filter, f),
        forall|id: u64|
            jobs.has_id(id) ==> !task_matches(jobs.spec_task_of(id)->Some_0, filter),
    ensures
        v.len() == 0,
{
    if v.len() > 0 {
        assert(v.contains(v[0]));
    }
}

/// The row of `id` in the view, if it is there: the first (and, in a strictly
/// ordered view, only) position holding it.
pub fn position_of(v: &Vec<u64>, id: u64) -> (r: Option<usize>)
    ensures
        match r {
            Some(i) => i < v@.len() && v@[i as int] == id && forall|k: int|
                0 <= k < i ==> v@[k] != id,
            None => !v@.contains(id),
        },
{
    let n = v.len();
    let mut i: usize = 0;
    while i < n
        invariant
            n == v@.len(),
            i <= n,
            forall|k: int| 0 <= k < i ==> v@[k] != id,
        decreases n - i,
    {
        if v[i] == id {
            return Some(i);
        }
        i = i + 1;
    }
    None
}

} // verus!
