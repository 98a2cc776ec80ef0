use vstd::prelude::*;

use crate::tasks::{status_chars, status_display, ts_bound, Task};
use crate::text::{
    chars_vec, contains_seq, contains_sub, dec_digits, fold_lower, lower_of, string_of,
    u64_to_dec,
};
use vstd::string::StringExecFns;
use vstd::string::StrSliceExecFns;

verus! {

/// The longest suffix of `s` that holds no `/`.
pub open spec fn last_segment(s: Seq<char>) -> Seq<char>
    decreases s.len(),
{
    if s.len() == 0 {
        s
    } else if s[s.len() - 1] == '/' {
        Seq::empty()
    } else {
        last_segment(s.drop_last()).push(s[s.len() - 1])
    }
}

/// `s` without its trailing slashes.
pub open spec fn strip_trailing_slashes(s: Seq<char>) -> Seq<char>
    decreases s.len(),
{
    if s.len() > 0 && s[s.len() - 1] == '/' {
        strip_trailing_slashes(s.drop_last())
    } else {
        s
    }
}

proof fn lemma_last_segment_suffix(s: Seq<char>, j: int)
    requires
        0 <= j <= s.len(),
        forall|k: int| j <= k < s.len() ==> s[k] != '/',
        j > 0 ==> s[j - 1] == '/',
    ensures
        last_segment(s) == s.subrange(j, s.len() as int),
    decreases s.len(),
{
    if s.len() == 0 {
        assert(last_segment(s) =~= s.subrange(0, 0));
    } else if j == s.len() {
        assert(s[s.len() - 1] == '/');
        assert(last_segment(s) =~= s.subrange(j, s.len() as int));
    } else {
        assert(s[s.len() - 1] != '/');
        let t = s.drop_last();
        assert(forall|k: int| j <= k < t.len() ==> t[k] == s[k]);
        lemma_last_segment_suffix(t, j);
        assert(last_segment(s) == t.subrange(j, t.len() as int).push(s[s.len() - 1]));
        assert(t.subrange(j, t.len() as int).push(s[s.len() - 1]) =~= s.subrange(
            j,
            s.len() as int,
        ));
    }
}

/// `strip_trailing_slashes` never lengthens its input.
proof fn lemma_strip_len(s: Seq<char>)
    ensures
        strip_trailing_slashes(s).len() <= s.len(),
    decreases s.len(),
{
    if s.len() > 0 && s[s.len() - 1] == '/' {
        lemma_strip_len(s.drop_last());
    }
}

/// `strip_trailing_slashes` leaves no trailing slash.
proof fn lemma_strip_no_trailing(s: Seq<char>)
    ensures
        ({
            let t = strip_trailing_slashes(s);
            t.len() == 0 || t[t.len() - 1] != '/'
        }),
    decreases s.len(),
{
    if s.len() > 0 && s[s.len() - 1] == '/' {
        lemma_strip_no_trailing(s.drop_last());
    }
}

/// The final path component of `s`, as `Path::file_name` resolves it:
/// trailing slashes and `.` segments do not count, and a string whose last
/// real segment is `..` — or that has no segment at all — has no component.
pub open spec fn file_name_of(s: Seq<char>) -> Option<Seq<char>>
    decreases s.len(),
    via file_name_of_decreases
{
    let t = strip_trailing_slashes(s);
    if t.len() == 0 {
        None
    } else {
        let b = last_segment(t);
        if b == seq!['.'] {
            file_name_of(t.take(t.len() - 1))
        } else if b == seq!['.', '.'] {
            None
        } else {
            Some(b)
        }
    }
}

#[via_fn]
proof fn file_name_of_decreases(s: Seq<char>) {
    lemma_strip_len(s);
}

/// Stripping trailing slashes does not change the final component.
proof fn lemma_file_name_strip(s: Seq<char>)
    ensures
        file_name_of(strip_trailing_slashes(s)) == file_name_of(s),
{
    lemma_strip_no_trailing(s);
    let t = strip_trailing_slashes(s);
    assert(strip_trailing_slashes(t) == t);
}

/// The displayed command: the string's final path component when it has one
/// (`file_name_of`), the whole string otherwise — the original's fallback to
/// the full command text.
pub open spec fn basename_chars(s: Seq<char>) -> Seq<char> {
    match file_name_of(s) {
        Some(b) => b,
        None => s,
    }
}

/// The displayed command: the final path component of `s`, or all of `s`
/// when there is none.
pub fn basename(s: &str) -> (r: String)
    ensures
        r@ == basename_chars(s@),
{
    let v = chars_vec(s);
    let n = v.len();
    let mut e: usize = n;
    proof {
        assert(s@.take(n as int) =~= s@);
    }
    loop
        invariant
            n == v@.len(),
            v@ == s@,
            e <= n,
            file_name_of(s@) == file_name_of(s@.take(e as int)),
        decreases e,
    {
        let ghost e0 = e;
        // ignore trailing slashes
        loop
            invariant
                n == v@.len(),
                v@ == s@,
                e <= e0 <= n,
                file_name_of(s@) == file_name_of(s@.take(e as int)),
            ensures
                e <= e0 <= n,
                file_name_of(s@) == file_name_of(s@.take(e as int)),
                e > 0 ==> v@[e - 1] != '/',
            decreases e,
        {
            if e == 0 {
                break;
            }
            if v[e - 1] != '/' {
                break;
            }
            proof {
                let t = s@.take(e as int);
                assert(t[t.len() - 1] == '/');
                assert(t.drop_last() =~= s@.take(e - 1));
                assert(strip_trailing_slashes(t) == strip_trailing_slashes(s@.take(e - 1)));
                lemma_file_name_strip(t);
                lemma_file_name_strip(s@.take(e - 1));
            }
            e = e - 1;
        }
        if e == 0 {
            // empty or all slashes: no component, the whole string is shown
            proof {
                assert(s@.take(0) =~= Seq::<char>::empty());
                assert(strip_trailing_slashes(s@.take(0)).len() == 0);
            }
            return string_of(&v);
        }
        // find the start of the final segment
        let mut j: usize = e;
        loop
            invariant
                n == v@.len(),
                v@ == s@,
                j <= e <= n,
                forall|k: int| j <= k < e ==> v@[k] != '/',
            ensures
                j <= e,
                forall|k: int| j <= k < e ==> v@[k] != '/',
                j > 0 ==> v@[j - 1] == '/',
            decreases j,
        {
            if j == 0 {
                break;
            }
            if v[j - 1] == '/' {
                break;
            }
            j = j - 1;
        }
        proof {
            let t = s@.take(e as int);
            assert(t.len() == e);
            assert(t[t.len() - 1] == s@[e - 1]);
            assert(strip_trailing_slashes(t) == t);
            assert forall|k: int| j <= k < t.len() implies t[k] != '/' by {
                assert(t[k] == s@[k]);
            }
            if j > 0 {
                assert(t[j - 1] == s@[j - 1]);
            }
            lemma_last_segment_suffix(t, j as int);
            assert(last_segment(t) =~= s@.subrange(j as int, e as int));
        }
        if e - j == 1 && v[j] == '.' {
            // a `.` segment does not count: drop it and look further left
            proof {
                let t = s@.take(e as int);
                assert(s@.subrange(j as int, e as int) =~= seq!['.']);
                assert(t.take(t.len() - 1) =~= s@.take(e - 1));
            }
            e = e - 1;
        } else if e - j == 2 && v[j] == '.' && v[j + 1] == '.' {
            // a final `..` is no component: the whole string is shown
            proof {
                assert(s@.subrange(j as int, e as int) =~= seq!['.', '.']);
            }
            return string_of(&v);
        } else {
            let seg = crate::text::sub_vec(&v, j, e);
            proof {
                assert(seg@ != seq!['.']) by {
                    if seg@ == seq!['.'] {
                        assert(seg@.len() == 1);
                        assert(seg@[0] == '.');
                    }
                }
                assert(seg@ != seq!['.', '.']) by {
                    if seg@ == seq!['.', '.'] {
                        assert(seg@.len() == 2);
                        assert(seg@[0] == '.' && seg@[1] == '.');
                    }
                }
            }
            return string_of(&seg);
        }
    }
}

/// What `tico::tico` (with no home directory) returns for a path: each
/// `/`-separated level shortened to its first letter, the last level kept.
/// A function of the characters alone.
pub uninterp spec fn shortened_of(s: Seq<char>) -> Seq<char>;

/// Relies on `tico::tico` with no home directory; the result depends on the
/// path's characters alone.
#[verifier::external_body]
pub fn shorten_path(s: &str) -> (r: String)
    ensures
        r@ == shortened_of(s@),
{
    tico::tico(s, None)
}

/// The duration text: seconds below a minute, minutes and seconds below an
/// hour, else hours and minutes.
pub open spec fn duration_chars(secs: int) -> Seq<char> {
    if secs < 60 {
        crate::text::dec_digits_signed(secs) + "s"@
    } else if secs < 3600 {
        dec_digits((secs / 60) as nat) + "m "@ + dec_digits((secs % 60) as nat) + "s"@
    } else {
        dec_digits((secs / 3600) as nat) + "h "@ + dec_digits(((secs % 3600) / 60) as nat)
            + "m"@
    }
}

/// The duration column of a task: elapsed time from its start until its end,
/// or until `now` while it still runs; `-` when it never started.
pub open spec fn task_duration_chars(t: Task, now: i64) -> Seq<char> {
    match t.start {
        Some(start) => {
            let fin = match t.end {
                Some(end) => end as int,
                None => now as int,
            };
            duration_chars(fin - start)
        },
        None => "-"@,
    }
}

fn format_duration(secs: i64) -> (r: String)
    ensures
        r@ == duration_chars(secs as int),
{
    if secs < 60 {
        let digits = crate::text::i64_to_dec(secs);
        let mut s = string_of(&digits);
        s.append("s");
        s
    } else if secs < 3600 {
        let mut s = string_of(&u64_to_dec((secs / 60) as u64));
        s.append("m ");
        s.append(string_of(&u64_to_dec((secs % 60) as u64)).as_str());
        s.append("s");
        proof {
            assert(s@ =~= duration_chars(secs as int));
        }
        s
    } else {
        let mut s = string_of(&u64_to_dec((secs / 3600) as u64));
        s.append("h ");
        s.append(string_of(&u64_to_dec(((secs % 3600) / 60) as u64)).as_str());
        s.append("m");
        proof {
            assert(s@ =~= duration_chars(secs as int));
        }
        s
    }
}

/// A task as the table displays it: every column as final text.
#[derive(Debug)]
pub struct FormattedTask {
    pub id: String,
    pub status: String,
    pub command: String,
    pub path: String,
    pub duration: String,
    pub full_command: String,
    pub full_path: String,
    pub group: String,
    pub label: Option<String>,
}

/// The displayed fields of a task: id as decimal text, status text, command
/// basename, shortened path.
pub open spec fn formatted_ok(ft: FormattedTask, t: Task, now: i64) -> bool {
    &&& ft.id@ == dec_digits(t.id as nat)
    &&& ft.status@ == status_chars(t.status)
    &&& ft.command@ == basename_chars(t.command@)
    &&& ft.path@ == shortened_of(t.path@)
    &&& ft.duration@ == task_duration_chars(t, now)
    &&& ft.full_command@ == t.command@
    &&& ft.full_path@ == t.path@
    &&& ft.group@ == t.group@
    &&& (match (ft.label, t.label) {
        (Some(a), Some(b)) => a@ == b@,
        (None, None) => true,
        _ => false,
    })
}

/// Builds the display row for one task.
pub fn format_task(task: &Task, now: i64) -> (r: FormattedTask)
    requires
        task.wf(),
        -ts_bound() < now < ts_bound(),
    ensures
        formatted_ok(r, *task, now),
{
    let duration = match task.start {
        Some(start) => {
            let fin = match task.end {
                Some(end) => end,
                None => now,
            };
            format_duration(fin - start)
        },
        None => String::from_str("-"),
    };
    let label = match &task.label {
        Some(l) => Some(l.clone()),
        None => None,
    };
    FormattedTask {
        id: string_of(&u64_to_dec(task.id)),
        status: status_display(&task.status),
        command: basename(task.command.as_str()),
        path: shorten_path(task.path.as_str()),
        duration,
        full_command: task.command.clone(),
        full_path: task.path.clone(),
        group: task.group.clone(),
        label,
    }
}

/// Case-insensitive filter match against the displayed fields: id, status,
/// command basename, shortened path. An empty filter matches everything.
pub open spec fn formatted_matches(ft: FormattedTask, filter: Seq<char>) -> bool {
    ||| filter.len() == 0
    ||| contains_sub(lower_of(ft.id@), lower_of(filter))
    ||| contains_sub(lower_of(ft.status@), lower_of(filter))
    ||| contains_sub(lower_of(ft.command@), lower_of(filter))
    ||| contains_sub(lower_of(ft.path@), lower_of(filter))
}

impl FormattedTask {
    /// Whether this row stays visible under `filter`.
    pub fn matches_filter(&self, filter: &str) -> (r: bool)
        ensures
            r == formatted_matches(*self, filter@),
    {
        if filter.unicode_len() == 0 {
            return true;
        }
        let f = chars_vec(fold_lower(filter).as_str());
        if contains_seq(&chars_vec(fold_lower(self.id.as_str()).as_str()), &f) {
            return true;
        }
        if contains_seq(&chars_vec(fold_lower(self.status.as_str()).as_str()), &f) {
            return true;
        }
        if contains_seq(&chars_vec(fold_lower(self.command.as_str()).as_str()), &f) {
            return true;
        }
        contains_seq(&chars_vec(fold_lower(self.path.as_str()).as_str()), &f)
    }
}

} // verus!
