//! Personal workouts: `/log activity, details` records one for the sender,
//! `/history` lists the sender's own, oldest first.
use crate::model::{
    first_index, lemma_first_index, lemma_first_index_is, workouts_view, AttendanceView,
    WeeklyAttendance, WorkoutEntry, WorkoutView,
};
use crate::text::{chars_of, join, string_of, trim, trim_chars};
use vstd::prelude::*;
use vstd::string::*;

verus! {

/// The activity and the details of `/log` arguments: the text before the
/// first comma and the text after it, each trimmed; without a comma, all of
/// it is the activity and there are no details.
pub open spec fn log_arguments(args: Seq<char>) -> (Seq<char>, Seq<char>) {
    let i = first_index(args, |c: char| c == ',');
    if i < 0 {
        (trim(args), Seq::<char>::empty())
    } else {
        (trim(args.take(i)), trim(args.skip(i + 1)))
    }
}

/// The state after `user_id` sent `/log args`: the workout is appended to
/// the log when it names an activity.
pub open spec fn logged(att: AttendanceView, user_id: u64, args: Seq<char>) -> AttendanceView {
    let (activity, details) = log_arguments(args);
    if activity.len() > 0 {
        AttendanceView {
            workouts: att.workouts.push(WorkoutView { user_id, activity, details }),
            ..att
        }
    } else {
        att
    }
}

/// The workouts of `user_id`, in the order they were logged.
pub open spec fn workouts_of(log: Seq<WorkoutView>, user_id: u64) -> Seq<WorkoutView>
    decreases log.len(),
{
    if log.len() == 0 {
        Seq::<WorkoutView>::empty()
    } else {
        let rest = workouts_of(log.drop_last(), user_id);
        if log.last().user_id == user_id {
            rest.push(log.last())
        } else {
            rest
        }
    }
}

/// One workout's line of the history.
pub open spec fn workout_line(w: WorkoutView) -> Seq<char> {
    "<b>"@ + w.activity + "</b> - "@ + w.details
}

/// The training history of `user_id`: a header, then one line per workout,
/// or a note that there is none.
pub open spec fn history_text(log: Seq<WorkoutView>, user_id: u64) -> Seq<char> {
    let mine = workouts_of(log, user_id);
    "📖 <b>Training History</b>\n\n"@ + if mine.len() == 0 {
        "<i>No workouts logged yet</i>"@
    } else {
        join(mine.map_values(|w: WorkoutView| workout_line(w)), "\n"@)
    }
}

fn copy_range(v: &Vec<char>, from: usize, to: usize) -> (r: Vec<char>)
    requires
        from <= to <= v.len(),
    ensures
        r@ == v@.subrange(from as int, to as int),
{
    let mut r: Vec<char> = Vec::new();
    let mut k: usize = from;
    while k < to
        invariant
            from <= k <= to <= v.len(),
            r@ == v@.subrange(from as int, k as int),
        decreases to - k,
    {
        r.push(v[k]);
        k = k + 1;
        assert(r@ =~= v@.subrange(from as int, k as int));
    }
    r
}

/// Reads `/log` arguments into an activity and details.
pub fn parse_log_arguments(args: &str) -> (r: (String, String))
    ensures
        (r.0@, r.1@) == log_arguments(args@),
{
    let v = chars_of(args);
    let ghost p = |c: char| c == ',';
    let mut i: usize = 0;
    while i < v.len() && v[i] != ','
        invariant
            i <= v.len(),
            v@ == args@,
            p == (|c: char| c == ','),
            forall|j: int| 0 <= j < i ==> !p(#[trigger] v@[j]),
        decreases v.len() - i,
    {
        i = i + 1;
    }
    if i == v.len() {
        proof {
            lemma_first_index_is(v@, p, -1);
        }
        let a = trim_chars(&v);
        (string_of(&a), String::new())
    } else {
        proof {
            lemma_first_index_is(v@, p, i as int);
        }
        let before = copy_range(&v, 0, i);
        let after = copy_range(&v, i + 1, v.len());
        assert(before@ =~= args@.take(i as int));
        assert(after@ =~= args@.skip(i + 1));
        let a = trim_chars(&before);
        let d = trim_chars(&after);
        (string_of(&a), string_of(&d))
    }
}

/// `/log args` from `user_id`: records the workout when it names an
/// activity; says whether it did.
pub fn record_workout(state: &mut WeeklyAttendance, user_id: u64, args: &str) -> (recorded: bool)
    ensures
        recorded == (log_arguments(args@).0.len() > 0),
        final(state)@ == logged(old(state)@, user_id, args@),
{
    let (activity, details) = parse_log_arguments(args);
    if activity.unicode_len() > 0 {
        let ghost before = state.workout_log@;
        let ghost w = WorkoutView { user_id, activity: activity@, details: details@ };
        state.workout_log.push(WorkoutEntry { user_id, activity, details });
        assert(workouts_view(state.workout_log@) =~= workouts_view(before).push(w));
        true
    } else {
        false
    }
}

proof fn lemma_join_push(parts: Seq<Seq<char>>, sep: Seq<char>, x: Seq<char>)
    ensures
        join(parts.push(x), sep) == if parts.len() == 0 {
            x
        } else {
            join(parts, sep) + sep + x
        },
{
    assert(parts.push(x).drop_last() =~= parts);
}

/// The training history of `user_id`.
pub fn training_history(state: &WeeklyAttendance, user_id: u64) -> (r: String)
    ensures
        r@ == history_text(state@.workouts, user_id),
{
    let log = &state.workout_log;
    let ghost lv = state@.workouts;
    let mut body = String::new();
    let mut count: usize = 0;
    let mut i: usize = 0;
    while i < log.len()
        invariant
            i <= log.len(),
            log == &state.workout_log,
            lv == workouts_view(log@),
            count == workouts_of(lv.take(i as int), user_id).len(),
            count <= i,
            body@ == join(
                workouts_of(lv.take(i as int), user_id).map_values(|w: WorkoutView| workout_line(w)),
                "\n"@,
            ),
        decreases log.len() - i,
    {
        let ghost mine = workouts_of(lv.take(i as int), user_id);
        assert(lv.take(i + 1).drop_last() =~= lv.take(i as int));
        assert(lv.take(i + 1).last() == log@[i as int]@);
        let e = &log[i];
        if e.user_id == user_id {
            let ghost line = workout_line(e@);
            proof {
                lemma_join_push(mine.map_values(|w: WorkoutView| workout_line(w)), "\n"@, line);
                assert(mine.push(e@).map_values(|w: WorkoutView| workout_line(w)) =~= mine.map_values(
                    |w: WorkoutView| workout_line(w),
                ).push(line));
            }
            if count > 0 {
                body.append("\n");
            }
            body.append("<b>");
            body.append(e.activity.as_str());
            body.append("</b> - ");
            body.append(e.details.as_str());
            count = count + 1;
        }
        i = i + 1;
    }
    assert(lv.take(log.len() as int) =~= lv);
    let mut out = String::from_str("📖 <b>Training History</b>\n\n");
    if count == 0 {
        out.append("<i>No workouts logged yet</i>");
    } else {
        out.append(body.as_str());
    }
    out
}

} // verus!
