//! What holds of the attendance across operations.
use crate::attendance::{after_press, checkin_target, pressed, selected_week, toggled};
use crate::commands::{
    admin_only, attendee_rows, command_fits, command_outcome, command_state, sync_rows, CommandView, RowView,
};
use crate::report::shown_name;
use crate::workouts::{log_arguments, logged, workouts_of};
use crate::line_board::{
    line_after_press, line_button, line_command_allowed, line_command_state, line_data_complete,
    line_index, line_rolled, line_selected, line_target,
    lines_replaced, template_of, template_sessions,
    LineAttendanceView, LineCommandView, LineSessionView,
};
use crate::model::{attendee_index, lemma_first_index, lemma_first_index_is, session_index, AttendanceView, Attendee, SessionView, WorkoutView};
use crate::report::active_count;
use crate::schedule::{
    after_add, after_delete, after_edit, after_roll, cleared, edited, order_index, session_arguments, fresh_id, highest_id, new_session,
    placed, FieldsView,
};
use crate::keyboard::session_button;
use crate::text::{
    all_digits, decimal, digit_char, digits_value, filled_lines, is_digit, is_space, join, parse_unsigned,
    split_on, strip_prefix, trim, trim_end, trim_start,
};
use vstd::prelude::*;
use vstd::string::*;

verus! {

/// Every member is listed at most once.
pub open spec fn members_unique(attendees: Seq<Attendee>) -> bool {
    forall|i: int, j: int|
        0 <= i < j < attendees.len() ==> attendees[i].user_id != attendees[j].user_id
}

/// 1 for a sign-up that is not cancelled, else 0.
pub open spec fn counts(a: Attendee) -> int {
    if a.cancelled {
        0
    } else {
        1
    }
}

proof fn lemma_index_after_update(a: Seq<Attendee>, user_id: u64, x: Attendee)
    requires
        attendee_index(a, user_id) >= 0,
        x.user_id == user_id,
    ensures
        attendee_index(a.update(attendee_index(a, user_id), x), user_id) == attendee_index(a, user_id),
{
    let p = |b: Attendee| b.user_id == user_id;
    lemma_first_index(a, p);
    let i = attendee_index(a, user_id);
    let b = a.update(i, x);
    assert forall|j: int| 0 <= j < i implies !p(#[trigger] b[j]) by {
        assert(b[j] == a[j]);
        assert(!p(a[j]));
    }
    lemma_first_index_is(b, p, i);
}

/// Pressing twice restores a listed member's sign-up.
pub proof fn lemma_press_twice_restores(attendees: Seq<Attendee>, user_id: u64)
    requires
        attendee_index(attendees, user_id) >= 0,
    ensures
        toggled(toggled(attendees, user_id), user_id) == attendees,
{
    let p = |b: Attendee| b.user_id == user_id;
    lemma_first_index(attendees, p);
    let i = attendee_index(attendees, user_id);
    let x = Attendee { user_id, cancelled: !attendees[i].cancelled };
    lemma_index_after_update(attendees, user_id, x);
    assert(toggled(toggled(attendees, user_id), user_id) =~= attendees);
}

/// A member not yet listed who presses twice ends up listed once, cancelled,
/// at the end.
pub proof fn lemma_new_member_presses_twice(attendees: Seq<Attendee>, user_id: u64)
    requires
        attendee_index(attendees, user_id) == -1,
    ensures
        toggled(toggled(attendees, user_id), user_id) == attendees.push(
            Attendee { user_id, cancelled: true },
        ),
{
    let p = |b: Attendee| b.user_id == user_id;
    lemma_first_index(attendees, p);
    let b = attendees.push(Attendee { user_id, cancelled: false });
    assert forall|j: int| 0 <= j < attendees.len() implies !p(#[trigger] b[j]) by {
        assert(b[j] == attendees[j]);
    }
    lemma_first_index_is(b, p, attendees.len() as int);
    assert(toggled(toggled(attendees, user_id), user_id) =~= attendees.push(
        Attendee { user_id, cancelled: true },
    ));
}

/// After a press the member is listed, and a list without repeated members
/// stays without repeated members.
pub proof fn lemma_press_keeps_members_unique(attendees: Seq<Attendee>, user_id: u64)
    requires
        members_unique(attendees),
    ensures
        members_unique(toggled(attendees, user_id)),
        attendee_index(toggled(attendees, user_id), user_id) >= 0,
{
    let p = |b: Attendee| b.user_id == user_id;
    lemma_first_index(attendees, p);
    let t = toggled(attendees, user_id);
    lemma_first_index(t, p);
    if attendee_index(attendees, user_id) >= 0 {
        let i = attendee_index(attendees, user_id);
        assert(p(t[i]));
    } else {
        assert(p(t[attendees.len() as int]));
    }
}

proof fn lemma_active_count_push(s: Seq<Attendee>, x: Attendee)
    ensures
        active_count(s.push(x)) == active_count(s) + counts(x),
{
    assert(s.push(x).drop_last() =~= s);
}

proof fn lemma_active_count_update(s: Seq<Attendee>, i: int, x: Attendee)
    requires
        0 <= i < s.len(),
    ensures
        active_count(s.update(i, x)) == active_count(s) - counts(s[i]) + counts(x),
    decreases s.len(),
{
    let u = s.update(i, x);
    if i == s.len() - 1 {
        assert(u.drop_last() =~= s.drop_last());
    } else {
        lemma_active_count_update(s.drop_last(), i, x);
        assert(u.drop_last() =~= s.drop_last().update(i, x));
    }
}

/// A press changes the number of members coming by exactly one: down when
/// the member was coming, up otherwise.
pub proof fn lemma_press_changes_count_by_one(attendees: Seq<Attendee>, user_id: u64)
    ensures
        active_count(toggled(attendees, user_id)) as int == if attendee_index(attendees, user_id) >= 0
            && !attendees[attendee_index(attendees, user_id)].cancelled {
            active_count(attendees) - 1
        } else {
            active_count(attendees) + 1int
        },
{
    let p = |b: Attendee| b.user_id == user_id;
    lemma_first_index(attendees, p);
    let i = attendee_index(attendees, user_id);
    if i >= 0 {
        lemma_active_count_update(attendees, i, Attendee { user_id, cancelled: !attendees[i].cancelled });
    } else {
        lemma_active_count_push(attendees, Attendee { user_id, cancelled: false });
    }
}

/// Deleting the session at the position where one was just added restores
/// both weeks, when both weeks had that position.
pub proof fn lemma_delete_undoes_add(att: AttendanceView, order: int, f: FieldsView)
    requires
        1 <= order <= att.current.sessions.len(),
        order <= att.next.sessions.len(),
    ensures
        after_delete(after_add(att, order, f), order - 1) == att,
{
    let s = new_session(fresh_id(att) as u8, f);
    assert(att.current.sessions.insert(order - 1, s).remove(order - 1) =~= att.current.sessions);
    assert(att.next.sessions.insert(order - 1, s).remove(order - 1) =~= att.next.sessions);
}

/// A session without its sign-ups: what the two weeks share.
pub open spec fn plan_of(s: SessionView) -> SessionView {
    SessionView { attendees: Seq::<Attendee>::empty(), ..s }
}

/// The two weeks have the same sessions in the same order, sign-ups aside.
pub open spec fn same_plan(a: Seq<SessionView>, b: Seq<SessionView>) -> bool {
    &&& a.len() == b.len()
    &&& forall|i: int| 0 <= i < a.len() ==> plan_of(#[trigger] a[i]) == plan_of(b[i])
}

/// After a roll-over the two weeks have the same sessions, the next one
/// without sign-ups, and the current week is the former next week.
pub proof fn lemma_roll_aligns_weeks(att: AttendanceView, today: int)
    ensures
        same_plan(after_roll(att, today).current.sessions, after_roll(att, today).next.sessions),
        after_roll(att, today).current == att.next,
        forall|i: int|
            0 <= i < after_roll(att, today).next.sessions.len() ==> (#[trigger] after_roll(
                att,
                today,
            ).next.sessions[i]).attendees.len() == 0,
{
}

/// Editing keeps two weeks with the same sessions alike.
pub proof fn lemma_edit_keeps_weeks_aligned(att: AttendanceView, index: int, f: FieldsView)
    requires
        same_plan(att.current.sessions, att.next.sessions),
    ensures
        same_plan(after_edit(att, index, f).current.sessions, after_edit(att, index, f).next.sessions),
{
    let a = att.current.sessions;
    let b = att.next.sessions;
    if index < a.len() && 0 <= index {
        assert forall|i: int| 0 <= i < a.len() implies plan_of(#[trigger] edited(a, index, f)[i]) == plan_of(
            edited(b, index, f)[i],
        ) by {
            assert(plan_of(a[i]) == plan_of(b[i]));
        }
    }
}

/// Adding keeps two weeks with the same sessions alike.
pub proof fn lemma_add_keeps_weeks_aligned(att: AttendanceView, order: int, f: FieldsView)
    requires
        same_plan(att.current.sessions, att.next.sessions),
    ensures
        same_plan(after_add(att, order, f).current.sessions, after_add(att, order, f).next.sessions),
{
    let a = att.current.sessions;
    let b = att.next.sessions;
    let s = new_session(fresh_id(att) as u8, f);
    let pa = placed(a, order, s);
    let pb = placed(b, order, s);
    assert forall|i: int| 0 <= i < pa.len() implies plan_of(#[trigger] pa[i]) == plan_of(pb[i]) by {
        if 0 < order <= a.len() {
            if i < order - 1 {
                assert(plan_of(a[i]) == plan_of(b[i]));
            } else if i > order - 1 {
                assert(plan_of(a[i - 1]) == plan_of(b[i - 1]));
            }
        } else if i < a.len() {
            assert(plan_of(a[i]) == plan_of(b[i]));
        }
    }
}

/// Deleting keeps two weeks with the same sessions alike.
pub proof fn lemma_delete_keeps_weeks_aligned(att: AttendanceView, index: int)
    requires
        same_plan(att.current.sessions, att.next.sessions),
    ensures
        same_plan(after_delete(att, index).current.sessions, after_delete(att, index).next.sessions),
{
    let a = att.current.sessions;
    let b = att.next.sessions;
    if 0 <= index < a.len() {
        let ra = a.remove(index);
        let rb = b.remove(index);
        assert forall|i: int| 0 <= i < ra.len() implies plan_of(#[trigger] ra[i]) == plan_of(rb[i]) by {
            if i < index {
                assert(plan_of(a[i]) == plan_of(b[i]));
            } else {
                assert(plan_of(a[i + 1]) == plan_of(b[i + 1]));
            }
        }
    }
}

proof fn lemma_highest_id_bounds(s: Seq<SessionView>)
    ensures
        forall|i: int| 0 <= i < s.len() ==> (#[trigger] s[i]).id <= highest_id(s),
        highest_id(s) < 256,
    decreases s.len(),
{
    if s.len() > 0 {
        lemma_highest_id_bounds(s.drop_last());
        assert forall|i: int| 0 <= i < s.len() implies (#[trigger] s[i]).id <= highest_id(s) by {
            if i < s.len() - 1 {
                assert(s[i] == s.drop_last()[i]);
            }
        }
    }
}

/// Session ids are distinct.
pub open spec fn ids_unique(s: Seq<SessionView>) -> bool {
    forall|i: int, j: int| 0 <= i < j < s.len() ==> s[i].id != s[j].id
}

/// A new session's id is larger than every id in either week, so adding
/// keeps the ids of each week distinct.
pub proof fn lemma_add_keeps_ids_unique(att: AttendanceView, order: int, f: FieldsView)
    requires
        ids_unique(att.current.sessions),
        ids_unique(att.next.sessions),
        fresh_id(att) <= 255,
    ensures
        forall|i: int|
            0 <= i < att.current.sessions.len() ==> (#[trigger] att.current.sessions[i]).id < fresh_id(att),
        forall|i: int| 0 <= i < att.next.sessions.len() ==> (#[trigger] att.next.sessions[i]).id < fresh_id(att),
        ids_unique(after_add(att, order, f).current.sessions),
        ids_unique(after_add(att, order, f).next.sessions),
{
    lemma_highest_id_bounds(att.current.sessions);
    lemma_highest_id_bounds(att.next.sessions);
    let s = new_session(fresh_id(att) as u8, f);
    let a = att.current.sessions;
    let b = att.next.sessions;
    lemma_placed_unique(a, order, s);
    lemma_placed_unique(b, order, s);
}

proof fn lemma_placed_unique(a: Seq<SessionView>, order: int, s: SessionView)
    requires
        ids_unique(a),
        forall|i: int| 0 <= i < a.len() ==> (#[trigger] a[i]).id != s.id,
    ensures
        ids_unique(placed(a, order, s)),
{
    let p = placed(a, order, s);
    assert forall|i: int, j: int| 0 <= i < j < p.len() implies p[i].id != p[j].id by {
        if 0 < order <= a.len() {
            let k = order - 1;
            if j < k {
            } else if j == k {
                assert(p[i] == a[i]);
            } else if i == k {
                assert(p[j] == a[j - 1]);
            } else if i < k {
                assert(p[i] == a[i] && p[j] == a[j - 1]);
            } else {
                assert(p[i] == a[i - 1] && p[j] == a[j - 1]);
            }
        } else {
            if j == a.len() {
                assert(p[i] == a[i]);
            }
        }
    }
}

/// A member who is not the admin cannot change the one-line schedule.
pub proof fn lemma_only_admin_changes_lines(att: LineAttendanceView, cmd: LineCommandView, is_group: bool, today: int)
    requires
        line_command_allowed(cmd, false, is_group),
    ensures
        line_command_state(att, cmd, today) == att,
{
}

proof fn lemma_split_append_plain(x: Seq<char>, t: Seq<char>, sep: char)
    requires
        forall|i: int| 0 <= i < t.len() ==> t[i] != sep,
    ensures
        split_on(x + t, sep) == split_on(x, sep).update(
            split_on(x, sep).len() - 1,
            split_on(x, sep).last() + t,
        ),
    decreases t.len(),
{
    crate::text::lemma_split_nonempty(x, sep);
    if t.len() == 0 {
        assert(x + t =~= x);
        assert(split_on(x, sep).last() + t =~= split_on(x, sep).last());
        assert(split_on(x, sep).update(split_on(x, sep).len() - 1, split_on(x, sep).last())
            =~= split_on(x, sep));
    } else {
        let u = t.drop_last();
        lemma_split_append_plain(x, u, sep);
        assert((x + t).drop_last() =~= x + u);
        assert((x + t).last() == t.last());
        let r = split_on(x, sep);
        assert(t[t.len() - 1] != sep);
        let rest = split_on(x + u, sep);
        assert(split_on(x + t, sep) == rest.update(rest.len() - 1, rest.last().push(t.last())));
        assert(rest.len() == r.len());
        assert(rest.last() == r.last() + u);
        assert((r.last() + u).push(t.last()) =~= r.last() + t);
        assert(split_on(x + t, sep) =~= r.update(r.len() - 1, r.last() + t));
    }
}

proof fn lemma_split_join(parts: Seq<Seq<char>>)
    requires
        parts.len() > 0,
        forall|k: int, i: int| 0 <= k < parts.len() && 0 <= i < parts[k].len() ==> #[trigger] parts[k][i] != '\n',
    ensures
        split_on(join(parts, "\n"@), '\n') == parts,
    decreases parts.len(),
{
    reveal_strlit("\n");
    if parts.len() == 1 {
        lemma_split_append_plain(Seq::<char>::empty(), parts[0], '\n');
        assert(Seq::<char>::empty() + parts[0] =~= parts[0]);
        assert(seq![Seq::<char>::empty()].update(0, Seq::<char>::empty() + parts[0]) =~= parts);
    } else {
        let d = parts.drop_last();
        lemma_split_join(d);
        let x = join(d, "\n"@) + "\n"@;
        assert(x.drop_last() =~= join(d, "\n"@));
        assert(split_on(x, '\n') == d.push(Seq::<char>::empty()));
        lemma_split_append_plain(x, parts.last(), '\n');
        assert(Seq::<char>::empty() + parts.last() =~= parts.last());
        assert(d.push(Seq::<char>::empty()).update(d.len() as int, parts.last()) =~= parts);
    }
}

proof fn lemma_filter_keeps_all(s: Seq<Seq<char>>)
    requires
        forall|i: int| 0 <= i < s.len() ==> (#[trigger] s[i]).len() > 0,
    ensures
        s.filter(|l: Seq<char>| l.len() > 0) == s,
    decreases s.len(),
{
    reveal_with_fuel(Seq::<_>::filter, 1);
    if s.len() > 0 {
        lemma_filter_keeps_all(s.drop_last());
        assert(s.drop_last().push(s.last()) =~= s);
    } else {
        assert(s.filter(|l: Seq<char>| l.len() > 0) =~= s);
    }
}

/// A text that can stand as one line of the template: not blank, no white
/// space at either end, no line break.
pub open spec fn is_session_line(t: Seq<char>) -> bool {
    &&& t.len() > 0
    &&& trim(t) == t
    &&& forall|i: int| 0 <= i < t.len() ==> t[i] != '\n'
}

/// Saving the sessions as a template and reading it back gives the same
/// session lines, in order, numbered from 1, without sign-ups.
pub proof fn lemma_template_round_trip(sessions: Seq<LineSessionView>)
    requires
        forall|i: int| 0 <= i < sessions.len() ==> is_session_line(#[trigger] sessions[i].text),
    ensures
        template_sessions(template_of(sessions)) == Seq::new(
            sessions.len(),
            |i: int|
                LineSessionView {
                    id: ((i + 1) % 256) as u8,
                    text: sessions[i].text,
                    attendees: Seq::<Attendee>::empty(),
                },
        ),
{
    let texts = sessions.map_values(|s: LineSessionView| s.text);
    let text = template_of(sessions);
    if sessions.len() == 0 {
        assert(texts =~= Seq::<Seq<char>>::empty());
        assert(text == Seq::<char>::empty());
        assert(split_on(text, '\n') == seq![Seq::<char>::empty()]);
        let m = seq![Seq::<char>::empty()].map_values(|l: Seq<char>| trim(l));
        assert(trim(Seq::<char>::empty()) == Seq::<char>::empty());
        assert(m =~= seq![Seq::<char>::empty()]);
        assert(m.filter(|l: Seq<char>| l.len() > 0) =~= Seq::<Seq<char>>::empty()) by {
            reveal_with_fuel(Seq::<_>::filter, 2);
            assert(m.drop_last() =~= Seq::<Seq<char>>::empty());
        }
        assert(filled_lines(text) =~= Seq::<Seq<char>>::empty());
        assert(template_sessions(text) =~= Seq::<LineSessionView>::empty());
    } else {
        assert forall|k: int, i: int| 0 <= k < texts.len() && 0 <= i < texts[k].len() implies #[trigger] texts[k][i] != '\n' by {
            assert(is_session_line(sessions[k].text));
        }
        lemma_split_join(texts);
        let m = texts.map_values(|l: Seq<char>| trim(l));
        assert forall|i: int| 0 <= i < texts.len() implies m[i] == texts[i] by {
            assert(is_session_line(sessions[i].text));
        }
        assert(m =~= texts);
        assert forall|i: int| 0 <= i < texts.len() implies (#[trigger] texts[i]).len() > 0 by {
            assert(is_session_line(sessions[i].text));
        }
        lemma_filter_keeps_all(texts);
        assert(filled_lines(text) == texts);
        assert(template_sessions(text) =~= Seq::new(
            sessions.len(),
            |i: int|
                LineSessionView {
                    id: ((i + 1) % 256) as u8,
                    text: sessions[i].text,
                    attendees: Seq::<Attendee>::empty(),
                },
        ));
    }
}

proof fn lemma_trim_start_shape(s: Seq<char>) -> (k: int)
    ensures
        0 <= k <= s.len(),
        trim_start(s) == s.skip(k),
        trim_start(s).len() > 0 ==> !is_space(trim_start(s)[0]),
    decreases s.len(),
{
    if s.len() > 0 && is_space(s[0]) {
        let k = lemma_trim_start_shape(s.drop_first());
        assert(s.drop_first().skip(k) =~= s.skip(k + 1));
        k + 1
    } else {
        assert(s.skip(0) =~= s);
        0
    }
}

proof fn lemma_trim_end_shape(s: Seq<char>) -> (m: int)
    ensures
        0 <= m <= s.len(),
        trim_end(s) == s.take(m),
        trim_end(s).len() > 0 ==> !is_space(trim_end(s).last()),
    decreases s.len(),
{
    if s.len() > 0 && is_space(s.last()) {
        let m = lemma_trim_end_shape(s.drop_last());
        assert(s.drop_last().take(m) =~= s.take(m));
        m
    } else {
        assert(s.take(s.len() as int) =~= s);
        s.len() as int
    }
}

/// What `trim` gives back is a piece of its argument with no white space
/// at either end, and trimming it again changes nothing.
pub proof fn lemma_trim_shape(s: Seq<char>)
    ensures
        trim(trim(s)) == trim(s),
        exists|k: int, m: int| 0 <= k <= m <= s.len() && #[trigger] s.subrange(k, m) == trim(s),
{
    let k = lemma_trim_start_shape(s);
    let u = trim_start(s);
    let m = lemma_trim_end_shape(u);
    let v = trim(s);
    assert(v == u.take(m));
    assert(s.skip(k).take(m) =~= s.subrange(k, k + m));
    assert(s.subrange(k, k + m) == v);
    if v.len() > 0 {
        assert(v[0] == u[0]);
        assert(trim_start(v) == v);
        assert(trim_end(v) == v);
    } else {
        assert(trim_start(v) == v);
        assert(trim_end(v) == v);
    }
}

proof fn lemma_split_pieces_plain(s: Seq<char>, sep: char)
    ensures
        forall|p: int, i: int|
            0 <= p < split_on(s, sep).len() && 0 <= i < split_on(s, sep)[p].len() ==> #[trigger] split_on(
                s,
                sep,
            )[p][i] != sep,
    decreases s.len(),
{
    if s.len() > 0 {
        lemma_split_pieces_plain(s.drop_last(), sep);
        crate::text::lemma_split_nonempty(s.drop_last(), sep);
        let rest = split_on(s.drop_last(), sep);
        let r = split_on(s, sep);
        assert forall|p: int, i: int| 0 <= p < r.len() && 0 <= i < r[p].len() implies #[trigger] r[p][i] != sep by {
            if s.last() == sep {
                if p < rest.len() {
                    assert(r[p] == rest[p]);
                }
            } else {
                if p < rest.len() - 1 {
                    assert(r[p] == rest[p]);
                } else {
                    assert(r[p] == rest.last().push(s.last()));
                    if i < rest.last().len() {
                        assert(r[p][i] == rest[rest.len() - 1][i]);
                    }
                }
            }
        }
    }
}

proof fn lemma_filter_member(s: Seq<Seq<char>>, j: int) -> (i: int)
    requires
        0 <= j < s.filter(|l: Seq<char>| l.len() > 0).len(),
    ensures
        s.filter(|l: Seq<char>| l.len() > 0)[j].len() > 0,
        0 <= i < s.len(),
        s[i] == s.filter(|l: Seq<char>| l.len() > 0)[j],
    decreases s.len(),
{
    reveal_with_fuel(Seq::<_>::filter, 1);
    let f = s.filter(|l: Seq<char>| l.len() > 0);
    let g = s.drop_last().filter(|l: Seq<char>| l.len() > 0);
    if j < g.len() {
        let i = lemma_filter_member(s.drop_last(), j);
        assert(f[j] == g[j]);
        assert(s[i] == f[j]);
        i
    } else {
        assert(f[j] == s.last());
        s.len() - 1
    }
}

/// Every session read from a template is a proper template line.
pub proof fn lemma_template_lines_are_session_lines(text: Seq<char>)
    ensures
        forall|i: int|
            0 <= i < template_sessions(text).len() ==> is_session_line(
                #[trigger] template_sessions(text)[i].text,
            ),
{
    let parts = split_on(text, '\n');
    let m = parts.map_values(|l: Seq<char>| trim(l));
    let lines = filled_lines(text);
    lemma_split_pieces_plain(text, '\n');
    assert forall|i: int| 0 <= i < template_sessions(text).len() implies is_session_line(
        #[trigger] template_sessions(text)[i].text,
    ) by {
        let q = lemma_filter_member(m, i);
        let t = lines[i];
        assert(template_sessions(text)[i].text == t);
        assert(m[q] == t);
        assert(m[q] == trim(parts[q]));
        lemma_trim_shape(parts[q]);
        let (k, e) = choose|k: int, e: int| 0 <= k <= e <= parts[q].len() && #[trigger] parts[q].subrange(k, e) == trim(parts[q]);
        assert forall|c: int| 0 <= c < t.len() implies t[c] != '\n' by {
            assert(t[c] == parts[q][k + c]);
        }
    }
}

/// A schedule saved as a template and read back is saved again as the
/// same text.
pub proof fn lemma_template_saves_stably(text: Seq<char>)
    ensures
        template_sessions(template_of(template_sessions(text))) == template_sessions(text),
{
    lemma_template_lines_are_session_lines(text);
    let s = template_sessions(text);
    lemma_template_round_trip(s);
    assert(template_sessions(template_of(s)) =~= s);
}

/// Sending back the list that `/trainings` shows, through `/edit`, keeps
/// the sessions' lines in order; they are numbered from 1 again and start
/// without sign-ups in both weeks.
pub proof fn lemma_trainings_then_edit(att: LineAttendanceView)
    requires
        att.current.sessions.len() > 0,
        forall|i: int| 0 <= i < att.current.sessions.len() ==> is_session_line(#[trigger] att.current.sessions[i].text),
    ensures
        lines_replaced(att, template_of(att.current.sessions)).current.sessions == Seq::new(
            att.current.sessions.len(),
            |i: int|
                LineSessionView {
                    id: ((i + 1) % 256) as u8,
                    text: att.current.sessions[i].text,
                    attendees: Seq::<Attendee>::empty(),
                },
        ),
        lines_replaced(att, template_of(att.current.sessions)).next.sessions
            == lines_replaced(att, template_of(att.current.sessions)).current.sessions,
{
    lemma_template_round_trip(att.current.sessions);
}

/// The schedule's standing invariant: ids distinct in each week, and the two
/// weeks with the same sessions in the same order.
pub open spec fn schedule_ok(att: AttendanceView) -> bool {
    &&& ids_unique(att.current.sessions)
    &&& ids_unique(att.next.sessions)
    &&& same_plan(att.current.sessions, att.next.sessions)
}

proof fn lemma_cleared_keeps_plan(s: Seq<SessionView>)
    ensures
        same_plan(s, cleared(s)),
        ids_unique(s) ==> ids_unique(cleared(s)),
{
    assert forall|i: int| 0 <= i < s.len() implies plan_of(#[trigger] s[i]) == plan_of(cleared(s)[i]) by {}
    if ids_unique(s) {
        assert forall|i: int, j: int| 0 <= i < j < cleared(s).len() implies cleared(s)[i].id != cleared(s)[j].id by {
            assert(cleared(s)[i].id == s[i].id && cleared(s)[j].id == s[j].id);
        }
    }
}

proof fn lemma_edited_keeps_ids(s: Seq<SessionView>, index: int, f: FieldsView)
    requires
        ids_unique(s),
    ensures
        ids_unique(edited(s, index, f)),
{
    let e = edited(s, index, f);
    assert forall|i: int, j: int| 0 <= i < j < e.len() implies e[i].id != e[j].id by {
        assert(e[i].id == s[i].id && e[j].id == s[j].id);
    }
}

proof fn lemma_removed_keeps_ids(s: Seq<SessionView>, index: int)
    requires
        ids_unique(s),
        0 <= index < s.len(),
    ensures
        ids_unique(s.remove(index)),
{
    let r = s.remove(index);
    assert forall|i: int, j: int| 0 <= i < j < r.len() implies r[i].id != r[j].id by {
        let a = if i < index { i } else { i + 1 };
        let b = if j < index { j } else { j + 1 };
        assert(r[i] == s[a] && r[j] == s[b]);
    }
}

/// Every command keeps the schedule's invariant: ids stay distinct in each
/// week and the two weeks keep the same sessions in the same order.
pub proof fn lemma_commands_keep_schedule(
    att: AttendanceView,
    cmd: CommandView,
    sender: u64,
    is_admin: bool,
    today: int,
)
    requires
        schedule_ok(att),
        command_fits(att, cmd, is_admin, today),
    ensures
        schedule_ok(command_state(att, cmd, sender, is_admin, today)),
{
    if admin_only(cmd) && !is_admin {
        return;
    }
    match cmd {
        CommandView::NewWeek => {
            lemma_roll_aligns_weeks(att, today);
            lemma_cleared_keeps_plan(att.next.sessions);
        },
        CommandView::Edit(args) => {
            if let Some((order, f)) = session_arguments(args, 0) {
                let i = order_index(order as int);
                lemma_edit_keeps_weeks_aligned(att, i, f);
                if i < att.current.sessions.len() {
                    lemma_edited_keeps_ids(att.current.sessions, i, f);
                    lemma_edited_keeps_ids(att.next.sessions, i, f);
                }
            }
        },
        CommandView::Add(args) => {
            if let Some((order, f)) = session_arguments(args, 1) {
                lemma_add_keeps_weeks_aligned(att, order as int, f);
                lemma_add_keeps_ids_unique(att, order as int, f);
            }
        },
        CommandView::Delete(order) => {
            let i = order_index(order as int);
            lemma_delete_keeps_weeks_aligned(att, i);
            if 0 <= i < att.current.sessions.len() {
                lemma_removed_keeps_ids(att.current.sessions, i);
                if i < att.next.sessions.len() {
                    lemma_removed_keeps_ids(att.next.sessions, i);
                }
            }
        },
        _ => {},
    }
}

/// Only the administrator changes the schedule: a schedule command from
/// anyone else leaves the state alone and is refused.
pub proof fn lemma_only_admin_changes_schedule(att: AttendanceView, cmd: CommandView, sender: u64, today: int)
    requires
        admin_only(cmd),
    ensures
        command_state(att, cmd, sender, false, today) == att,
        command_outcome(att, cmd, sender, false, today) is Refused,
{
}

/// A workout that `/log` records is the last of the sender's history, and
/// nobody else's history changes.
pub proof fn lemma_log_then_history(att: AttendanceView, user_id: u64, args: Seq<char>, other: u64)
    requires
        log_arguments(args).0.len() > 0,
        other != user_id,
    ensures
        workouts_of(logged(att, user_id, args).workouts, user_id) == workouts_of(att.workouts, user_id).push(
            WorkoutView { user_id, activity: log_arguments(args).0, details: log_arguments(args).1 },
        ),
        workouts_of(logged(att, user_id, args).workouts, other) == workouts_of(att.workouts, other),
{
    let w = WorkoutView { user_id, activity: log_arguments(args).0, details: log_arguments(args).1 };
    assert(att.workouts.push(w).drop_last() =~= att.workouts);
}

/// The button data names a session of its week that already lists `user_id`.
pub open spec fn press_finds_member(att: AttendanceView, user_id: u64, data: Seq<char>) -> bool {
    match checkin_target(data) {
        Some((week_type, session_id)) => {
            let ss = selected_week(att, week_type).sessions;
            let i = session_index(ss, session_id);
            i >= 0 && attendee_index(ss[i].attendees, user_id) >= 0
        },
        None => false,
    }
}

proof fn lemma_pressed_twice(ss: Seq<SessionView>, session_id: u8, user_id: u64)
    requires
        session_index(ss, session_id) >= 0,
        attendee_index(ss[session_index(ss, session_id)].attendees, user_id) >= 0,
    ensures
        pressed(pressed(ss, session_id, user_id), session_id, user_id) == ss,
{
    let p = |s: SessionView| s.id == session_id;
    lemma_first_index(ss, p);
    let i = session_index(ss, session_id);
    let once = pressed(ss, session_id, user_id);
    assert forall|j: int| 0 <= j < i implies !p(#[trigger] once[j]) by {
        assert(once[j] == ss[j]);
        assert(!p(ss[j]));
    }
    lemma_first_index_is(once, p, i);
    lemma_press_twice_restores(ss[i].attendees, user_id);
    assert(pressed(once, session_id, user_id) =~= ss);
}

/// Two presses of the same button by a member already listed there leave
/// both weeks' sessions as they were.
pub proof fn lemma_two_presses_restore_weeks(att: AttendanceView, user_id: u64, name: Seq<char>, data: Seq<char>)
    requires
        press_finds_member(att, user_id, data),
    ensures
        after_press(after_press(att, user_id, name, data), user_id, name, data).current == att.current,
        after_press(after_press(att, user_id, name, data), user_id, name, data).next == att.next,
{
    let (week_type, session_id) = checkin_target(data)->0;
    let ss = selected_week(att, week_type).sessions;
    lemma_pressed_twice(ss, session_id, user_id);
}

proof fn lemma_decimal_digits(n: nat)
    ensures
        decimal(n).len() > 0,
        all_digits(decimal(n)),
        digits_value(decimal(n)) == n,
        forall|i: int| 0 <= i < decimal(n).len() ==> #[trigger] decimal(n)[i] != '_' && decimal(n)[i] != '+',
    decreases n,
{
    if n < 10 {
        assert(decimal(n) == seq![digit_char(n)]);
        assert(decimal(n).drop_last() =~= Seq::<char>::empty());
        assert((digit_char(n) as u32) == n + 48);
        assert(digits_value(decimal(n)) == digits_value(Seq::<char>::empty()) * 10 + ((digit_char(n) as u32) - 48) as nat);
    } else {
        lemma_decimal_digits(n / 10);
        let d = decimal(n / 10).push(digit_char(n % 10));
        assert(d.drop_last() =~= decimal(n / 10));
        assert((digit_char((n % 10) as nat) as u32) == n % 10 + 48);
        assert(digits_value(d) == digits_value(decimal(n / 10)) * 10 + (n % 10));
        assert(n == (n / 10) * 10 + n % 10);
        assert forall|i: int| 0 <= i < d.len() implies is_digit(#[trigger] d[i]) by {
            if i < d.len() - 1 {
                assert(d[i] == decimal(n / 10)[i]);
            }
        }
        assert forall|i: int| 0 <= i < d.len() implies #[trigger] d[i] != '_' && d[i] != '+' by {
            if i < d.len() - 1 {
                assert(d[i] == decimal(n / 10)[i]);
            }
        }
    }
}

/// A session id written in decimal reads back as the same id.
pub proof fn lemma_id_reads_back(id: u8)
    ensures
        parse_unsigned(decimal(id as nat), 255) == Some(id as nat),
{
    lemma_decimal_digits(id as nat);
}

proof fn lemma_split_two(w: Seq<char>, d: Seq<char>)
    requires
        forall|i: int| 0 <= i < w.len() ==> w[i] != '_',
        forall|i: int| 0 <= i < d.len() ==> d[i] != '_',
    ensures
        split_on(w + "_"@ + d, '_') == seq![w, d],
{
    reveal_strlit("_");
    lemma_split_append_plain(Seq::<char>::empty(), w, '_');
    assert(Seq::<char>::empty() + w =~= w);
    assert(split_on(w, '_') =~= seq![w]);
    let x = w + "_"@;
    assert(x.drop_last() =~= w);
    assert(split_on(x, '_') =~= seq![w, Seq::<char>::empty()]);
    lemma_split_append_plain(x, d, '_');
    assert(Seq::<char>::empty() + d =~= d);
    assert(split_on(x + d, '_') =~= seq![w, d]);
}

proof fn lemma_strip_own_prefix(p: Seq<char>, rest: Seq<char>)
    ensures
        strip_prefix(p + rest, p) == Some(rest),
{
    assert((p + rest).take(p.len() as int) =~= p);
    assert((p + rest).skip(p.len() as int) =~= rest);
}

/// A session's button sends data that reads back as its week type and id,
/// for a week type without `_`.
pub proof fn lemma_button_reads_back(s: SessionView, week_type: Seq<char>)
    requires
        forall|i: int| 0 <= i < week_type.len() ==> week_type[i] != '_',
    ensures
        checkin_target(session_button(s, week_type).callback_data) == Some((week_type, s.id)),
{
    let d = decimal(s.id as nat);
    lemma_decimal_digits(s.id as nat);
    lemma_id_reads_back(s.id);
    lemma_split_two(week_type, d);
    let rest = week_type + "_"@ + d;
    assert(session_button(s, week_type).callback_data =~= "checkin_"@ + rest);
    lemma_strip_own_prefix("checkin_"@, rest);
}

/// A one-line session's button sends complete data that reads back as its
/// week type and id, for a week type without `_`.
pub proof fn lemma_line_button_reads_back(s: LineSessionView, week_type: Seq<char>)
    requires
        forall|i: int| 0 <= i < week_type.len() ==> week_type[i] != '_',
    ensures
        line_data_complete(line_button(s, week_type).callback_data),
        line_target(line_button(s, week_type).callback_data) == Some((week_type, s.id)),
{
    let d = decimal(s.id as nat);
    lemma_decimal_digits(s.id as nat);
    lemma_id_reads_back(s.id);
    lemma_split_two(week_type, d);
    let rest = week_type + "_"@ + d;
    assert(line_button(s, week_type).callback_data =~= "ck_"@ + rest);
    lemma_strip_own_prefix("ck_"@, rest);
}

/// A row written for `/save` records a sign-up that is not cancelled: the
/// user, their shown name, and the id of the session that lists them.
pub open spec fn row_of_signup(registry: Map<u64, Seq<char>>, s: SessionView, j: int, r: RowView) -> bool {
    &&& 0 <= j < s.attendees.len()
    &&& !s.attendees[j].cancelled
    &&& r.session_id == s.id
    &&& r.user_id == s.attendees[j].user_id
    &&& r.user_alias == shown_name(registry, s.attendees[j].user_id)
}

proof fn lemma_attendee_rows_sound(registry: Map<u64, Seq<char>>, s: SessionView, m: int)
    requires
        0 <= m <= s.attendees.len(),
    ensures
        forall|k: int|
            #![trigger attendee_rows(registry, s.id, s.attendees.take(m))[k]]
            0 <= k < attendee_rows(registry, s.id, s.attendees.take(m)).len() ==> exists|j: int|
                #![trigger s.attendees[j]]
                0 <= j < m && row_of_signup(
                    registry,
                    s,
                    j,
                    attendee_rows(registry, s.id, s.attendees.take(m))[k],
                ),
    decreases m,
{
    if m > 0 {
        lemma_attendee_rows_sound(registry, s, m - 1);
        let atts = s.attendees.take(m);
        assert(atts.drop_last() =~= s.attendees.take(m - 1));
        let rest = attendee_rows(registry, s.id, s.attendees.take(m - 1));
        let rows = attendee_rows(registry, s.id, atts);
        let a = s.attendees[m - 1];
        assert(atts.last() == a);
        if a.cancelled {
            assert(rows == rest);
            assert forall|k: int| #![trigger rows[k]] 0 <= k < rows.len() implies exists|j: int|
                #![trigger s.attendees[j]]
                0 <= j < m && row_of_signup(registry, s, j, rows[k]) by {
                let j = choose|j: int| #![trigger s.attendees[j]] 0 <= j < m - 1 && row_of_signup(registry, s, j, rest[k]);
                assert(row_of_signup(registry, s, j, rows[k]));
            }
        } else {
            let r = RowView { session_id: s.id, user_id: a.user_id, user_alias: shown_name(registry, a.user_id) };
            assert(rows == rest.push(r));
            assert forall|k: int| #![trigger rows[k]] 0 <= k < rows.len() implies exists|j: int|
                #![trigger s.attendees[j]]
                0 <= j < m && row_of_signup(registry, s, j, rows[k]) by {
                if k < rest.len() {
                    assert(rows[k] == rest[k]);
                    let j = choose|j: int| #![trigger s.attendees[j]] 0 <= j < m - 1 && row_of_signup(registry, s, j, rest[k]);
                    assert(row_of_signup(registry, s, j, rows[k]));
                } else {
                    assert(rows[k] == r);
                    assert(row_of_signup(registry, s, m - 1, rows[k]));
                }
            }
        }
    }
}

proof fn lemma_attendee_rows_complete(registry: Map<u64, Seq<char>>, s: SessionView, m: int)
    requires
        0 <= m <= s.attendees.len(),
    ensures
        forall|j: int|
            #![trigger s.attendees[j]]
            0 <= j < m && !s.attendees[j].cancelled ==> exists|k: int|
                0 <= k < attendee_rows(registry, s.id, s.attendees.take(m)).len() && #[trigger] row_of_signup(
                    registry,
                    s,
                    j,
                    attendee_rows(registry, s.id, s.attendees.take(m))[k],
                ),
    decreases m,
{
    if m > 0 {
        lemma_attendee_rows_complete(registry, s, m - 1);
        let atts = s.attendees.take(m);
        assert(atts.drop_last() =~= s.attendees.take(m - 1));
        let rest = attendee_rows(registry, s.id, s.attendees.take(m - 1));
        let rows = attendee_rows(registry, s.id, atts);
        let a = s.attendees[m - 1];
        assert(atts.last() == a);
        let r = RowView { session_id: s.id, user_id: a.user_id, user_alias: shown_name(registry, a.user_id) };
        if a.cancelled {
            assert(rows == rest);
        } else {
            assert(rows == rest.push(r));
        }
        assert forall|j: int| #![trigger s.attendees[j]] 0 <= j < m && !s.attendees[j].cancelled implies exists|k: int|
            0 <= k < rows.len() && #[trigger] row_of_signup(registry, s, j, rows[k]) by {
            if j < m - 1 {
                let k = choose|k: int| 0 <= k < rest.len() && #[trigger] row_of_signup(registry, s, j, rest[k]);
                assert(rows[k] == rest[k]);
                assert(row_of_signup(registry, s, j, rows[k]));
            } else {
                assert(rows[rows.len() - 1] == r);
                assert(row_of_signup(registry, s, j, rows[rows.len() - 1]));
            }
        }
    }
}

proof fn lemma_session_rows(registry: Map<u64, Seq<char>>, s: SessionView)
    ensures
        forall|k: int|
            #![trigger attendee_rows(registry, s.id, s.attendees)[k]]
            0 <= k < attendee_rows(registry, s.id, s.attendees).len() ==> exists|j: int|
                #![trigger s.attendees[j]]
                row_of_signup(registry, s, j, attendee_rows(registry, s.id, s.attendees)[k]),
        forall|j: int|
            #![trigger s.attendees[j]]
            0 <= j < s.attendees.len() && !s.attendees[j].cancelled ==> exists|k: int|
                0 <= k < attendee_rows(registry, s.id, s.attendees).len() && #[trigger] row_of_signup(
                    registry,
                    s,
                    j,
                    attendee_rows(registry, s.id, s.attendees)[k],
                ),
{
    assert(s.attendees.take(s.attendees.len() as int) =~= s.attendees);
    lemma_attendee_rows_sound(registry, s, s.attendees.len() as int);
    lemma_attendee_rows_complete(registry, s, s.attendees.len() as int);
}

proof fn lemma_saved_rows_sound(registry: Map<u64, Seq<char>>, sessions: Seq<SessionView>)
    ensures
        forall|k: int|
            #![trigger sync_rows(registry, sessions)[k]]
            0 <= k < sync_rows(registry, sessions).len() ==> exists|i: int, j: int|
                #![trigger sessions[i].attendees[j]]
                0 <= i < sessions.len() && row_of_signup(registry, sessions[i], j, sync_rows(registry, sessions)[k]),
    decreases sessions.len(),
{
    if sessions.len() > 0 {
        let d = sessions.drop_last();
        let n = sessions.len() - 1;
        let last = sessions[n];
        lemma_saved_rows_sound(registry, d);
        lemma_session_rows(registry, last);
        let rest = sync_rows(registry, d);
        let tail = attendee_rows(registry, last.id, last.attendees);
        let rows = sync_rows(registry, sessions);
        assert(rows == rest + tail);
        assert forall|k: int| #![trigger rows[k]] 0 <= k < rows.len() implies exists|i: int, j: int|
            #![trigger sessions[i].attendees[j]]
            0 <= i < sessions.len() && row_of_signup(registry, sessions[i], j, rows[k]) by {
            if k < rest.len() {
                assert(rows[k] == rest[k]);
                let (i, j) = choose|i: int, j: int| #![trigger d[i].attendees[j]] 0 <= i < d.len() && row_of_signup(registry, d[i], j, rest[k]);
                assert(d[i] == sessions[i]);
                assert(row_of_signup(registry, sessions[i], j, rows[k]));
                assert(sessions[i].attendees[j] == d[i].attendees[j]);
            } else {
                let t = k - rest.len();
                assert(rows[k] == tail[t]);
                let j = choose|j: int| #![trigger last.attendees[j]] row_of_signup(registry, last, j, tail[t]);
                assert(row_of_signup(registry, sessions[n], j, rows[k]));
                assert(sessions[n].attendees[j] == last.attendees[j]);
            }
        }
    }
}

proof fn lemma_saved_rows_complete(registry: Map<u64, Seq<char>>, sessions: Seq<SessionView>)
    ensures
        forall|i: int, j: int|
            #![trigger sessions[i].attendees[j]]
            0 <= i < sessions.len() && 0 <= j < sessions[i].attendees.len() && !sessions[i].attendees[j].cancelled
                ==> exists|k: int|
                0 <= k < sync_rows(registry, sessions).len() && #[trigger] row_of_signup(
                    registry,
                    sessions[i],
                    j,
                    sync_rows(registry, sessions)[k],
                ),
    decreases sessions.len(),
{
    if sessions.len() > 0 {
        let d = sessions.drop_last();
        let n = sessions.len() - 1;
        let last = sessions[n];
        lemma_saved_rows_complete(registry, d);
        lemma_session_rows(registry, last);
        let rest = sync_rows(registry, d);
        let tail = attendee_rows(registry, last.id, last.attendees);
        let rows = sync_rows(registry, sessions);
        assert(rows == rest + tail);
        assert forall|i: int, j: int|
            #![trigger sessions[i].attendees[j]]
            0 <= i < sessions.len() && 0 <= j < sessions[i].attendees.len() && !sessions[i].attendees[j].cancelled
            implies exists|k: int| 0 <= k < rows.len() && #[trigger] row_of_signup(registry, sessions[i], j, rows[k]) by {
            if i < n {
                assert(d[i] == sessions[i]);
                assert(d[i].attendees[j] == sessions[i].attendees[j]);
                let k = choose|k: int| 0 <= k < rest.len() && #[trigger] row_of_signup(registry, d[i], j, rest[k]);
                assert(rows[k] == rest[k]);
                assert(row_of_signup(registry, sessions[i], j, rows[k]));
            } else {
                assert(last.attendees[j] == sessions[i].attendees[j]);
                let k = choose|k: int| 0 <= k < tail.len() && #[trigger] row_of_signup(registry, last, j, tail[k]);
                assert(rows[rest.len() + k] == tail[k]);
                assert(row_of_signup(registry, sessions[i], j, rows[rest.len() + k]));
            }
        }
    }
}

/// `/save` writes exactly the sign-ups that are not cancelled: every row
/// records such a sign-up under the id of the session that lists it (not its
/// position), and every such sign-up of every session has its row.
pub proof fn lemma_saved_rows_are_signups(registry: Map<u64, Seq<char>>, sessions: Seq<SessionView>)
    ensures
        forall|k: int|
            #![trigger sync_rows(registry, sessions)[k]]
            0 <= k < sync_rows(registry, sessions).len() ==> exists|i: int, j: int|
                #![trigger sessions[i].attendees[j]]
                0 <= i < sessions.len() && row_of_signup(registry, sessions[i], j, sync_rows(registry, sessions)[k]),
        forall|i: int, j: int|
            #![trigger sessions[i].attendees[j]]
            0 <= i < sessions.len() && 0 <= j < sessions[i].attendees.len() && !sessions[i].attendees[j].cancelled
                ==> exists|k: int|
                0 <= k < sync_rows(registry, sessions).len() && #[trigger] row_of_signup(
                    registry,
                    sessions[i],
                    j,
                    sync_rows(registry, sessions)[k],
                ),
{
    lemma_saved_rows_sound(registry, sessions);
    lemma_saved_rows_complete(registry, sessions);
}

/// Editing changes only the day, activity, location and time of the edited
/// session: every session of both weeks keeps its id and its sign-ups, and
/// the number of sessions stays.
pub proof fn lemma_edit_keeps_signups(att: AttendanceView, index: int, f: FieldsView)
    ensures
        after_edit(att, index, f).current.sessions.len() == att.current.sessions.len(),
        after_edit(att, index, f).next.sessions.len() == att.next.sessions.len(),
        forall|k: int| 0 <= k < att.current.sessions.len() ==> {
            &&& (#[trigger] after_edit(att, index, f).current.sessions[k]).attendees == att.current.sessions[k].attendees
            &&& after_edit(att, index, f).current.sessions[k].id == att.current.sessions[k].id
        },
        forall|k: int| 0 <= k < att.next.sessions.len() ==> {
            &&& (#[trigger] after_edit(att, index, f).next.sessions[k]).attendees == att.next.sessions[k].attendees
            &&& after_edit(att, index, f).next.sessions[k].id == att.next.sessions[k].id
        },
        after_edit(att, index, f).registry == att.registry,
        after_edit(att, index, f).workouts == att.workouts,
{
}

/// Rolling over keeps the members' names and workouts, makes the former next
/// week current, and starts the new next week with the same sessions (ids,
/// days, activities, places, times) and nobody signed up.
pub proof fn lemma_roll_keeps_registry(att: AttendanceView, today: int)
    ensures
        after_roll(att, today).registry == att.registry,
        after_roll(att, today).workouts == att.workouts,
        after_roll(att, today).current == att.next,
        after_roll(att, today).next.sessions.len() == att.next.sessions.len(),
        forall|k: int| 0 <= k < att.next.sessions.len() ==> {
            &&& (#[trigger] after_roll(att, today).next.sessions[k]).attendees.len() == 0
            &&& plan_of(after_roll(att, today).next.sessions[k]) == plan_of(att.next.sessions[k])
        },
{
}

/// The one-line roll-over keeps the members' names too.
pub proof fn lemma_line_roll_keeps_registry(att: LineAttendanceView, today: int)
    ensures
        line_rolled(att, today).registry == att.registry,
        line_rolled(att, today).current == att.next,
{
}

/// A one-line press changes only the week its data names: `c` the current
/// week, anything else the next. The other week stays as it was, the pressed
/// week keeps its dates, sessions, ids and texts, only the pressed session's
/// sign-ups change and the member is then listed there, and the member's
/// name is recorded.
pub proof fn lemma_line_press_targets_its_week(att: LineAttendanceView, user_id: u64, name: Seq<char>, data: Seq<char>)
    requires
        line_target(data) is Some,
    ensures
        ({
            let (w, id) = line_target(data)->0;
            let post = line_after_press(att, user_id, name, data);
            let (before, after, other_before, other_after) = if w == "c"@ {
                (att.current, post.current, att.next, post.next)
            } else {
                (att.next, post.next, att.current, post.current)
            };
            &&& other_after == other_before
            &&& after.start_date == before.start_date
            &&& after.end_date == before.end_date
            &&& after.sessions.len() == before.sessions.len()
            &&& forall|k: int| 0 <= k < before.sessions.len() ==> {
                &&& (#[trigger] after.sessions[k]).id == before.sessions[k].id
                &&& after.sessions[k].text == before.sessions[k].text
                &&& (after.sessions[k].attendees != before.sessions[k].attendees ==> before.sessions[k].id == id)
            }
            &&& line_index(before.sessions, id) >= 0 ==> attendee_index(
                after.sessions[line_index(before.sessions, id)].attendees,
                user_id,
            ) >= 0
            &&& post.registry == att.registry.insert(user_id, name)
        }),
{
    let (w, id) = line_target(data)->0;
    let before = line_selected(att, w);
    lemma_first_index(before.sessions, |s: LineSessionView| s.id == id);
    let i = line_index(before.sessions, id);
    if i >= 0 {
        lemma_press_keeps_members_unique_any(before.sessions[i].attendees, user_id);
    }
}

proof fn lemma_press_keeps_members_unique_any(attendees: Seq<Attendee>, user_id: u64)
    ensures
        attendee_index(toggled(attendees, user_id), user_id) >= 0,
{
    let p = |b: Attendee| b.user_id == user_id;
    lemma_first_index(attendees, p);
    let t = toggled(attendees, user_id);
    lemma_first_index(t, p);
    if attendee_index(attendees, user_id) >= 0 {
        assert(p(t[attendee_index(attendees, user_id)]));
    } else {
        assert(p(t[attendees.len() as int]));
    }
}

/// A session-button press changes only the week its data names: `c` the
/// current week, anything else the next. The other week stays as it was, the
/// pressed week keeps its sessions and their fields, only the pressed
/// session's sign-ups change and the member is then listed there, and the
/// member's name is recorded.
pub proof fn lemma_press_targets_its_week(att: AttendanceView, user_id: u64, name: Seq<char>, data: Seq<char>)
    requires
        checkin_target(data) is Some,
    ensures
        ({
            let (w, id) = checkin_target(data)->0;
            let post = after_press(att, user_id, name, data);
            let (before, after, other_before, other_after) = if w == "c"@ {
                (att.current, post.current, att.next, post.next)
            } else {
                (att.next, post.next, att.current, post.current)
            };
            &&& other_after == other_before
            &&& after.start_date == before.start_date
            &&& after.end_date == before.end_date
            &&& after.sessions.len() == before.sessions.len()
            &&& forall|k: int| 0 <= k < before.sessions.len() ==> {
                &&& plan_of(#[trigger] after.sessions[k]) == plan_of(before.sessions[k])
                &&& (after.sessions[k].attendees != before.sessions[k].attendees ==> before.sessions[k].id == id)
            }
            &&& session_index(before.sessions, id) >= 0 ==> attendee_index(
                after.sessions[session_index(before.sessions, id)].attendees,
                user_id,
            ) >= 0
            &&& post.registry == att.registry.insert(user_id, name)
            &&& post.workouts == att.workouts
        }),
{
    let (w, id) = checkin_target(data)->0;
    let before = selected_week(att, w);
    lemma_first_index(before.sessions, |s: SessionView| s.id == id);
    let i = session_index(before.sessions, id);
    if i >= 0 {
        lemma_press_keeps_members_unique_any(before.sessions[i].attendees, user_id);
    }
}

/// In a group chat every member may see this week's and next week's
/// attendance.
pub proof fn lemma_anyone_sees_attendance_in_groups(is_admin: bool)
    ensures
        line_command_allowed(LineCommandView::Show, is_admin, true),
        line_command_allowed(LineCommandView::ShowNext, is_admin, true),
{
}

} // verus!
