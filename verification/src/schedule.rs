//! Changing the schedule: editing, adding and deleting sessions in both
//! weeks at once, and rolling over to the next week.
use crate::calendar::{day_month_text, format_day_month, is_calendar_day, parse_day_month};
use crate::model::{
    sessions_view, AttendanceView, SessionView,
    TrainingSession, WeekData, WeekView, WeeklyAttendance,
};
use crate::text::{chars_of, parse_unsigned, parse_unsigned_chars, split_chars, split_on, string_of, texts_view, trim, trim_chars};
use vstd::prelude::*;

verus! {

/// The day, activity, location and time that `/add` and `/edit` give.
#[derive(Debug)]
pub struct SessionFields {
    pub day: String,
    pub activity: String,
    pub location: String,
    pub time: String,
}

pub struct FieldsView {
    pub day: Seq<char>,
    pub activity: Seq<char>,
    pub location: Seq<char>,
    pub time: Seq<char>,
}

impl View for SessionFields {
    type V = FieldsView;

    open spec fn view(&self) -> FieldsView {
        FieldsView {
            day: self.day@,
            activity: self.activity@,
            location: self.location@,
            time: self.time@,
        }
    }
}

/// The session at `index` with its day, activity, location and time replaced;
/// nothing changes when there is no such session.
pub open spec fn edited(sessions: Seq<SessionView>, index: int, f: FieldsView) -> Seq<SessionView> {
    if 0 <= index < sessions.len() {
        sessions.update(
            index,
            SessionView {
                day: f.day,
                activity: f.activity,
                location: f.location,
                time: f.time,
                ..sessions[index]
            },
        )
    } else {
        sessions
    }
}

/// Both weeks after editing session `index`; when the current week has no
/// such session nothing changes.
pub open spec fn after_edit(att: AttendanceView, index: int, f: FieldsView) -> AttendanceView {
    if index < att.current.sessions.len() {
        AttendanceView {
            current: WeekView { sessions: edited(att.current.sessions, index, f), ..att.current },
            next: WeekView { sessions: edited(att.next.sessions, index, f), ..att.next },
            ..att
        }
    } else {
        att
    }
}

/// The largest session id, or -1 when there are no sessions.
pub open spec fn highest_id(sessions: Seq<SessionView>) -> int
    decreases sessions.len(),
{
    if sessions.len() == 0 {
        -1
    } else {
        let rest = highest_id(sessions.drop_last());
        if rest < sessions.last().id {
            sessions.last().id as int
        } else {
            rest
        }
    }
}

/// The id a new session gets: one more than the largest in either week, 1 when
/// there are none.
pub open spec fn fresh_id(att: AttendanceView) -> int {
    let a = highest_id(att.current.sessions);
    let b = highest_id(att.next.sessions);
    let m = if a < b {
        b
    } else {
        a
    };
    if m < 0 {
        1
    } else {
        m + 1
    }
}

/// A new session without sign-ups.
pub open spec fn new_session(id: u8, f: FieldsView) -> SessionView {
    SessionView {
        id,
        activity: f.activity,
        location: f.location,
        day: f.day,
        attendees: Seq::<crate::model::Attendee>::empty(),
        time: f.time,
    }
}

/// `s` placed at position `order` (counted from 1) when there is one, else at the end.
pub open spec fn placed(sessions: Seq<SessionView>, order: int, s: SessionView) -> Seq<SessionView> {
    if 0 < order <= sessions.len() {
        sessions.insert(order - 1, s)
    } else {
        sessions.push(s)
    }
}

/// Both weeks after adding a session at position `order`.
pub open spec fn after_add(att: AttendanceView, order: int, f: FieldsView) -> AttendanceView {
    let s = new_session(fresh_id(att) as u8, f);
    AttendanceView {
        current: WeekView { sessions: placed(att.current.sessions, order, s), ..att.current },
        next: WeekView { sessions: placed(att.next.sessions, order, s), ..att.next },
        ..att
    }
}

/// Both weeks after deleting the session at `index`; when the current week
/// has no such session nothing changes.
pub open spec fn after_delete(att: AttendanceView, index: int) -> AttendanceView {
    if 0 <= index < att.current.sessions.len() {
        AttendanceView {
            current: WeekView { sessions: att.current.sessions.remove(index), ..att.current },
            next: WeekView {
                sessions: if index < att.next.sessions.len() {
                    att.next.sessions.remove(index)
                } else {
                    att.next.sessions
                },
                ..att.next
            },
            ..att
        }
    } else {
        att
    }
}

/// The sessions with their sign-ups removed.
pub open spec fn cleared(sessions: Seq<SessionView>) -> Seq<SessionView> {
    sessions.map_values(|s: SessionView| SessionView { attendees: Seq::<crate::model::Attendee>::empty(), ..s })
}

/// The week after rolling over on day `today`: the next week becomes the
/// current one, and the new next week has its sessions without sign-ups,
/// from a week after `today` to six days later.
pub open spec fn after_roll(att: AttendanceView, today: int) -> AttendanceView {
    AttendanceView {
        current: att.next,
        next: WeekView {
            start_date: day_month_text(today + 7),
            end_date: day_month_text(today + 13),
            sessions: cleared(att.next.sessions),
        },
        registry: att.registry,
        workouts: att.workouts,
    }
}

/// `order - 1`, or 0 for order 0.
pub open spec fn order_index(order: int) -> int {
    if order > 0 {
        order - 1
    } else {
        0
    }
}

/// The pieces of `/add` and `/edit` arguments: split at commas, trimmed.
pub open spec fn argument_parts(args: Seq<char>) -> Seq<Seq<char>> {
    split_on(args, ',').map_values(|p: Seq<char>| trim(p))
}

/// The position and fields of `order, day, activity, location, time`; the
/// position is `default_order` when it is not a number. Fewer than five
/// parts are an error; parts after the fifth are ignored.
pub open spec fn session_arguments(args: Seq<char>, default_order: nat) -> Option<(nat, FieldsView)> {
    let p = argument_parts(args);
    if p.len() < 5 {
        None
    } else {
        let order = match parse_unsigned(p[0], usize::MAX as nat) {
            Some(v) => v,
            None => default_order,
        };
        Some((order, FieldsView { day: p[1], activity: p[2], location: p[3], time: p[4] }))
    }
}

/// Reads `order, day, activity, location, time`.
pub fn parse_session_arguments(args: &str, default_order: usize) -> (r: Option<(usize, SessionFields)>)
    ensures
        match r {
            Some((order, f)) => session_arguments(args@, default_order as nat) == Some((order as nat, f@)),
            None => session_arguments(args@, default_order as nat) is None,
        },
{
    let chars = chars_of(args);
    let pieces = split_chars(&chars, ',');
    let ghost raw = split_on(args@, ',');
    let mut parts: Vec<Vec<char>> = Vec::new();
    let mut i: usize = 0;
    while i < pieces.len()
        invariant
            i <= pieces.len(),
            texts_view(pieces@) == raw,
            raw == split_on(args@, ','),
            parts@.len() == i,
            forall|j: int| 0 <= j < i ==> (#[trigger] parts@[j])@ == trim(raw[j]),
        decreases pieces.len() - i,
    {
        assert(pieces@[i as int]@ == raw[i as int]);
        let t = trim_chars(&pieces[i]);
        parts.push(t);
        i = i + 1;
    }
    let ghost p = argument_parts(args@);
    assert(texts_view(parts@) =~= p);
    if parts.len() < 5 {
        return None;
    }
    assert(forall|j: int| 0 <= j < 5 ==> parts@[j]@ == p[j]);
    let order = match parse_unsigned_chars(&parts[0], usize::MAX as u64) {
        Some(v) => v as usize,
        None => default_order,
    };
    let f = SessionFields {
        day: string_of(&parts[1]),
        activity: string_of(&parts[2]),
        location: string_of(&parts[3]),
        time: string_of(&parts[4]),
    };
    Some((order, f))
}

fn set_fields(s: &mut TrainingSession, f: &SessionFields)
    ensures
        final(s)@ == (SessionView {
            day: f.day@,
            activity: f.activity@,
            location: f.location@,
            time: f.time@,
            ..old(s)@
        }),
{
    s.day = f.day.clone();
    s.activity = f.activity.clone();
    s.location = f.location.clone();
    s.time = f.time.clone();
}

fn edit_in(sessions: &mut Vec<TrainingSession>, index: usize, f: &SessionFields)
    ensures
        sessions_view(final(sessions)@) == edited(sessions_view(old(sessions)@), index as int, f@),
{
    if index < sessions.len() {
        let ghost before = sessions@;
        let s = &mut sessions[index];
        set_fields(s, f);
        assert(sessions_view(sessions@) =~= edited(sessions_view(before), index as int, f@));
    }
}

/// `/edit`: replaces the day, activity, location and time of the session at
/// position `order` (0 counting as 1) in both weeks. Says whether the current
/// week has that session.
pub fn edit_session(state: &mut WeeklyAttendance, order: usize, f: &SessionFields) -> (found: bool)
    ensures
        found == (order_index(order as int) < old(state)@.current.sessions.len()),
        final(state)@ == after_edit(old(state)@, order_index(order as int), f@),
{
    let index: usize = if order > 0 {
        order - 1
    } else {
        0
    };
    if index < state.current.sessions.len() {
        edit_in(&mut state.current.sessions, index, f);
        edit_in(&mut state.next.sessions, index, f);
        true
    } else {
        false
    }
}

fn highest_in(sessions: &Vec<TrainingSession>) -> (r: i32)
    ensures
        r as int == highest_id(sessions_view(sessions@)),
        -1 <= r <= 255,
{
    let ghost sv = sessions_view(sessions@);
    let mut best: i32 = -1;
    let mut i: usize = 0;
    while i < sessions.len()
        invariant
            i <= sessions.len(),
            sv == sessions_view(sessions@),
            -1 <= best <= 255,
            best as int == highest_id(sv.take(i as int)),
        decreases sessions.len() - i,
    {
        assert(sv.take(i + 1).drop_last() =~= sv.take(i as int));
        assert(sv.take(i + 1).last() == sessions@[i as int]@);
        let id = sessions[i].id as i32;
        if best < id {
            best = id;
        }
        i = i + 1;
    }
    assert(sv.take(sessions.len() as int) =~= sv);
    best
}

/// The id of a new session: one more than the largest in either week.
pub fn next_session_id(state: &WeeklyAttendance) -> (id: i32)
    ensures
        id as int == fresh_id(state@),
        1 <= id <= 256,
{
    let a = highest_in(&state.current.sessions);
    let b = highest_in(&state.next.sessions);
    let m = if a < b {
        b
    } else {
        a
    };
    if m < 0 {
        1
    } else {
        m + 1
    }
}

fn place_in(sessions: &mut Vec<TrainingSession>, order: usize, s: TrainingSession)
    ensures
        sessions_view(final(sessions)@) == placed(sessions_view(old(sessions)@), order as int, s@),
{
    let ghost before = sessions@;
    if order > 0 && order <= sessions.len() {
        sessions.insert(order - 1, s);
        assert(sessions_view(sessions@) =~= sessions_view(before).insert(order - 1, s@));
    } else {
        sessions.push(s);
        assert(sessions_view(sessions@) =~= sessions_view(before).push(s@));
    }
}

/// `/add`: adds a session without sign-ups to both weeks, at position `order`
/// (counted from 1) where the week has one, else at the end. Its id is one
/// more than the largest in either week, which must leave room for it.
pub fn add_session(state: &mut WeeklyAttendance, order: usize, f: &SessionFields)
    requires
        fresh_id(old(state)@) <= 255,
    ensures
        final(state)@ == after_add(old(state)@, order as int, f@),
{
    let id = next_session_id(state) as u8;
    let a = TrainingSession {
        id,
        activity: f.activity.clone(),
        location: f.location.clone(),
        day: f.day.clone(),
        attendees: Vec::new(),
        time: f.time.clone(),
    };
    let b = TrainingSession {
        id,
        activity: f.activity.clone(),
        location: f.location.clone(),
        day: f.day.clone(),
        attendees: Vec::new(),
        time: f.time.clone(),
    };
    assert(a@ == new_session(id, f@));
    place_in(&mut state.current.sessions, order, a);
    place_in(&mut state.next.sessions, order, b);
}

/// `/delete`: removes the session at position `order` (0 counting as 1) from
/// both weeks. Says whether the current week has that session.
pub fn delete_session(state: &mut WeeklyAttendance, order: u8) -> (found: bool)
    ensures
        found == (order_index(order as int) < old(state)@.current.sessions.len()),
        final(state)@ == after_delete(old(state)@, order_index(order as int)),
{
    let index: usize = if order > 0 {
        (order - 1) as usize
    } else {
        0
    };
    if index < state.current.sessions.len() {
        let ghost c = state.current.sessions@;
        let ghost n = state.next.sessions@;
        state.current.sessions.remove(index);
        assert(sessions_view(state.current.sessions@) =~= sessions_view(c).remove(index as int));
        if index < state.next.sessions.len() {
            state.next.sessions.remove(index);
            assert(sessions_view(state.next.sessions@) =~= sessions_view(n).remove(index as int));
        }
        true
    } else {
        false
    }
}

/// Copies of the sessions without their sign-ups.
pub fn cleared_sessions(sessions: &Vec<TrainingSession>) -> (r: Vec<TrainingSession>)
    ensures
        sessions_view(r@) == cleared(sessions_view(sessions@)),
{
    let mut r: Vec<TrainingSession> = Vec::new();
    let mut i: usize = 0;
    while i < sessions.len()
        invariant
            i <= sessions.len(),
            r@.len() == i,
            forall|k: int|
                0 <= k < i ==> (#[trigger] r@[k])@ == (SessionView {
                    attendees: Seq::<crate::model::Attendee>::empty(),
                    ..sessions@[k]@
                }),
        decreases sessions.len() - i,
    {
        let s = &sessions[i];
        let mut c = s.copy();
        c.attendees = Vec::new();
        r.push(c);
        i = i + 1;
    }
    assert(sessions_view(r@) =~= cleared(sessions_view(sessions@)));
    r
}

/// `/new_week` on day `today`: the next week becomes the current one and a
/// new next week follows, a week after `today`, with the same sessions and
/// no sign-ups.
pub fn roll_week_at(state: &mut WeeklyAttendance, today: i32)
    requires
        is_calendar_day(today as int),
        is_calendar_day(today + 13),
    ensures
        final(state)@ == after_roll(old(state)@, today as int),
{
    state.current = state.next.copy();
    let start = match parse_day_month(state.current.start_date.as_str()) {
        Some(d) => d,
        None => today,
    };
    let next_start = start + 7;
    let next_end = next_start + 6;
    let sessions = cleared_sessions(&state.current.sessions);
    state.next = WeekData {
        start_date: format_day_month(next_start),
        end_date: format_day_month(next_end),
        sessions,
    };
}

} // verus!
