//! The attendance data: sessions, weeks, the pair of weeks with the
//! registry of members' names, and their mathematical views.
use std::collections::HashMap;
use vstd::prelude::*;

verus! {

/// A member's display name.
#[derive(Debug)]
pub struct UserProfile {
    pub alias: String,
}

/// A member signed up for a session; a cancelled sign-up stays listed.
#[derive(Debug, Clone, Copy, PartialEq, Eq, Structural)]
pub struct Attendee {
    pub user_id: u64,
    pub cancelled: bool,
}

/// One training session of a week.
#[derive(Debug)]
pub struct TrainingSession {
    pub id: u8,
    pub activity: String,
    pub location: String,
    pub day: String,
    pub attendees: Vec<Attendee>,
    pub time: String,
}

pub struct SessionView {
    pub id: u8,
    pub activity: Seq<char>,
    pub location: Seq<char>,
    pub day: Seq<char>,
    pub attendees: Seq<Attendee>,
    pub time: Seq<char>,
}

impl View for TrainingSession {
    type V = SessionView;

    open spec fn view(&self) -> SessionView {
        SessionView {
            id: self.id,
            activity: self.activity@,
            location: self.location@,
            day: self.day@,
            attendees: self.attendees@,
            time: self.time@,
        }
    }
}

/// The sessions of one week with the week's first and last day.
#[derive(Debug)]
pub struct WeekData {
    pub start_date: String,
    pub end_date: String,
    pub sessions: Vec<TrainingSession>,
}

pub struct WeekView {
    pub start_date: Seq<char>,
    pub end_date: Seq<char>,
    pub sessions: Seq<SessionView>,
}

pub open spec fn sessions_view(s: Seq<TrainingSession>) -> Seq<SessionView> {
    s.map_values(|x: TrainingSession| x@)
}

impl View for WeekData {
    type V = WeekView;

    open spec fn view(&self) -> WeekView {
        WeekView {
            start_date: self.start_date@,
            end_date: self.end_date@,
            sessions: sessions_view(self.sessions@),
        }
    }
}

/// A personal workout that a member logged.
#[derive(Debug)]
pub struct WorkoutEntry {
    pub user_id: u64,
    pub activity: String,
    pub details: String,
}

pub struct WorkoutView {
    pub user_id: u64,
    pub activity: Seq<char>,
    pub details: Seq<char>,
}

impl View for WorkoutEntry {
    type V = WorkoutView;

    open spec fn view(&self) -> WorkoutView {
        WorkoutView { user_id: self.user_id, activity: self.activity@, details: self.details@ }
    }
}

pub open spec fn workouts_view(w: Seq<WorkoutEntry>) -> Seq<WorkoutView> {
    w.map_values(|x: WorkoutEntry| x@)
}

/// The current week, the next week, the names of the members who have
/// pressed a button, and the workouts that members logged, oldest first.
#[derive(Debug)]
pub struct WeeklyAttendance {
    pub current: WeekData,
    pub next: WeekData,
    pub user_registry: HashMap<u64, UserProfile>,
    pub workout_log: Vec<WorkoutEntry>,
}

pub struct AttendanceView {
    pub current: WeekView,
    pub next: WeekView,
    pub registry: Map<u64, Seq<char>>,
    pub workouts: Seq<WorkoutView>,
}

pub open spec fn registry_view(m: Map<u64, UserProfile>) -> Map<u64, Seq<char>> {
    m.map_values(|p: UserProfile| p.alias@)
}

impl View for WeeklyAttendance {
    type V = AttendanceView;

    open spec fn view(&self) -> AttendanceView {
        AttendanceView {
            current: self.current@,
            next: self.next@,
            registry: registry_view(self.user_registry@),
            workouts: workouts_view(self.workout_log@),
        }
    }
}

/// The index of the first element of `s` that satisfies `p`, or -1.
pub open spec fn first_index<A>(s: Seq<A>, p: spec_fn(A) -> bool) -> int
    decreases s.len(),
{
    if s.len() == 0 {
        -1
    } else if p(s[0]) {
        0
    } else {
        let r = first_index(s.drop_first(), p);
        if r < 0 {
            -1
        } else {
            r + 1
        }
    }
}

pub proof fn lemma_first_index<A>(s: Seq<A>, p: spec_fn(A) -> bool)
    ensures
        -1 <= first_index(s, p) < s.len(),
        first_index(s, p) >= 0 ==> p(s[first_index(s, p)]),
        forall|j: int| 0 <= j < first_index(s, p) ==> !p(#[trigger] s[j]),
        first_index(s, p) < 0 ==> forall|j: int| 0 <= j < s.len() ==> !p(#[trigger] s[j]),
    decreases s.len(),
{
    if s.len() > 0 && !p(s[0]) {
        lemma_first_index(s.drop_first(), p);
        assert forall|j: int| 0 < j < s.len() implies s[j] == s.drop_first()[j - 1] by {}
        let r = first_index(s, p);
        if r < 0 {
            assert forall|j: int| 0 <= j < s.len() implies !p(#[trigger] s[j]) by {
                if j > 0 {
                    assert(s[j] == s.drop_first()[j - 1]);
                }
            }
        } else {
            assert forall|j: int| 0 <= j < r implies !p(#[trigger] s[j]) by {
                if j > 0 {
                    assert(s[j] == s.drop_first()[j - 1]);
                }
            }
        }
    }
}

/// The first index characterizes `first_index`.
pub proof fn lemma_first_index_is<A>(s: Seq<A>, p: spec_fn(A) -> bool, i: int)
    requires
        -1 <= i < s.len(),
        i >= 0 ==> p(s[i]),
        forall|j: int| 0 <= j < i ==> !p(#[trigger] s[j]),
        i < 0 ==> forall|j: int| 0 <= j < s.len() ==> !p(#[trigger] s[j]),
    ensures
        first_index(s, p) == i,
{
    lemma_first_index(s, p);
    let r = first_index(s, p);
    if r >= 0 && i >= 0 {
        if r < i {
            assert(!p(s[r]));
        } else if i < r {
            assert(!p(s[i]));
        }
    } else if r >= 0 {
        assert(!p(s[r]));
    } else if i >= 0 {
        assert(!p(s[i]));
    }
}

/// Where the session with `id` stands in `sessions` (the first such), or -1.
pub open spec fn session_index(sessions: Seq<SessionView>, id: u8) -> int {
    first_index(sessions, |s: SessionView| s.id == id)
}

/// Where `user_id` stands in `attendees` (the first such), or -1.
pub open spec fn attendee_index(attendees: Seq<Attendee>, user_id: u64) -> int {
    first_index(attendees, |a: Attendee| a.user_id == user_id)
}

/// The index of the session with `id` in `sessions`, the first if several.
pub fn find_session(sessions: &Vec<TrainingSession>, id: u8) -> (r: Option<usize>)
    ensures
        match r {
            Some(i) => i as int == session_index(sessions_view(sessions@), id),
            None => session_index(sessions_view(sessions@), id) == -1,
        },
{
    let ghost sv = sessions_view(sessions@);
    let ghost p = |s: SessionView| s.id == id;
    let mut i: usize = 0;
    while i < sessions.len()
        invariant
            i <= sessions.len(),
            sv == sessions_view(sessions@),
            p == (|s: SessionView| s.id == id),
            forall|j: int| 0 <= j < i ==> !p(#[trigger] sv[j]),
        decreases sessions.len() - i,
    {
        assert(sv[i as int] == sessions@[i as int]@);
        if sessions[i].id == id {
            proof {
                lemma_first_index_is(sv, p, i as int);
            }
            return Some(i);
        }
        i = i + 1;
    }
    proof {
        lemma_first_index_is(sv, p, -1);
    }
    None
}

/// The index of `user_id` among `attendees`, the first if several.
pub fn find_attendee(attendees: &Vec<Attendee>, user_id: u64) -> (r: Option<usize>)
    ensures
        match r {
            Some(i) => i as int == attendee_index(attendees@, user_id),
            None => attendee_index(attendees@, user_id) == -1,
        },
{
    let ghost p = |a: Attendee| a.user_id == user_id;
    let mut i: usize = 0;
    while i < attendees.len()
        invariant
            i <= attendees.len(),
            p == (|a: Attendee| a.user_id == user_id),
            forall|j: int| 0 <= j < i ==> !p(#[trigger] attendees@[j]),
        decreases attendees.len() - i,
    {
        if attendees[i].user_id == user_id {
            proof {
                lemma_first_index_is(attendees@, p, i as int);
            }
            return Some(i);
        }
        i = i + 1;
    }
    proof {
        lemma_first_index_is(attendees@, p, -1);
    }
    None
}

/// A copy of a list of sign-ups.
pub fn copy_attendees(a: &Vec<Attendee>) -> (r: Vec<Attendee>)
    ensures
        r@ == a@,
{
    let mut r: Vec<Attendee> = Vec::new();
    let mut i: usize = 0;
    while i < a.len()
        invariant
            i <= a.len(),
            r@ == a@.take(i as int),
        decreases a.len() - i,
    {
        r.push(a[i]);
        i = i + 1;
        assert(r@ =~= a@.take(i as int));
    }
    assert(a@.take(a.len() as int) =~= a@);
    r
}

impl TrainingSession {
    /// A copy of this session.
    pub fn copy(&self) -> (r: TrainingSession)
        ensures
            r@ == self@,
    {
        TrainingSession {
            id: self.id,
            activity: self.activity.clone(),
            location: self.location.clone(),
            day: self.day.clone(),
            attendees: copy_attendees(&self.attendees),
            time: self.time.clone(),
        }
    }
}

/// A copy of a list of sessions.
pub fn copy_sessions(s: &Vec<TrainingSession>) -> (r: Vec<TrainingSession>)
    ensures
        sessions_view(r@) == sessions_view(s@),
{
    let mut r: Vec<TrainingSession> = Vec::new();
    let mut i: usize = 0;
    while i < s.len()
        invariant
            i <= s.len(),
            r@.len() == i,
            forall|k: int| 0 <= k < i ==> (#[trigger] r@[k])@ == s@[k]@,
        decreases s.len() - i,
    {
        let c = s[i].copy();
        r.push(c);
        i = i + 1;
    }
    assert(sessions_view(r@) =~= sessions_view(s@));
    r
}

impl WeekData {
    /// A copy of this week.
    pub fn copy(&self) -> (r: WeekData)
        ensures
            r@ == self@,
    {
        WeekData {
            start_date: self.start_date.clone(),
            end_date: self.end_date.clone(),
            sessions: copy_sessions(&self.sessions),
        }
    }

    /// The session with `session_id` (the first if several), for changing it.
    pub fn get_session_mut(&mut self, session_id: u8) -> (r: Option<&mut TrainingSession>)
        ensures
            session_index(old(self)@.sessions, session_id) == -1 ==> r is None && *final(self)
                == *old(self),
            session_index(old(self)@.sessions, session_id) >= 0 ==> r is Some && {
                let i = session_index(old(self)@.sessions, session_id);
                &&& *r->0 == old(self).sessions@[i]
                &&& final(self).start_date == old(self).start_date
                &&& final(self).end_date == old(self).end_date
                &&& final(self).sessions@ == old(self).sessions@.update(i, *final(r->0))
            },
    {
        proof {
            lemma_first_index(sessions_view(self.sessions@), |s: SessionView| s.id == session_id);
        }
        match find_session(&self.sessions, session_id) {
            Some(i) => Some(&mut self.sessions[i]),
            None => None,
        }
    }
}

} // verus!
