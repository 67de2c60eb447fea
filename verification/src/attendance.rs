//! Signing up by pressing a session's button: the first press adds the
//! member, later presses cancel and restore the sign-up in turn.
use crate::keyboard::{keyboard_view, main_menu_keyboard, session_keyboard, Keyboard};
use crate::model::{
    attendee_index, find_attendee, lemma_first_index, registry_view, session_index,
    AttendanceView, Attendee, SessionView, UserProfile, WeekData, WeekView,
    WeeklyAttendance,
};
use crate::report::{attendance_report, generate_attendance_report};
use crate::text::{
    chars_equal, chars_of, parse_unsigned, parse_unsigned_chars, split_chars, split_on,
    strip_prefix, strip_prefix_chars, string_of, texts_view,
};
use vstd::prelude::*;

verus! {

broadcast use vstd::std_specs::hash::group_hash_axioms;

/// The sign-ups after `user_id` pressed: a listed member's sign-up is
/// cancelled or restored, anyone else is added, not cancelled.
pub open spec fn toggled(attendees: Seq<Attendee>, user_id: u64) -> Seq<Attendee> {
    let i = attendee_index(attendees, user_id);
    if i >= 0 {
        attendees.update(i, Attendee { user_id, cancelled: !attendees[i].cancelled })
    } else {
        attendees.push(Attendee { user_id, cancelled: false })
    }
}

/// The sessions after `user_id` pressed the button of session `session_id`;
/// unchanged when no session has that id.
pub open spec fn pressed(sessions: Seq<SessionView>, session_id: u8, user_id: u64) -> Seq<
    SessionView,
> {
    let i = session_index(sessions, session_id);
    if i >= 0 {
        sessions.update(
            i,
            SessionView { attendees: toggled(sessions[i].attendees, user_id), ..sessions[i] },
        )
    } else {
        sessions
    }
}

/// The week type and session id that button data `checkin_{week}_{id}` names.
pub open spec fn checkin_target(data: Seq<char>) -> Option<(Seq<char>, u8)> {
    match strip_prefix(data, "checkin_"@) {
        Some(rest) => {
            let parts = split_on(rest, '_');
            if parts.len() == 2 {
                match parse_unsigned(parts[1], 255) {
                    Some(v) => Some((parts[0], v as u8)),
                    None => None,
                }
            } else {
                None
            }
        },
        None => None,
    }
}

/// The week that a week type selects: `c` the current one, anything else the next.
pub open spec fn selected_week(att: AttendanceView, week_type: Seq<char>) -> WeekView {
    if week_type == "c"@ {
        att.current
    } else {
        att.next
    }
}

/// `att` with the selected week replaced by `week`.
pub open spec fn with_selected_week(att: AttendanceView, week_type: Seq<char>, week: WeekView) -> AttendanceView {
    if week_type == "c"@ {
        AttendanceView { current: week, ..att }
    } else {
        AttendanceView { next: week, ..att }
    }
}

/// The state after a member pressed a button with data `data`: a
/// well-formed press records the member's name, then toggles the sign-up
/// when the session exists.
pub open spec fn after_press(att: AttendanceView, user_id: u64, name: Seq<char>, data: Seq<char>) -> AttendanceView {
    match checkin_target(data) {
        Some((week_type, session_id)) => {
            let week = selected_week(att, week_type);
            with_selected_week(
                AttendanceView { registry: att.registry.insert(user_id, name), ..att },
                week_type,
                WeekView { sessions: pressed(week.sessions, session_id, user_id), ..week },
            )
        },
        None => att,
    }
}

/// Whether the press found its session.
pub open spec fn press_found(att: AttendanceView, data: Seq<char>) -> bool {
    match checkin_target(data) {
        Some((week_type, session_id)) => session_index(
            selected_week(att, week_type).sessions,
            session_id,
        ) >= 0,
        None => false,
    }
}

/// What answers a press: the refreshed report and keyboard of the week
/// when the session was found.
pub struct PressReply {
    pub text: String,
    pub keyboard: Keyboard,
}

/// Toggles `user_id`'s sign-up.
pub fn toggle_attendance(attendees: &mut Vec<Attendee>, user_id: u64)
    ensures
        final(attendees)@ == toggled(old(attendees)@, user_id),
{
    proof {
        lemma_first_index(old(attendees)@, |a: Attendee| a.user_id == user_id);
    }
    match find_attendee(attendees, user_id) {
        Some(i) => {
            let c = attendees[i].cancelled;
            attendees.set(i, Attendee { user_id, cancelled: !c });
        },
        None => {
            attendees.push(Attendee { user_id, cancelled: false });
        },
    }
}

/// Presses the button of session `session_id` in `week` for `user_id`;
/// says whether the session exists.
pub fn press_session(week: &mut WeekData, session_id: u8, user_id: u64) -> (found: bool)
    ensures
        found == (session_index(old(week)@.sessions, session_id) >= 0),
        final(week)@ == (WeekView {
            sessions: pressed(old(week)@.sessions, session_id, user_id),
            ..old(week)@
        }),
{
    let ghost old_week = week@;
    let ghost old_sessions = week.sessions@;
    let ghost i = session_index(old_week.sessions, session_id);
    proof {
        lemma_first_index(old_week.sessions, |s: SessionView| s.id == session_id);
    }
    match week.get_session_mut(session_id) {
        Some(s) => {
            let ghost before = *s;
            toggle_attendance(&mut s.attendees, user_id);
            let ghost after = *s;
            assert(after@ == SessionView {
                attendees: toggled(before@.attendees, user_id),
                ..before@
            });
            assert(week.sessions@ == old_sessions.update(i, after));
            assert(week@.sessions =~= pressed(old_week.sessions, session_id, user_id));
            true
        },
        None => false,
    }
}

/// Reads `checkin_{week}_{id}` button data.
pub fn parse_checkin(data: &str) -> (r: Option<(Vec<char>, u8)>)
    ensures
        match r {
            Some((w, id)) => checkin_target(data@) == Some((w@, id)),
            None => checkin_target(data@) is None,
        },
{
    let chars = chars_of(data);
    let prefix = chars_of("checkin_");
    match strip_prefix_chars(&chars, &prefix) {
        Some(rest) => {
            let mut parts = split_chars(&rest, '_');
            if parts.len() == 2 {
                assert(texts_view(parts@)[1] == parts@[1]@);
                assert(texts_view(parts@)[0] == parts@[0]@);
                match parse_unsigned_chars(&parts[1], 255) {
                    Some(v) => {
                        let w = parts.remove(0);
                        Some((w, v as u8))
                    },
                    None => None,
                }
            } else {
                None
            }
        },
        None => None,
    }
}

/// Records a press of the button with data `data` by `user_id`, whose
/// display name is `display_name`. Answers with the refreshed report and
/// keyboard when the session exists, `None` otherwise.
pub fn receive_press(
    state: &mut WeeklyAttendance,
    user_id: u64,
    display_name: String,
    data: &str,
) -> (r: Option<PressReply>)
    ensures
        final(state)@ == after_press(old(state)@, user_id, display_name@, data@),
        r is Some == press_found(old(state)@, data@),
        r matches Some(reply) ==> ({
            let (week_type, _) = checkin_target(data@)->0;
            let week = selected_week(final(state)@, week_type);
            &&& reply.text@ == attendance_report(week, final(state)@.registry)
            &&& keyboard_view(reply.keyboard@) == session_keyboard(week.sessions, week_type)
        }),
{
    match parse_checkin(data) {
        Some((week_type, session_id)) => {
            let ghost old_reg = state.user_registry@;
            state.user_registry.insert(user_id, UserProfile { alias: display_name });
            assert(registry_view(state.user_registry@) =~= registry_view(old_reg).insert(
                user_id,
                display_name@,
            ));
            let c = chars_of("c");
            let is_current = chars_equal(&week_type, &c);
            let found = if is_current {
                press_session(&mut state.current, session_id, user_id)
            } else {
                press_session(&mut state.next, session_id, user_id)
            };
            if found {
                let wt = string_of(&week_type);
                let week = if is_current {
                    &state.current
                } else {
                    &state.next
                };
                let text = generate_attendance_report(week, &state.user_registry);
                let keyboard = main_menu_keyboard(&week.sessions, wt.as_str());
                Some(PressReply { text, keyboard })
            } else {
                None
            }
        },
        None => None,
    }
}

} // verus!
