//! The bot's commands: what each one does to the attendance and what it
//! answers. Sending the answer, and writing sign-ups to the database, is
//! left to the caller.
use crate::calendar::{is_calendar_day, local_today, LAST_DAY};
use crate::keyboard::{keyboard_view, main_menu_keyboard, session_keyboard, ButtonView, Keyboard};
use crate::model::{AttendanceView, Attendee, SessionView, WeeklyAttendance};
use crate::report::{
    attendance_report, generate_attendance_report, generate_log_report, log_report, name_of,
    shown_name,
};
use crate::schedule::{
    add_session, after_add, after_delete, after_edit, after_roll, delete_session, edit_session,
    fresh_id, next_session_id, order_index, parse_session_arguments, roll_week_at,
    session_arguments,
};
use crate::text::decimal;
use crate::workouts::{history_text, logged, record_workout, training_history};
use vstd::prelude::*;
use vstd::string::*;

verus! {

broadcast use vstd::std_specs::hash::group_hash_axioms;

/// The commands that the bot understands.
#[derive(Debug)]
pub enum Command {
    Help,
    Show,
    ShowNext,
    NewWeek,
    Add(String),
    Delete(u8),
    Edit(String),
    Save,
    Log(String),
    History,
}

pub enum CommandView {
    Help,
    Show,
    ShowNext,
    NewWeek,
    Add(Seq<char>),
    Delete(u8),
    Edit(Seq<char>),
    Save,
    Log(Seq<char>),
    History,
}

impl View for Command {
    type V = CommandView;

    open spec fn view(&self) -> CommandView {
        match self {
            Command::Help => CommandView::Help,
            Command::Show => CommandView::Show,
            Command::ShowNext => CommandView::ShowNext,
            Command::NewWeek => CommandView::NewWeek,
            Command::Add(a) => CommandView::Add(a@),
            Command::Delete(o) => CommandView::Delete(*o),
            Command::Edit(a) => CommandView::Edit(a@),
            Command::Save => CommandView::Save,
            Command::Log(a) => CommandView::Log(a@),
            Command::History => CommandView::History,
        }
    }
}

/// A message to send: its text, whether it is HTML, and its keyboard if any.
#[derive(Debug)]
pub struct Reply {
    pub text: String,
    pub html: bool,
    pub keyboard: Option<Keyboard>,
}

pub struct ReplyView {
    pub text: Seq<char>,
    pub html: bool,
    pub keyboard: Option<Seq<Seq<ButtonView>>>,
}

impl View for Reply {
    type V = ReplyView;

    open spec fn view(&self) -> ReplyView {
        ReplyView {
            text: self.text@,
            html: self.html,
            keyboard: match &self.keyboard {
                Some(k) => Some(keyboard_view(k@)),
                None => None,
            },
        }
    }
}

/// A sign-up as it is written to the attendance table.
#[derive(Debug)]
pub struct AttendanceRow {
    pub session_id: u8,
    pub user_id: u64,
    pub user_alias: String,
}

pub struct RowView {
    pub session_id: u8,
    pub user_id: u64,
    pub user_alias: Seq<char>,
}

impl View for AttendanceRow {
    type V = RowView;

    open spec fn view(&self) -> RowView {
        RowView { session_id: self.session_id, user_id: self.user_id, user_alias: self.user_alias@ }
    }
}

pub open spec fn rows_view(rows: Seq<AttendanceRow>) -> Seq<RowView> {
    rows.map_values(|r: AttendanceRow| r@)
}

/// What a command asks of the caller: send a message, or replace the
/// attendance table's rows and then send a message.
#[derive(Debug)]
pub enum Outcome {
    Message(Reply),
    Sync { rows: Vec<AttendanceRow>, then: Reply },
    /// The sender may not give the command; nothing is sent.
    Refused,
}

pub enum OutcomeView {
    Message(ReplyView),
    Sync { rows: Seq<RowView>, then: ReplyView },
    Refused,
}

impl View for Outcome {
    type V = OutcomeView;

    open spec fn view(&self) -> OutcomeView {
        match self {
            Outcome::Message(r) => OutcomeView::Message(r@),
            Outcome::Sync { rows, then } => OutcomeView::Sync { rows: rows_view(rows@), then: then@ },
            Outcome::Refused => OutcomeView::Refused,
        }
    }
}

/// The rows of the sign-ups of a session that are not cancelled.
pub open spec fn attendee_rows(registry: Map<u64, Seq<char>>, session_id: u8, attendees: Seq<Attendee>) -> Seq<RowView>
    decreases attendees.len(),
{
    if attendees.len() == 0 {
        Seq::<RowView>::empty()
    } else {
        let rest = attendee_rows(registry, session_id, attendees.drop_last());
        let a = attendees.last();
        if a.cancelled {
            rest
        } else {
            rest.push(RowView { session_id, user_id: a.user_id, user_alias: shown_name(registry, a.user_id) })
        }
    }
}

/// The rows of all sign-ups that are not cancelled, session by session.
pub open spec fn sync_rows(registry: Map<u64, Seq<char>>, sessions: Seq<SessionView>) -> Seq<RowView>
    decreases sessions.len(),
{
    if sessions.len() == 0 {
        Seq::<RowView>::empty()
    } else {
        sync_rows(registry, sessions.drop_last()) + attendee_rows(
            registry,
            sessions.last().id,
            sessions.last().attendees,
        )
    }
}

pub open spec fn plain(text: Seq<char>) -> ReplyView {
    ReplyView { text, html: false, keyboard: None }
}

/// The current week's report with `prefix` before it, and its keyboard.
pub open spec fn current_week_reply(att: AttendanceView, prefix: Seq<char>) -> ReplyView {
    ReplyView {
        text: prefix + attendance_report(att.current, att.registry),
        html: true,
        keyboard: Some(session_keyboard(att.current.sessions, "c"@)),
    }
}

pub open spec fn help_text() -> Seq<char> {
    "<b>🔱 Aquathallyon Bot Help</b>\n\n<b>Member Commands</b>\n/history - View your training history\n/log - Record a personal workout\n\n<b>Manage week</b>\n/show - View current week's attendance\n/show_next - View next week's attendance\n/new_week - Roll to next week\n\n<b>Edit activities</b>\n/add - Create a new session (both weeks)\n/edit - Modify a session (both weeks)\n/delete - Remove a session (both weeks)\n/save - Sync current week to database\n\n<i>Tip: Separate arguments with commas. \n The format is (order), (day), (activity), (location), (time)</i>"@
}

/// The commands that change the schedule, which only the administrator
/// may give.
pub open spec fn admin_only(cmd: CommandView) -> bool {
    cmd is Add || cmd is Edit || cmd is Delete || cmd is NewWeek
}

/// The state after `sender` gave a command on day `today`; a schedule change
/// from anyone but the administrator changes nothing.
pub open spec fn command_state(att: AttendanceView, cmd: CommandView, sender: u64, is_admin: bool, today: int) -> AttendanceView {
    if admin_only(cmd) && !is_admin {
        att
    } else {
        match cmd {
            CommandView::NewWeek => after_roll(att, today),
            CommandView::Edit(args) => match session_arguments(args, 0) {
                Some((order, f)) => after_edit(att, order_index(order as int), f),
                None => att,
            },
            CommandView::Add(args) => match session_arguments(args, 1) {
                Some((order, f)) => after_add(att, order as int, f),
                None => att,
            },
            CommandView::Delete(order) => after_delete(att, order_index(order as int)),
            CommandView::Log(args) => logged(att, sender, args),
            _ => att,
        }
    }
}

/// What a command from `sender` answers, given the state before it and day
/// `today`; a schedule change from anyone but the administrator is refused.
pub open spec fn command_outcome(att: AttendanceView, cmd: CommandView, sender: u64, is_admin: bool, today: int) -> OutcomeView {
    let post = command_state(att, cmd, sender, is_admin, today);
    if admin_only(cmd) && !is_admin {
        OutcomeView::Refused
    } else {
        match cmd {
            CommandView::Help => OutcomeView::Message(ReplyView { text: help_text(), html: true, keyboard: None }),
            CommandView::Show => OutcomeView::Message(current_week_reply(att, Seq::<char>::empty())),
            CommandView::History => OutcomeView::Message(ReplyView {
                text: history_text(att.workouts, sender),
                html: true,
                keyboard: None,
            }),
            CommandView::ShowNext => OutcomeView::Message(ReplyView {
                text: attendance_report(att.next, att.registry),
                html: true,
                keyboard: Some(session_keyboard(att.next.sessions, "n"@)),
            }),
            CommandView::Log(_) => OutcomeView::Message(ReplyView {
                text: log_report(post.current),
                html: true,
                keyboard: Some(session_keyboard(post.current.sessions, "c"@)),
            }),
            CommandView::NewWeek => OutcomeView::Message(current_week_reply(post, "🔄 <b>Week Rolled Forward!</b>\n\n"@)),
            CommandView::Save => OutcomeView::Sync {
                rows: sync_rows(att.registry, att.current.sessions),
                then: plain("✅ Current week attendance synced to Turso!"@),
            },
            CommandView::Edit(args) => match session_arguments(args, 0) {
                Some((order, _)) => if order_index(order as int) < att.current.sessions.len() {
                    OutcomeView::Message(current_week_reply(
                        post,
                        "📝 <b>Session #"@ + decimal(order) + " updated for both weeks.</b>\n\n"@,
                    ))
                } else {
                    OutcomeView::Message(plain("⚠️ Session #"@ + decimal(order) + " not found."@))
                },
                None => OutcomeView::Message(plain("❌ Format: /edit order, day, activity, location, time"@)),
            },
            CommandView::Add(args) => match session_arguments(args, 1) {
                Some(_) => OutcomeView::Message(current_week_reply(post, "➕ <b>New session added to both weeks.</b>\n\n"@)),
                None => OutcomeView::Message(plain("❌ Format: /add order, day, activity, location, time"@)),
            },
            CommandView::Delete(order) => if order_index(order as int) < att.current.sessions.len() {
                OutcomeView::Message(current_week_reply(
                    post,
                    "🗑️ <b>Session #"@ + decimal(order as nat) + " deleted from both weeks.</b>\n\n"@,
                ))
            } else {
                OutcomeView::Message(plain("⚠️ Order #"@ + decimal(order as nat) + " not found."@))
            },
        }
    }
}

/// Whether a command can be carried out without an arithmetic overflow:
/// `/add` needs a free session id and `/new_week` a representable date
/// two weeks on. A refused command always can.
pub open spec fn command_fits(att: AttendanceView, cmd: CommandView, is_admin: bool, today: int) -> bool {
    if admin_only(cmd) && !is_admin {
        true
    } else {
        match cmd {
            CommandView::Add(args) => session_arguments(args, 1) is Some ==> fresh_id(att) <= 255,
            CommandView::NewWeek => is_calendar_day(today) && is_calendar_day(today + 13),
            _ => true,
        }
    }
}

/// The rows of the current week's sign-ups that are not cancelled.
pub fn attendance_rows(state: &WeeklyAttendance) -> (rows: Vec<AttendanceRow>)
    ensures
        rows_view(rows@) == sync_rows(state@.registry, state@.current.sessions),
{
    let ghost reg = state@.registry;
    let ghost sv = state@.current.sessions;
    let sessions = &state.current.sessions;
    let mut rows: Vec<AttendanceRow> = Vec::new();
    let mut i: usize = 0;
    while i < sessions.len()
        invariant
            i <= sessions.len(),
            reg == state@.registry,
            sv == state@.current.sessions,
            sessions == &state.current.sessions,
            rows_view(rows@) == sync_rows(reg, sv.take(i as int)),
        decreases sessions.len() - i,
    {
        let s = &sessions[i];
        assert(sv.take(i + 1).drop_last() =~= sv.take(i as int));
        assert(sv.take(i + 1).last() == s@);
        let ghost base = rows_view(rows@);
        let mut j: usize = 0;
        while j < s.attendees.len()
            invariant
                j <= s.attendees.len(),
                reg == state@.registry,
                rows_view(rows@) == base + attendee_rows(reg, s.id, s.attendees@.take(j as int)),
            decreases s.attendees.len() - j,
        {
            let a = s.attendees[j];
            assert(s.attendees@.take(j + 1).drop_last() =~= s.attendees@.take(j as int));
            if !a.cancelled {
                let alias = name_of(&state.user_registry, a.user_id);
                let ghost before = rows@;
                rows.push(AttendanceRow { session_id: s.id, user_id: a.user_id, user_alias: alias });
                assert(rows_view(rows@) =~= rows_view(before).push(RowView {
                    session_id: s.id,
                    user_id: a.user_id,
                    user_alias: shown_name(reg, a.user_id),
                }));
            }
            j = j + 1;
        }
        assert(s.attendees@.take(s.attendees.len() as int) =~= s.attendees@);
        i = i + 1;
    }
    assert(sv.take(sessions.len() as int) =~= sv);
    rows
}

fn current_reply(state: &WeeklyAttendance, prefix: &str) -> (r: Reply)
    ensures
        r@ == current_week_reply(state@, prefix@),
{
    let mut text = String::from_str(prefix);
    let report = generate_attendance_report(&state.current, &state.user_registry);
    text.append(report.as_str());
    Reply { text, html: true, keyboard: Some(main_menu_keyboard(&state.current.sessions, "c")) }
}

fn plain_reply(text: String) -> (r: Reply)
    ensures
        r@ == plain(text@),
{
    Reply { text, html: false, keyboard: None }
}

fn numbered(before: &str, n: u64, after: &str) -> (r: String)
    ensures
        r@ == before@ + decimal(n as nat) + after@,
{
    let mut s = String::from_str(before);
    crate::text::push_decimal(&mut s, n);
    s.append(after);
    s
}

/// Whether `cmd` changes the schedule.
pub fn is_admin_only(cmd: &Command) -> (r: bool)
    ensures
        r == admin_only(cmd@),
{
    match cmd {
        Command::Add(_) | Command::Edit(_) | Command::Delete(_) | Command::NewWeek => true,
        _ => false,
    }
}

/// Carries out `cmd` from `sender` on day `today`, as the bot's command
/// handler does; `is_admin` says whether the sender is the administrator.
pub fn apply_command_on(state: &mut WeeklyAttendance, cmd: &Command, sender: u64, is_admin: bool, today: i32) -> (out: Outcome)
    requires
        command_fits(old(state)@, cmd@, is_admin, today as int),
    ensures
        final(state)@ == command_state(old(state)@, cmd@, sender, is_admin, today as int),
        out@ == command_outcome(old(state)@, cmd@, sender, is_admin, today as int),
{
    if is_admin_only(cmd) && !is_admin {
        return Outcome::Refused;
    }
    match cmd {
        Command::Help => {
            let text = String::from_str(
                "<b>🔱 Aquathallyon Bot Help</b>\n\n<b>Member Commands</b>\n/history - View your training history\n/log - Record a personal workout\n\n<b>Manage week</b>\n/show - View current week's attendance\n/show_next - View next week's attendance\n/new_week - Roll to next week\n\n<b>Edit activities</b>\n/add - Create a new session (both weeks)\n/edit - Modify a session (both weeks)\n/delete - Remove a session (both weeks)\n/save - Sync current week to database\n\n<i>Tip: Separate arguments with commas. \n The format is (order), (day), (activity), (location), (time)</i>",
            );
            Outcome::Message(Reply { text, html: true, keyboard: None })
        },
        Command::Show => {
            proof {
                reveal_strlit("");
            }
            Outcome::Message(current_reply(state, ""))
        },
        Command::History => {
            let text = training_history(state, sender);
            Outcome::Message(Reply { text, html: true, keyboard: None })
        },
        Command::ShowNext => {
            let text = generate_attendance_report(&state.next, &state.user_registry);
            let keyboard = main_menu_keyboard(&state.next.sessions, "n");
            Outcome::Message(Reply { text, html: true, keyboard: Some(keyboard) })
        },
        Command::Log(args) => {
            record_workout(state, sender, args.as_str());
            let text = generate_log_report(&state.current);
            let keyboard = main_menu_keyboard(&state.current.sessions, "c");
            Outcome::Message(Reply { text, html: true, keyboard: Some(keyboard) })
        },
        Command::NewWeek => {
            roll_week_at(state, today);
            Outcome::Message(current_reply(state, "🔄 <b>Week Rolled Forward!</b>\n\n"))
        },
        Command::Save => {
            let rows = attendance_rows(state);
            let then = plain_reply(String::from_str("✅ Current week attendance synced to Turso!"));
            Outcome::Sync { rows, then }
        },
        Command::Edit(args) => match parse_session_arguments(args.as_str(), 0) {
            Some((order, f)) => {
                if edit_session(state, order, &f) {
                    let prefix = numbered("📝 <b>Session #", order as u64, " updated for both weeks.</b>\n\n");
                    Outcome::Message(current_reply(state, prefix.as_str()))
                } else {
                    Outcome::Message(plain_reply(numbered("⚠️ Session #", order as u64, " not found.")))
                }
            },
            None => Outcome::Message(plain_reply(String::from_str("❌ Format: /edit order, day, activity, location, time"))),
        },
        Command::Add(args) => match parse_session_arguments(args.as_str(), 1) {
            Some((order, f)) => {
                add_session(state, order, &f);
                Outcome::Message(current_reply(state, "➕ <b>New session added to both weeks.</b>\n\n"))
            },
            None => Outcome::Message(plain_reply(String::from_str("❌ Format: /add order, day, activity, location, time"))),
        },
        Command::Delete(order) => {
            if delete_session(state, *order) {
                let prefix = numbered("🗑️ <b>Session #", *order as u64, " deleted from both weeks.</b>\n\n");
                Outcome::Message(current_reply(state, prefix.as_str()))
            } else {
                Outcome::Message(plain_reply(numbered("⚠️ Order #", *order as u64, " not found.")))
            }
        },
    }
}

/// Carries out `cmd` from `sender` on day `today` when it can be carried
/// out without an arithmetic overflow (see `command_fits`); answers `None`,
/// leaving the state alone, when it cannot.
pub fn apply_command_at(state: &mut WeeklyAttendance, cmd: &Command, sender: u64, is_admin: bool, today: i32) -> (out: Option<Outcome>)
    requires
        is_calendar_day(today as int),
    ensures
        out is None <==> !command_fits(old(state)@, cmd@, is_admin, today as int),
        out is None ==> *final(state) == *old(state),
        out matches Some(o) ==> final(state)@ == command_state(old(state)@, cmd@, sender, is_admin, today as int)
            && o@ == command_outcome(old(state)@, cmd@, sender, is_admin, today as int),
{
    let refused = is_admin_only(cmd) && !is_admin;
    let fits = refused || match cmd {
        Command::NewWeek => today <= LAST_DAY - 13,
        Command::Add(args) => match parse_session_arguments(args.as_str(), 1) {
            Some(_) => next_session_id(state) <= 255,
            None => true,
        },
        _ => true,
    };
    if !fits {
        return None;
    }
    Some(apply_command_on(state, cmd, sender, is_admin, today))
}

/// Carries out `cmd` from `sender`, taking today's date from the local
/// clock. Answers `None`, leaving the state alone, when the command cannot
/// be carried out: `/add` with no free session id left, or a clock date
/// within two weeks of the last date that can be represented.
pub fn apply_command(state: &mut WeeklyAttendance, cmd: &Command, sender: u64, is_admin: bool) -> (out: Option<Outcome>)
    ensures
        out is None ==> *final(state) == *old(state),
        out matches Some(o) ==> exists|today: int|
            #![trigger command_state(old(state)@, cmd@, sender, is_admin, today)]
            is_calendar_day(today) && command_fits(old(state)@, cmd@, is_admin, today)
                && final(state)@ == command_state(old(state)@, cmd@, sender, is_admin, today)
                && o@ == command_outcome(old(state)@, cmd@, sender, is_admin, today),
        out is None ==> exists|today: int|
            is_calendar_day(today) && !#[trigger] command_fits(old(state)@, cmd@, is_admin, today),
        cmd@ !is NewWeek ==> (out is None <==> !command_fits(old(state)@, cmd@, is_admin, 0)),
{
    let today = local_today();
    apply_command_at(state, cmd, sender, is_admin, today)
}

} // verus!
