//! The one-line schedule: each session is a single free-form line such as
//! `MON Swim 5pm @ USC`. The template of lines is kept as text, one session
//! per line; the admin replaces the whole list at once, and the week rolls
//! over on Sunday evening.
use crate::attendance::{toggle_attendance, toggled};
use crate::calendar::{
    day_month_text, days_from_monday, format_day_month, is_calendar_day, local_today,
    parse_day_month, weekday_from_monday, LAST_DAY, FIRST_DAY,
};
use crate::commands::{plain, Reply, ReplyView};
use crate::keyboard::{keyboard_view, ButtonSpec, ButtonView, Keyboard};
use crate::model::{
    copy_attendees, first_index, lemma_first_index, lemma_first_index_is, registry_view,
    Attendee, UserProfile,
};
use crate::report::{active_count, count_active};
use crate::text::{
    chars_equal, chars_of, decimal, filled_lines, filled_lines_of, join, lemma_join_all,
    lemma_join_step, parse_unsigned, parse_unsigned_chars, push_decimal, split_chars, split_on,
    string_of, strip_prefix, strip_prefix_chars, texts_view,
};
use std::collections::HashMap;
use vstd::prelude::*;
use vstd::string::*;

verus! {

broadcast use vstd::std_specs::hash::group_hash_axioms;

/// A session written as one line of text.
#[derive(Debug)]
pub struct LineSession {
    pub id: u8,
    pub text: String,
    pub attendees: Vec<Attendee>,
}

pub struct LineSessionView {
    pub id: u8,
    pub text: Seq<char>,
    pub attendees: Seq<Attendee>,
}

impl View for LineSession {
    type V = LineSessionView;

    open spec fn view(&self) -> LineSessionView {
        LineSessionView { id: self.id, text: self.text@, attendees: self.attendees@ }
    }
}

pub open spec fn line_sessions_view(s: Seq<LineSession>) -> Seq<LineSessionView> {
    s.map_values(|x: LineSession| x@)
}

/// A week of one-line sessions.
#[derive(Debug)]
pub struct LineWeek {
    pub start_date: String,
    pub end_date: String,
    pub sessions: Vec<LineSession>,
}

pub struct LineWeekView {
    pub start_date: Seq<char>,
    pub end_date: Seq<char>,
    pub sessions: Seq<LineSessionView>,
}

impl View for LineWeek {
    type V = LineWeekView;

    open spec fn view(&self) -> LineWeekView {
        LineWeekView {
            start_date: self.start_date@,
            end_date: self.end_date@,
            sessions: line_sessions_view(self.sessions@),
        }
    }
}

/// The current and the next week of one-line sessions, with the names of
/// the members who have pressed a button.
#[derive(Debug)]
pub struct LineAttendance {
    pub current: LineWeek,
    pub next: LineWeek,
    pub user_registry: HashMap<u64, UserProfile>,
}

pub struct LineAttendanceView {
    pub current: LineWeekView,
    pub next: LineWeekView,
    pub registry: Map<u64, Seq<char>>,
}

impl View for LineAttendance {
    type V = LineAttendanceView;

    open spec fn view(&self) -> LineAttendanceView {
        LineAttendanceView {
            current: self.current@,
            next: self.next@,
            registry: registry_view(self.user_registry@),
        }
    }
}

/// The sessions that a template's lines describe: its trimmed, non-blank
/// lines in order, numbered from 1 (numbers past 255 wrap around).
pub open spec fn template_sessions(text: Seq<char>) -> Seq<LineSessionView> {
    let lines = filled_lines(text);
    Seq::new(
        lines.len(),
        |i: int|
            LineSessionView {
                id: ((i + 1) % 256) as u8,
                text: lines[i],
                attendees: Seq::<Attendee>::empty(),
            },
    )
}

/// The lines of the sessions' texts, joined with line breaks.
pub open spec fn template_of(sessions: Seq<LineSessionView>) -> Seq<char> {
    join(sessions.map_values(|s: LineSessionView| s.text), "\n"@)
}

/// The sessions without their sign-ups.
pub open spec fn cleared_lines(sessions: Seq<LineSessionView>) -> Seq<LineSessionView> {
    sessions.map_values(|s: LineSessionView| LineSessionView { attendees: Seq::<Attendee>::empty(), ..s })
}

/// Where the session with `id` stands (the first such), or -1.
pub open spec fn line_index(sessions: Seq<LineSessionView>, id: u8) -> int {
    first_index(sessions, |s: LineSessionView| s.id == id)
}

/// The sessions after `user_id` pressed the button of session `id`.
pub open spec fn line_pressed(sessions: Seq<LineSessionView>, id: u8, user_id: u64) -> Seq<LineSessionView> {
    let i = line_index(sessions, id);
    if i >= 0 {
        sessions.update(i, LineSessionView { attendees: toggled(sessions[i].attendees, user_id), ..sessions[i] })
    } else {
        sessions
    }
}

/// The texts of the six sessions used when there is no template.
pub open spec fn default_texts() -> Seq<Seq<char>> {
    seq![
        "MON Swim 5:00 PM @ USC Pool"@,
        "TUE Run 6:00 PM @ NUS Track"@,
        "WED Swim 5:00 PM @ USC Pool"@,
        "THU Run 6:00 PM @ NUS Track"@,
        "FRI Swim 5:00 PM @ USC Pool"@,
        "SAT Bricks 8:30 AM @ Palawan Beach"@,
    ]
}

pub open spec fn default_sessions() -> Seq<LineSessionView> {
    Seq::new(
        6,
        |i: int|
            LineSessionView {
                id: (i + 1) as u8,
                text: default_texts()[i],
                attendees: Seq::<Attendee>::empty(),
            },
    )
}

/// The Monday of the week of `today`.
pub open spec fn monday_of(today: int) -> int {
    today - weekday_from_monday(today)
}

/// The state at first start: this week from its Monday and the next week,
/// both with the template's sessions (or the default six) and no sign-ups,
/// and nobody registered.
pub open spec fn first_state(template: Option<Seq<char>>, today: int) -> LineAttendanceView {
    let monday = monday_of(today);
    let sessions = match template {
        Some(t) => template_sessions(t),
        None => default_sessions(),
    };
    LineAttendanceView {
        current: LineWeekView {
            start_date: day_month_text(monday),
            end_date: day_month_text(monday + 7),
            sessions,
        },
        next: LineWeekView {
            start_date: day_month_text(monday + 7),
            end_date: day_month_text(monday + 14),
            sessions,
        },
        registry: Map::<u64, Seq<char>>::empty(),
    }
}

/// The state after rolling over on day `today`: the next week becomes the
/// current one; the new next week runs from a week after `today` to two
/// weeks after, with the same sessions and no sign-ups.
pub open spec fn line_rolled(att: LineAttendanceView, today: int) -> LineAttendanceView {
    LineAttendanceView {
        current: att.next,
        next: LineWeekView {
            start_date: day_month_text(today + 7),
            end_date: day_month_text(today + 14),
            sessions: cleared_lines(att.next.sessions),
        },
        registry: att.registry,
    }
}

/// The state after the admin sent a new list: its sessions replace both
/// weeks' sessions, unless it has none.
pub open spec fn lines_replaced(att: LineAttendanceView, list: Seq<char>) -> LineAttendanceView {
    let s = template_sessions(list);
    if s.len() > 0 {
        LineAttendanceView {
            current: LineWeekView { sessions: s, ..att.current },
            next: LineWeekView { sessions: s, ..att.next },
            ..att
        }
    } else {
        att
    }
}

/// The week type and session of button data `ck_{week}_{id}`; the id is 0
/// when it is not a number. `None` without the prefix.
pub open spec fn line_target(data: Seq<char>) -> Option<(Seq<char>, u8)> {
    match strip_prefix(data, "ck_"@) {
        Some(rest) => {
            let p = split_on(rest, '_');
            Some((p[0], match parse_unsigned(p[1], 255) {
                Some(v) => v as u8,
                None => 0u8,
            }))
        },
        None => None,
    }
}

/// Button data with the `ck_` prefix must have at least two parts after it.
pub open spec fn line_data_complete(data: Seq<char>) -> bool {
    match strip_prefix(data, "ck_"@) {
        Some(rest) => split_on(rest, '_').len() >= 2,
        None => true,
    }
}

pub open spec fn line_selected(att: LineAttendanceView, week_type: Seq<char>) -> LineWeekView {
    if week_type == "c"@ {
        att.current
    } else {
        att.next
    }
}

/// The state after a press of the button with data `data`.
pub open spec fn line_after_press(att: LineAttendanceView, user_id: u64, name: Seq<char>, data: Seq<char>) -> LineAttendanceView {
    match line_target(data) {
        Some((w, id)) => {
            let reg = att.registry.insert(user_id, name);
            let week = line_selected(att, w);
            let week2 = LineWeekView { sessions: line_pressed(week.sessions, id, user_id), ..week };
            if w == "c"@ {
                LineAttendanceView { current: week2, registry: reg, ..att }
            } else {
                LineAttendanceView { next: week2, registry: reg, ..att }
            }
        },
        None => att,
    }
}

/// The name shown for a member in the one-line report: the alias, else `?`.
pub open spec fn line_name(registry: Map<u64, Seq<char>>, user_id: u64) -> Seq<char> {
    if registry.contains_key(user_id) {
        registry[user_id]
    } else {
        "?"@
    }
}

pub open spec fn line_entry(registry: Map<u64, Seq<char>>, a: Attendee) -> Seq<char> {
    if a.cancelled {
        "<s>"@ + line_name(registry, a.user_id) + "</s>"@
    } else {
        line_name(registry, a.user_id)
    }
}

/// A session's part of the one-line report: the line and the number coming,
/// then the names separated by commas (or `-`), then a blank line.
pub open spec fn line_section(registry: Map<u64, Seq<char>>, s: LineSessionView) -> Seq<char> {
    "<b>"@ + s.text + "</b> ("@ + decimal(active_count(s.attendees)) + ")\n"@ + (if s.attendees.len() == 0 {
        "<i>-</i>\n"@
    } else {
        join(s.attendees.map_values(|a: Attendee| line_entry(registry, a)), ", "@) + "\n"@
    }) + "\n"@
}

/// The pieces one after the other.
pub open spec fn concat(parts: Seq<Seq<char>>) -> Seq<char>
    decreases parts.len(),
{
    if parts.len() == 0 {
        Seq::<char>::empty()
    } else {
        concat(parts.drop_last()) + parts.last()
    }
}

/// The one-line report of a week.
pub open spec fn line_report(week: LineWeekView, registry: Map<u64, Seq<char>>) -> Seq<char> {
    "📅 <b>Attendance "@ + week.start_date + " - "@ + week.end_date + "</b>\n\n"@ + concat(
        week.sessions.map_values(|s: LineSessionView| line_section(registry, s)),
    )
}

/// The button of a one-line session: its text, sending `ck_{week}_{id}`.
pub open spec fn line_button(s: LineSessionView, week_type: Seq<char>) -> ButtonView {
    ButtonView { text: s.text, callback_data: "ck_"@ + week_type + "_"@ + decimal(s.id as nat) }
}

pub open spec fn line_keyboard(sessions: Seq<LineSessionView>, week_type: Seq<char>) -> Seq<Seq<ButtonView>> {
    sessions.map_values(|s: LineSessionView| seq![line_button(s, week_type)])
}

pub open spec fn template_view(template: Option<&str>) -> Option<Seq<char>> {
    match template {
        Some(t) => Some(t@),
        None => None,
    }
}

/// The sessions of a template text.
pub fn sessions_from_template(text: &str) -> (r: Vec<LineSession>)
    ensures
        line_sessions_view(r@) == template_sessions(text@),
{
    let chars = chars_of(text);
    let lines = filled_lines_of(&chars);
    let ghost l = filled_lines(text@);
    let mut r: Vec<LineSession> = Vec::new();
    let mut i: usize = 0;
    while i < lines.len()
        invariant
            i <= lines.len(),
            texts_view(lines@) == l,
            r@.len() == i,
            forall|k: int| 0 <= k < i ==> (#[trigger] r@[k])@ == (LineSessionView {
                id: ((k + 1) % 256) as u8,
                text: l[k],
                attendees: Seq::<Attendee>::empty(),
            }),
        decreases lines.len() - i,
    {
        assert(lines@[i as int]@ == l[i as int]);
        let id = ((i as u64 + 1) % 256) as u8;
        r.push(LineSession { id, text: string_of(&lines[i]), attendees: Vec::new() });
        i = i + 1;
    }
    assert(line_sessions_view(r@) =~= template_sessions(text@));
    r
}

fn default_line_sessions() -> (r: Vec<LineSession>)
    ensures
        line_sessions_view(r@) == default_sessions(),
{
    let r = vec![
        LineSession { id: 1, text: String::from_str("MON Swim 5:00 PM @ USC Pool"), attendees: Vec::new() },
        LineSession { id: 2, text: String::from_str("TUE Run 6:00 PM @ NUS Track"), attendees: Vec::new() },
        LineSession { id: 3, text: String::from_str("WED Swim 5:00 PM @ USC Pool"), attendees: Vec::new() },
        LineSession { id: 4, text: String::from_str("THU Run 6:00 PM @ NUS Track"), attendees: Vec::new() },
        LineSession { id: 5, text: String::from_str("FRI Swim 5:00 PM @ USC Pool"), attendees: Vec::new() },
        LineSession { id: 6, text: String::from_str("SAT Bricks 8:30 AM @ Palawan Beach"), attendees: Vec::new() },
    ];
    assert(line_sessions_view(r@) =~= default_sessions());
    r
}

fn copy_line_sessions(s: &Vec<LineSession>, clear: bool) -> (r: Vec<LineSession>)
    ensures
        line_sessions_view(r@) == if clear {
            cleared_lines(line_sessions_view(s@))
        } else {
            line_sessions_view(s@)
        },
{
    let mut r: Vec<LineSession> = Vec::new();
    let mut i: usize = 0;
    while i < s.len()
        invariant
            i <= s.len(),
            r@.len() == i,
            forall|k: int| 0 <= k < i ==> (#[trigger] r@[k])@ == if clear {
                LineSessionView { attendees: Seq::<Attendee>::empty(), ..s@[k]@ }
            } else {
                s@[k]@
            },
        decreases s.len() - i,
    {
        let attendees = if clear {
            Vec::new()
        } else {
            copy_attendees(&s[i].attendees)
        };
        r.push(LineSession { id: s[i].id, text: s[i].text.clone(), attendees });
        i = i + 1;
    }
    assert(line_sessions_view(r@) =~= if clear {
        cleared_lines(line_sessions_view(s@))
    } else {
        line_sessions_view(s@)
    });
    r
}

/// The state at first start on day `today`, with the sessions of `template`
/// when there is one.
pub fn first_state_on(template: Option<&str>, today: i32) -> (r: LineAttendance)
    requires
        is_calendar_day(today as int),
        is_calendar_day(monday_of(today as int)),
        is_calendar_day(monday_of(today as int) + 14),
    ensures
        r@ == first_state(template_view(template), today as int),
{
    let monday = today - days_from_monday(today) as i32;
    let current_sessions = match template {
        Some(t) => sessions_from_template(t),
        None => default_line_sessions(),
    };
    let next_sessions = copy_line_sessions(&current_sessions, false);
    let r = LineAttendance {
        current: LineWeek {
            start_date: format_day_month(monday),
            end_date: format_day_month(monday + 7),
            sessions: current_sessions,
        },
        next: LineWeek {
            start_date: format_day_month(monday + 7),
            end_date: format_day_month(monday + 14),
            sessions: next_sessions,
        },
        user_registry: HashMap::new(),
    };
    assert(r@.registry =~= Map::<u64, Seq<char>>::empty());
    r
}

/// Whether the first start on day `today` stays within the dates that can
/// be represented: this week's Monday and two weeks after it.
pub open spec fn first_start_fits(today: int) -> bool {
    is_calendar_day(monday_of(today)) && is_calendar_day(monday_of(today) + 14)
}

/// The state at first start on day `today`; `None` when the weeks from this
/// week's Monday leave the dates that can be represented.
pub fn first_state_at(template: Option<&str>, today: i32) -> (r: Option<LineAttendance>)
    requires
        is_calendar_day(today as int),
    ensures
        r is None <==> !first_start_fits(today as int),
        r matches Some(a) ==> a@ == first_state(template_view(template), today as int),
{
    let offset = days_from_monday(today) as i32;
    if today - offset < FIRST_DAY || today - offset > LAST_DAY - 14 {
        return None;
    }
    Some(first_state_on(template, today))
}

/// The state at first start, today's date taken from the local clock;
/// `None` when the weeks from this week's Monday leave the dates that can be
/// represented.
pub fn first_state_now(template: Option<&str>) -> (r: Option<LineAttendance>)
    ensures
        r matches Some(a) ==> exists|today: int|
            is_calendar_day(today) && a@ == #[trigger] first_state(template_view(template), today),
        r is None ==> exists|today: int| is_calendar_day(today) && !#[trigger] first_start_fits(today),
{
    let today = local_today();
    first_state_at(template, today)
}

/// The template text of the current week: its session lines, one per line.
pub fn template_text(state: &LineAttendance) -> (r: String)
    ensures
        r@ == template_of(state@.current.sessions),
{
    let ss = &state.current.sessions;
    let ghost parts = state@.current.sessions.map_values(|s: LineSessionView| s.text);
    let mut out = String::new();
    let mut i: usize = 0;
    while i < ss.len()
        invariant
            i <= ss.len(),
            ss == &state.current.sessions,
            parts == state@.current.sessions.map_values(|s: LineSessionView| s.text),
            out@ == join(parts.take(i as int), "\n"@),
        decreases ss.len() - i,
    {
        proof {
            lemma_join_step(parts, "\n"@, i as int);
        }
        if i > 0 {
            out.append("\n");
        }
        out.append(ss[i].text.as_str());
        i = i + 1;
    }
    proof {
        lemma_join_all(parts, "\n"@);
    }
    out
}

fn line_name_of(registry: &HashMap<u64, UserProfile>, user_id: u64) -> (r: String)
    ensures
        r@ == line_name(registry_view(registry@), user_id),
{
    match registry.get(&user_id) {
        Some(p) => p.alias.clone(),
        None => String::from_str("?"),
    }
}

fn line_section_text(registry: &HashMap<u64, UserProfile>, s: &LineSession) -> (r: String)
    ensures
        r@ == line_section(registry_view(registry@), s@),
{
    let ghost reg = registry_view(registry@);
    let mut out = String::from_str("<b>");
    out.append(s.text.as_str());
    out.append("</b> (");
    push_decimal(&mut out, count_active(&s.attendees));
    out.append(")\n");
    if s.attendees.len() == 0 {
        out.append("<i>-</i>\n");
    } else {
        let ghost head = out@;
        let ghost parts = s.attendees@.map_values(|a: Attendee| line_entry(reg, a));
        let mut names = String::new();
        let mut i: usize = 0;
        while i < s.attendees.len()
            invariant
                i <= s.attendees.len(),
                reg == registry_view(registry@),
                parts == s.attendees@.map_values(|a: Attendee| line_entry(reg, a)),
                names@ == join(parts.take(i as int), ", "@),
            decreases s.attendees.len() - i,
        {
            proof {
                lemma_join_step(parts, ", "@, i as int);
            }
            if i > 0 {
                names.append(", ");
            }
            let a = s.attendees[i];
            let n = line_name_of(registry, a.user_id);
            if a.cancelled {
                names.append("<s>");
                names.append(n.as_str());
                names.append("</s>");
            } else {
                names.append(n.as_str());
            }
            assert(parts[i as int] == line_entry(reg, a));
            i = i + 1;
        }
        proof {
            lemma_join_all(parts, ", "@);
        }
        out.append(names.as_str());
        out.append("\n");
    }
    out.append("\n");
    out
}

/// The one-line report of `week`, names taken from `registry`.
pub fn generate_report(week: &LineWeek, registry: &HashMap<u64, UserProfile>) -> (r: String)
    ensures
        r@ == line_report(week@, registry_view(registry@)),
{
    let ghost reg = registry_view(registry@);
    let ghost parts = week@.sessions.map_values(|s: LineSessionView| line_section(reg, s));
    let mut out = String::from_str("📅 <b>Attendance ");
    out.append(week.start_date.as_str());
    out.append(" - ");
    out.append(week.end_date.as_str());
    out.append("</b>\n\n");
    let ghost head = out@;
    let mut i: usize = 0;
    assert(parts.take(0) =~= Seq::<Seq<char>>::empty());
    assert(out@ =~= head + concat(parts.take(0)));
    while i < week.sessions.len()
        invariant
            i <= week.sessions.len(),
            reg == registry_view(registry@),
            parts == week@.sessions.map_values(|s: LineSessionView| line_section(reg, s)),
            out@ == head + concat(parts.take(i as int)),
        decreases week.sessions.len() - i,
    {
        let sec = line_section_text(registry, &week.sessions[i]);
        assert(parts.take(i + 1).drop_last() =~= parts.take(i as int));
        assert(parts[i as int] == line_section(reg, week.sessions@[i as int]@));
        out.append(sec.as_str());
        i = i + 1;
    }
    assert(parts.take(week.sessions.len() as int) =~= parts);
    out
}

/// The keyboard of one-line sessions: one row per session.
pub fn make_keyboard(sessions: &Vec<LineSession>, week_type: &str) -> (k: Keyboard)
    ensures
        keyboard_view(k@) == line_keyboard(line_sessions_view(sessions@), week_type@),
{
    let mut rows: Keyboard = Vec::new();
    let mut i: usize = 0;
    while i < sessions.len()
        invariant
            i <= sessions.len(),
            rows@.len() == i,
            forall|j: int|
                0 <= j < i ==> (#[trigger] rows@[j])@.map_values(|b: ButtonSpec| b@) == seq![
                    line_button(sessions@[j]@, week_type@),
                ],
        decreases sessions.len() - i,
    {
        let mut data = String::from_str("ck_");
        data.append(week_type);
        data.append("_");
        push_decimal(&mut data, sessions[i].id as u64);
        let b = ButtonSpec { text: sessions[i].text.clone(), callback_data: data };
        let row = vec![b];
        assert(row@.map_values(|b: ButtonSpec| b@) =~= seq![line_button(sessions@[i as int]@, week_type@)]);
        rows.push(row);
        i = i + 1;
    }
    assert(keyboard_view(rows@) =~= line_keyboard(line_sessions_view(sessions@), week_type@));
    rows
}

/// The admin's new list of sessions, one per line, replaces both weeks'
/// sessions; a list without sessions changes nothing.
pub fn replace_sessions(state: &mut LineAttendance, list: &str)
    ensures
        final(state)@ == lines_replaced(old(state)@, list@),
{
    let new_sessions = sessions_from_template(list);
    if new_sessions.len() > 0 {
        let copy = copy_line_sessions(&new_sessions, false);
        state.current.sessions = copy;
        state.next.sessions = new_sessions;
    }
}

/// Rolls over on day `today`.
pub fn roll_lines_at(state: &mut LineAttendance, today: i32)
    requires
        is_calendar_day(today as int),
        is_calendar_day(today + 14),
    ensures
        final(state)@ == line_rolled(old(state)@, today as int),
{
    let moved = LineWeek {
        start_date: state.next.start_date.clone(),
        end_date: state.next.end_date.clone(),
        sessions: copy_line_sessions(&state.next.sessions, false),
    };
    state.current = moved;
    let start = match parse_day_month(state.current.start_date.as_str()) {
        Some(d) => d,
        None => today,
    };
    let sessions = copy_line_sessions(&state.current.sessions, true);
    state.next = LineWeek {
        start_date: format_day_month(start + 7),
        end_date: format_day_month(start + 14),
        sessions,
    };
}

fn find_line(sessions: &Vec<LineSession>, id: u8) -> (r: Option<usize>)
    ensures
        match r {
            Some(i) => i as int == line_index(line_sessions_view(sessions@), id),
            None => line_index(line_sessions_view(sessions@), id) == -1,
        },
{
    let ghost sv = line_sessions_view(sessions@);
    let ghost p = |s: LineSessionView| s.id == id;
    let mut i: usize = 0;
    while i < sessions.len()
        invariant
            i <= sessions.len(),
            sv == line_sessions_view(sessions@),
            p == (|s: LineSessionView| s.id == id),
            forall|j: int| 0 <= j < i ==> !p(#[trigger] sv[j]),
        decreases sessions.len() - i,
    {
        assert(sv[i as int] == sessions@[i as int]@);
        if sessions[i].id == id {
            proof {
                lemma_first_index_is(sv, p, i as int);
            }
            return Some(i);
        }
        i = i + 1;
    }
    proof {
        lemma_first_index_is(sv, p, -1);
    }
    None
}

fn press_line(week: &mut LineWeek, id: u8, user_id: u64)
    ensures
        final(week)@ == (LineWeekView { sessions: line_pressed(old(week)@.sessions, id, user_id), ..old(week)@ }),
{
    let ghost old_week = week@;
    let ghost old_sessions = week.sessions@;
    proof {
        lemma_first_index(old_week.sessions, |s: LineSessionView| s.id == id);
    }
    match find_line(&week.sessions, id) {
        Some(i) => {
            let s = &mut week.sessions[i];
            let ghost before = *s;
            toggle_attendance(&mut s.attendees, user_id);
            let ghost after = *s;
            assert(after@ == LineSessionView { attendees: toggled(before@.attendees, user_id), ..before@ });
            assert(week.sessions@ == old_sessions.update(i as int, after));
            assert(week@.sessions =~= line_pressed(old_week.sessions, id, user_id));
        },
        None => {},
    }
}

/// Reads `ck_{week}_{id}` button data.
pub fn parse_line_data(data: &str) -> (r: Option<(Vec<char>, u8)>)
    requires
        line_data_complete(data@),
    ensures
        match r {
            Some((w, id)) => line_target(data@) == Some((w@, id)),
            None => line_target(data@) is None,
        },
{
    let chars = chars_of(data);
    let prefix = chars_of("ck_");
    match strip_prefix_chars(&chars, &prefix) {
        Some(rest) => {
            let mut p = split_chars(&rest, '_');
            assert(texts_view(p@)[1] == p@[1]@);
            assert(texts_view(p@)[0] == p@[0]@);
            let id = match parse_unsigned_chars(&p[1], 255) {
                Some(v) => v as u8,
                None => 0,
            };
            let w = p.remove(0);
            Some((w, id))
        },
        None => None,
    }
}

/// Records a press of the button with data `data` by `user_id` named
/// `display_name`. Data without the `ck_` prefix changes nothing and gets no
/// answer; otherwise the answer is the selected week's report and keyboard,
/// whether or not the session was found.
pub fn press_line_button(
    state: &mut LineAttendance,
    user_id: u64,
    display_name: String,
    data: &str,
) -> (r: Option<(String, Keyboard)>)
    requires
        line_data_complete(data@),
    ensures
        final(state)@ == line_after_press(old(state)@, user_id, display_name@, data@),
        r is Some == line_target(data@) is Some,
        r matches Some((text, keyboard)) ==> ({
            let (w, _) = line_target(data@)->0;
            let week = line_selected(final(state)@, w);
            &&& text@ == line_report(week, final(state)@.registry)
            &&& keyboard_view(keyboard@) == line_keyboard(week.sessions, w)
        }),
{
    match parse_line_data(data) {
        Some((w, id)) => {
            let ghost old_reg = state.user_registry@;
            state.user_registry.insert(user_id, UserProfile { alias: display_name });
            assert(registry_view(state.user_registry@) =~= registry_view(old_reg).insert(user_id, display_name@));
            let c = chars_of("c");
            let is_current = chars_equal(&w, &c);
            if is_current {
                press_line(&mut state.current, id, user_id);
            } else {
                press_line(&mut state.next, id, user_id);
            }
            let wt = string_of(&w);
            let week = if is_current {
                &state.current
            } else {
                &state.next
            };
            let text = generate_report(week, &state.user_registry);
            let keyboard = make_keyboard(&week.sessions, wt.as_str());
            Some((text, keyboard))
        },
        None => None,
    }
}

/// The commands of the one-line schedule.
#[derive(Debug)]
pub enum LineCommand {
    Help,
    Show,
    ShowNext,
    Trainings,
    Edit(String),
    NewWeek,
}

pub enum LineCommandView {
    Help,
    Show,
    ShowNext,
    Trainings,
    Edit(Seq<char>),
    NewWeek,
}

impl View for LineCommand {
    type V = LineCommandView;

    open spec fn view(&self) -> LineCommandView {
        match self {
            LineCommand::Help => LineCommandView::Help,
            LineCommand::Show => LineCommandView::Show,
            LineCommand::ShowNext => LineCommandView::ShowNext,
            LineCommand::Trainings => LineCommandView::Trainings,
            LineCommand::Edit(a) => LineCommandView::Edit(a@),
            LineCommand::NewWeek => LineCommandView::NewWeek,
        }
    }
}

/// A message to send, and whether the state must be saved first.
#[derive(Debug)]
pub struct LineOutcome {
    pub reply: Reply,
    pub save: bool,
}

pub struct LineOutcomeView {
    pub reply: ReplyView,
    pub save: bool,
}

impl View for LineOutcome {
    type V = LineOutcomeView;

    open spec fn view(&self) -> LineOutcomeView {
        LineOutcomeView { reply: self.reply@, save: self.save }
    }
}

/// Who may give a command: in a direct chat only the admin; `/help`,
/// `/trainings`, `/edit` and `/new_week` only the admin anywhere.
pub open spec fn line_command_allowed(cmd: LineCommandView, is_admin: bool, is_group: bool) -> bool {
    if !is_group && !is_admin {
        false
    } else {
        match cmd {
            LineCommandView::Help | LineCommandView::Trainings | LineCommandView::Edit(_)
            | LineCommandView::NewWeek => is_admin,
            _ => true,
        }
    }
}

/// The state after an allowed command on day `today`.
pub open spec fn line_command_state(att: LineAttendanceView, cmd: LineCommandView, today: int) -> LineAttendanceView {
    match cmd {
        LineCommandView::Edit(list) => lines_replaced(att, list),
        LineCommandView::NewWeek => line_rolled(att, today),
        _ => att,
    }
}

pub open spec fn line_week_reply(att: LineAttendanceView, prefix: Seq<char>) -> ReplyView {
    ReplyView {
        text: prefix + line_report(att.current, att.registry),
        html: true,
        keyboard: Some(line_keyboard(att.current.sessions, "c"@)),
    }
}

/// The answer to an allowed command.
pub open spec fn line_command_outcome(att: LineAttendanceView, cmd: LineCommandView, today: int) -> LineOutcomeView {
    let post = line_command_state(att, cmd, today);
    match cmd {
        LineCommandView::Help => LineOutcomeView {
            reply: plain("/show, /show_next, /trainings, /edit, /new_week"@),
            save: false,
        },
        LineCommandView::Show => LineOutcomeView { reply: line_week_reply(att, Seq::<char>::empty()), save: false },
        LineCommandView::ShowNext => LineOutcomeView {
            reply: ReplyView {
                text: line_report(att.next, att.registry),
                html: true,
                keyboard: Some(line_keyboard(att.next.sessions, "n"@)),
            },
            save: false,
        },
        LineCommandView::Trainings => LineOutcomeView {
            reply: ReplyView {
                text: "<pre>"@ + template_of(att.current.sessions) + "</pre>"@,
                html: true,
                keyboard: None,
            },
            save: false,
        },
        LineCommandView::Edit(_) => LineOutcomeView { reply: line_week_reply(post, Seq::<char>::empty()), save: true },
        LineCommandView::NewWeek => LineOutcomeView {
            reply: line_week_reply(post, "🔄 <b>Week Rolled!</b>\n\n"@),
            save: true,
        },
    }
}

fn line_reply(state: &LineAttendance, prefix: &str) -> (r: Reply)
    ensures
        r@ == line_week_reply(state@, prefix@),
{
    let mut text = String::from_str(prefix);
    let report = generate_report(&state.current, &state.user_registry);
    text.append(report.as_str());
    Reply { text, html: true, keyboard: Some(make_keyboard(&state.current.sessions, "c")) }
}

/// Carries out `cmd` on day `today` when the sender may give it; `None`
/// when the command is ignored.
pub fn apply_line_command_on(
    state: &mut LineAttendance,
    cmd: &LineCommand,
    is_admin: bool,
    is_group: bool,
    today: i32,
) -> (r: Option<LineOutcome>)
    requires
        (line_command_allowed(cmd@, is_admin, is_group) && cmd@ is NewWeek) ==> (is_calendar_day(
            today as int,
        ) && is_calendar_day(today + 14)),
    ensures
        r is Some == line_command_allowed(cmd@, is_admin, is_group),
        r is None ==> *final(state) == *old(state),
        r matches Some(o) ==> final(state)@ == line_command_state(old(state)@, cmd@, today as int)
            && o@ == line_command_outcome(old(state)@, cmd@, today as int),
{
    if !is_group && !is_admin {
        return None;
    }
    proof {
        reveal_strlit("");
    }
    match cmd {
        LineCommand::Help => {
            if !is_admin {
                return None;
            }
            Some(LineOutcome {
                reply: Reply {
                    text: String::from_str("/show, /show_next, /trainings, /edit, /new_week"),
                    html: false,
                    keyboard: None,
                },
                save: false,
            })
        },
        LineCommand::Show => Some(LineOutcome { reply: line_reply(state, ""), save: false }),
        LineCommand::ShowNext => {
            let text = generate_report(&state.next, &state.user_registry);
            let keyboard = make_keyboard(&state.next.sessions, "n");
            Some(LineOutcome { reply: Reply { text, html: true, keyboard: Some(keyboard) }, save: false })
        },
        LineCommand::Trainings => {
            if !is_admin {
                return None;
            }
            let mut text = String::from_str("<pre>");
            let t = template_text(state);
            text.append(t.as_str());
            text.append("</pre>");
            Some(LineOutcome { reply: Reply { text, html: true, keyboard: None }, save: false })
        },
        LineCommand::Edit(list) => {
            if !is_admin {
                return None;
            }
            replace_sessions(state, list.as_str());
            Some(LineOutcome { reply: line_reply(state, ""), save: true })
        },
        LineCommand::NewWeek => {
            if !is_admin {
                return None;
            }
            roll_lines_at(state, today);
            Some(LineOutcome { reply: line_reply(state, "🔄 <b>Week Rolled!</b>\n\n"), save: true })
        },
    }
}

/// What became of a command given with the local clock's date.
#[derive(Debug)]
pub enum LineDecision {
    /// The sender may not give the command.
    Ignored,
    Done(LineOutcome),
    /// A roll-over on a clock date within two weeks of the last date that
    /// can be represented; nothing changed.
    NoDate,
}

/// What becomes of `cmd` on day `today`: ignored when the sender may not
/// give it, `NoDate` for a roll-over whose new week would leave the dates
/// that can be represented, carried out otherwise.
pub fn decide_line_command_at(
    state: &mut LineAttendance,
    cmd: &LineCommand,
    is_admin: bool,
    is_group: bool,
    today: i32,
) -> (r: LineDecision)
    requires
        is_calendar_day(today as int),
    ensures
        r is Ignored <==> !line_command_allowed(cmd@, is_admin, is_group),
        r is NoDate <==> (line_command_allowed(cmd@, is_admin, is_group) && cmd@ is NewWeek && today
            > LAST_DAY - 14),
        !(r is Done) ==> *final(state) == *old(state),
        r matches LineDecision::Done(o) ==> final(state)@ == line_command_state(old(state)@, cmd@, today as int)
            && o@ == line_command_outcome(old(state)@, cmd@, today as int),
{
    if !line_command_allowed_exec(cmd, is_admin, is_group) {
        return LineDecision::Ignored;
    }
    let fits = match cmd {
        LineCommand::NewWeek => today <= LAST_DAY - 14,
        _ => true,
    };
    if !fits {
        return LineDecision::NoDate;
    }
    match apply_line_command_on(state, cmd, is_admin, is_group, today) {
        Some(o) => LineDecision::Done(o),
        None => LineDecision::Ignored,
    }
}

/// Carries out `cmd`, taking today's date from the local clock.
pub fn apply_line_command(state: &mut LineAttendance, cmd: &LineCommand, is_admin: bool, is_group: bool) -> (r: LineDecision)
    ensures
        r is Ignored == !line_command_allowed(cmd@, is_admin, is_group),
        !(r is Done) ==> *final(state) == *old(state),
        r is NoDate ==> cmd@ is NewWeek,
        r is NoDate ==> exists|today: int| #[trigger] is_calendar_day(today) && today > LAST_DAY - 14,
        r matches LineDecision::Done(o) ==> exists|today: int|
            #![trigger line_command_state(old(state)@, cmd@, today)]
            is_calendar_day(today) && final(state)@ == line_command_state(old(state)@, cmd@, today)
                && o@ == line_command_outcome(old(state)@, cmd@, today),
        !(cmd@ is NewWeek) ==> (r is Done <==> line_command_allowed(cmd@, is_admin, is_group)),
{
    let today = local_today();
    decide_line_command_at(state, cmd, is_admin, is_group, today)
}

fn line_command_allowed_exec(cmd: &LineCommand, is_admin: bool, is_group: bool) -> (r: bool)
    ensures
        r == line_command_allowed(cmd@, is_admin, is_group),
{
    if !is_group && !is_admin {
        false
    } else {
        match cmd {
            LineCommand::Help | LineCommand::Trainings | LineCommand::Edit(_) | LineCommand::NewWeek => is_admin,
            _ => true,
        }
    }
}

} // verus!
