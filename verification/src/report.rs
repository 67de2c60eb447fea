//! The HTML texts that show a week: who signed up for each session, and
//! how many are coming.
use crate::model::{registry_view, Attendee, SessionView, TrainingSession, UserProfile, WeekData, WeekView};
use crate::text::{decimal, join, lemma_join_all, lemma_join_step, push_decimal};
use std::collections::HashMap;
use vstd::prelude::*;
use vstd::string::*;

verus! {

broadcast use vstd::std_specs::hash::group_hash_axioms;

/// The number of sign-ups that are not cancelled.
pub open spec fn active_count(attendees: Seq<Attendee>) -> nat
    decreases attendees.len(),
{
    if attendees.len() == 0 {
        0
    } else {
        active_count(attendees.drop_last()) + if attendees.last().cancelled {
            0nat
        } else {
            1nat
        }
    }
}

/// The name shown for a member: the registered alias, else `Unknown`.
pub open spec fn shown_name(registry: Map<u64, Seq<char>>, user_id: u64) -> Seq<char> {
    if registry.contains_key(user_id) {
        registry[user_id]
    } else {
        "Unknown"@
    }
}

/// One member's entry: the name, struck through when cancelled.
pub open spec fn attendee_entry(registry: Map<u64, Seq<char>>, a: Attendee) -> Seq<char> {
    if a.cancelled {
        "<s>"@ + shown_name(registry, a.user_id) + "</s>"@
    } else {
        shown_name(registry, a.user_id)
    }
}

/// The entries of a session's sign-ups, one per line, or a placeholder.
pub open spec fn attendee_list(registry: Map<u64, Seq<char>>, attendees: Seq<Attendee>) -> Seq<
    char,
> {
    if attendees.len() == 0 {
        "<i>No one yet</i>"@
    } else {
        join(attendees.map_values(|a: Attendee| attendee_entry(registry, a)), "\n"@)
    }
}

/// A session's part of the attendance report.
pub open spec fn session_section(registry: Map<u64, Seq<char>>, s: SessionView) -> Seq<char> {
    "<b>"@ + s.day + " "@ + s.activity + "</b> @ "@ + s.location + " ("@ + decimal(
        active_count(s.attendees),
    ) + " 👥) - <i>"@ + s.time + "</i>\n"@ + attendee_list(registry, s.attendees) + "\n"@
}

/// The attendance report of a week: a header with its dates, then the
/// sessions' sections separated by blank lines.
pub open spec fn attendance_report(week: WeekView, registry: Map<u64, Seq<char>>) -> Seq<char> {
    "📅 <b>Attendance "@ + week.start_date + " to "@ + week.end_date + "</b>\n\n"@ + join(
        week.sessions.map_values(|s: SessionView| session_section(registry, s)),
        "\n"@,
    )
}

/// A session's line of the training log.
pub open spec fn log_line(s: SessionView) -> Seq<char> {
    "<b>"@ + s.day + " "@ + s.activity + "</b> @ "@ + s.location + " ("@ + decimal(
        active_count(s.attendees),
    ) + " 👥)\n"@
}

/// The training log of a week: a header, then one line per session.
pub open spec fn log_report(week: WeekView) -> Seq<char> {
    "📅 <b>Training Log "@ + week.start_date + " to "@ + week.end_date + "</b>\n\n"@ + join(
        week.sessions.map_values(|s: SessionView| log_line(s)),
        "\n"@,
    )
}

/// How many of the sign-ups are not cancelled.
pub fn count_active(attendees: &Vec<Attendee>) -> (n: u64)
    ensures
        n as nat == active_count(attendees@),
{
    let mut n: u64 = 0;
    let mut i: usize = 0;
    while i < attendees.len()
        invariant
            i <= attendees.len(),
            n <= i,
            n as nat == active_count(attendees@.take(i as int)),
        decreases attendees.len() - i,
    {
        assert(attendees@.take(i + 1).drop_last() =~= attendees@.take(i as int));
        if !attendees[i].cancelled {
            n = n + 1;
        }
        i = i + 1;
    }
    assert(attendees@.take(attendees.len() as int) =~= attendees@);
    n
}

/// The name shown for `user_id`.
pub fn name_of(registry: &HashMap<u64, UserProfile>, user_id: u64) -> (r: String)
    ensures
        r@ == shown_name(registry_view(registry@), user_id),
{
    match registry.get(&user_id) {
        Some(p) => p.alias.clone(),
        None => String::from_str("Unknown"),
    }
}

fn attendee_list_text(registry: &HashMap<u64, UserProfile>, attendees: &Vec<Attendee>) -> (r:
    String)
    ensures
        r@ == attendee_list(registry_view(registry@), attendees@),
{
    let ghost reg = registry_view(registry@);
    if attendees.len() == 0 {
        return String::from_str("<i>No one yet</i>");
    }
    let ghost parts = attendees@.map_values(|a: Attendee| attendee_entry(reg, a));
    let mut out = String::new();
    let mut i: usize = 0;
    while i < attendees.len()
        invariant
            i <= attendees.len(),
            reg == registry_view(registry@),
            parts == attendees@.map_values(|a: Attendee| attendee_entry(reg, a)),
            out@ == join(parts.take(i as int), "\n"@),
        decreases attendees.len() - i,
    {
        proof {
            lemma_join_step(parts, "\n"@, i as int);
        }
        if i > 0 {
            out.append("\n");
        }
        let a = attendees[i];
        let name = name_of(registry, a.user_id);
        if a.cancelled {
            out.append("<s>");
            out.append(name.as_str());
            out.append("</s>");
        } else {
            out.append(name.as_str());
        }
        assert(parts[i as int] == attendee_entry(reg, a));
        i = i + 1;
    }
    proof {
        lemma_join_all(parts, "\n"@);
    }
    out
}

fn session_section_text(registry: &HashMap<u64, UserProfile>, s: &TrainingSession) -> (r: String)
    ensures
        r@ == session_section(registry_view(registry@), s@),
{
    let mut out = String::from_str("<b>");
    out.append(s.day.as_str());
    out.append(" ");
    out.append(s.activity.as_str());
    out.append("</b> @ ");
    out.append(s.location.as_str());
    out.append(" (");
    push_decimal(&mut out, count_active(&s.attendees));
    out.append(" 👥) - <i>");
    out.append(s.time.as_str());
    out.append("</i>\n");
    let list = attendee_list_text(registry, &s.attendees);
    out.append(list.as_str());
    out.append("\n");
    out
}

/// The attendance report of `week`, names taken from `registry`.
pub fn generate_attendance_report(week: &WeekData, registry: &HashMap<u64, UserProfile>) -> (r:
    String)
    ensures
        r@ == attendance_report(week@, registry_view(registry@)),
{
    let ghost reg = registry_view(registry@);
    let ghost parts = week@.sessions.map_values(|s: SessionView| session_section(reg, s));
    let mut body = String::new();
    let mut i: usize = 0;
    while i < week.sessions.len()
        invariant
            i <= week.sessions.len(),
            reg == registry_view(registry@),
            parts == week@.sessions.map_values(|s: SessionView| session_section(reg, s)),
            body@ == join(parts.take(i as int), "\n"@),
        decreases week.sessions.len() - i,
    {
        proof {
            lemma_join_step(parts, "\n"@, i as int);
        }
        if i > 0 {
            body.append("\n");
        }
        let sec = session_section_text(registry, &week.sessions[i]);
        assert(parts[i as int] == session_section(reg, week.sessions@[i as int]@));
        body.append(sec.as_str());
        i = i + 1;
    }
    proof {
        lemma_join_all(parts, "\n"@);
    }
    let mut out = String::from_str("📅 <b>Attendance ");
    out.append(week.start_date.as_str());
    out.append(" to ");
    out.append(week.end_date.as_str());
    out.append("</b>\n\n");
    out.append(body.as_str());
    out
}

/// The training log of `week`.
pub fn generate_log_report(week: &WeekData) -> (r: String)
    ensures
        r@ == log_report(week@),
{
    let ghost parts = week@.sessions.map_values(|s: SessionView| log_line(s));
    let mut body = String::new();
    let mut i: usize = 0;
    while i < week.sessions.len()
        invariant
            i <= week.sessions.len(),
            parts == week@.sessions.map_values(|s: SessionView| log_line(s)),
            body@ == join(parts.take(i as int), "\n"@),
        decreases week.sessions.len() - i,
    {
        proof {
            lemma_join_step(parts, "\n"@, i as int);
        }
        if i > 0 {
            body.append("\n");
        }
        let s = &week.sessions[i];
        let ghost before = body@;
        body.append("<b>");
        body.append(s.day.as_str());
        body.append(" ");
        body.append(s.activity.as_str());
        body.append("</b> @ ");
        body.append(s.location.as_str());
        body.append(" (");
        push_decimal(&mut body, count_active(&s.attendees));
        body.append(" 👥)\n");
        assert(parts[i as int] == log_line(s@));
        assert(body@ =~= before + log_line(s@));
        i = i + 1;
    }
    proof {
        lemma_join_all(parts, "\n"@);
    }
    let mut out = String::from_str("📅 <b>Training Log ");
    out.append(week.start_date.as_str());
    out.append(" to ");
    out.append(week.end_date.as_str());
    out.append("</b>\n\n");
    out.append(body.as_str());
    out
}

} // verus!
