use aquathallyon::attendance::{parse_checkin, press_session, receive_press, toggle_attendance};
use aquathallyon::commands::{apply_command, apply_command_at, apply_command_on, attendance_rows, Command, Outcome};
use aquathallyon::keyboard::main_menu_keyboard;
use aquathallyon::model::{Attendee, TrainingSession, UserProfile, WeekData, WeeklyAttendance};
use aquathallyon::report::{generate_attendance_report, generate_log_report};
use aquathallyon::schedule::{
    add_session, delete_session, edit_session, next_session_id, parse_session_arguments,
    roll_week_at, SessionFields,
};
use std::collections::HashMap;

const WED_2024_11_20: i32 = 739210;
const ADMIN: u64 = 100;

fn session(id: u8, day: &str, activity: &str, location: &str, time: &str) -> TrainingSession {
    TrainingSession {
        id,
        activity: activity.to_string(),
        location: location.to_string(),
        day: day.to_string(),
        attendees: vec![],
        time: time.to_string(),
    }
}

fn week(start: &str, end: &str) -> WeekData {
    WeekData {
        start_date: start.to_string(),
        end_date: end.to_string(),
        sessions: vec![
            session(1, "MON", "Swim", "USC Pool", "5pm"),
            session(2, "TUE", "Run", "NUS Track", "6pm"),
        ],
    }
}

fn state() -> WeeklyAttendance {
    WeeklyAttendance {
        current: week("18/11", "24/11"),
        next: week("25/11", "01/12"),
        user_registry: HashMap::new(),
        workout_log: vec![],
    }
}

fn fields(day: &str, activity: &str, location: &str, time: &str) -> SessionFields {
    SessionFields {
        day: day.to_string(),
        activity: activity.to_string(),
        location: location.to_string(),
        time: time.to_string(),
    }
}

fn ids(w: &WeekData) -> Vec<u8> {
    w.sessions.iter().map(|s| s.id).collect()
}

#[test]
fn toggle_adds_then_cancels_then_restores() {
    let mut a: Vec<Attendee> = vec![];
    toggle_attendance(&mut a, 7);
    assert_eq!(a, vec![Attendee { user_id: 7, cancelled: false }]);
    toggle_attendance(&mut a, 7);
    assert_eq!(a, vec![Attendee { user_id: 7, cancelled: true }]);
    toggle_attendance(&mut a, 7);
    assert_eq!(a, vec![Attendee { user_id: 7, cancelled: false }]);
}

#[test]
fn pressing_twice_restores_a_listed_member() {
    let mut a = vec![Attendee { user_id: 1, cancelled: false }, Attendee { user_id: 2, cancelled: true }];
    let before = a.clone();
    toggle_attendance(&mut a, 2);
    assert_eq!(a[1], Attendee { user_id: 2, cancelled: false });
    toggle_attendance(&mut a, 2);
    assert_eq!(a, before);
}

#[test]
fn press_changes_count_by_one() {
    let mut w = week("a", "b");
    press_session(&mut w, 1, 10);
    press_session(&mut w, 1, 11);
    let coming = |w: &WeekData| w.sessions[0].attendees.iter().filter(|a| !a.cancelled).count();
    assert_eq!(coming(&w), 2);
    press_session(&mut w, 1, 10);
    assert_eq!(coming(&w), 1);
    press_session(&mut w, 1, 10);
    assert_eq!(coming(&w), 2);
    assert_eq!(w.sessions[0].attendees.len(), 2);
}

#[test]
fn press_unknown_session_changes_nothing() {
    let mut w = week("a", "b");
    assert!(!press_session(&mut w, 9, 10));
    assert!(w.sessions.iter().all(|s| s.attendees.is_empty()));
    assert!(press_session(&mut w, 2, 10));
    assert_eq!(w.sessions[1].attendees, vec![Attendee { user_id: 10, cancelled: false }]);
}

#[test]
fn get_session_mut_finds_by_id() {
    let mut w = week("a", "b");
    assert!(w.get_session_mut(3).is_none());
    let s = w.get_session_mut(2).unwrap();
    s.time = "7pm".to_string();
    assert_eq!(w.sessions[1].time, "7pm");
}

#[test]
fn checkin_data_is_parsed() {
    let (w, id) = parse_checkin("checkin_c_12").unwrap();
    assert_eq!(w.iter().collect::<String>(), "c");
    assert_eq!(id, 12);
    let (w, id) = parse_checkin("checkin_n_+3").unwrap();
    assert_eq!(w.iter().collect::<String>(), "n");
    assert_eq!(id, 3);
    assert!(parse_checkin("checkin_c_256").is_none());
    assert!(parse_checkin("checkin_c_1_2").is_none());
    assert!(parse_checkin("checkin_c").is_none());
    assert!(parse_checkin("ck_c_1").is_none());
    assert!(parse_checkin("checkin_c_").is_none());
    assert!(parse_checkin("checkin_c_-1").is_none());
}

#[test]
fn receive_press_registers_and_reports() {
    let mut st = state();
    let reply = receive_press(&mut st, 42, "Ann Lee".to_string(), "checkin_c_2").unwrap();
    assert_eq!(st.user_registry.get(&42).unwrap().alias, "Ann Lee");
    assert_eq!(st.current.sessions[1].attendees, vec![Attendee { user_id: 42, cancelled: false }]);
    assert!(st.next.sessions[1].attendees.is_empty());
    assert_eq!(
        reply.text,
        "📅 <b>Attendance 18/11 to 24/11</b>\n\n<b>MON Swim</b> @ USC Pool (0 👥) - <i>5pm</i>\n<i>No one yet</i>\n\n<b>TUE Run</b> @ NUS Track (1 👥) - <i>6pm</i>\nAnn Lee\n"
    );
    assert_eq!(reply.keyboard.len(), 2);
    assert_eq!(reply.keyboard[1][0].text, "TUE: Run @ NUS Track");
    assert_eq!(reply.keyboard[1][0].callback_data, "checkin_c_2");
}

#[test]
fn receive_press_next_week_and_misses() {
    let mut st = state();
    let reply = receive_press(&mut st, 5, "Bo".to_string(), "checkin_n_1").unwrap();
    assert_eq!(st.next.sessions[0].attendees.len(), 1);
    assert!(reply.text.starts_with("📅 <b>Attendance 25/11 to 01/12</b>"));
    assert_eq!(reply.keyboard[0][0].callback_data, "checkin_n_1");
    // a well-formed press of a missing session still records the name
    assert!(receive_press(&mut st, 6, "Cy".to_string(), "checkin_c_9").is_none());
    assert_eq!(st.user_registry.get(&6).unwrap().alias, "Cy");
    // malformed data changes nothing
    assert!(receive_press(&mut st, 7, "Di".to_string(), "hello").is_none());
    assert!(st.user_registry.get(&7).is_none());
}

#[test]
fn report_strikes_cancelled_and_names_unknown() {
    let mut w = week("18/11", "24/11");
    w.sessions[0].attendees = vec![
        Attendee { user_id: 1, cancelled: false },
        Attendee { user_id: 2, cancelled: true },
    ];
    let mut reg = HashMap::new();
    reg.insert(2, UserProfile { alias: "Eve".to_string() });
    let r = generate_attendance_report(&w, &reg);
    assert_eq!(
        r,
        "📅 <b>Attendance 18/11 to 24/11</b>\n\n<b>MON Swim</b> @ USC Pool (1 👥) - <i>5pm</i>\nUnknown\n<s>Eve</s>\n\n<b>TUE Run</b> @ NUS Track (0 👥) - <i>6pm</i>\n<i>No one yet</i>\n"
    );
    let log = generate_log_report(&w);
    assert_eq!(
        log,
        "📅 <b>Training Log 18/11 to 24/11</b>\n\n<b>MON Swim</b> @ USC Pool (1 👥)\n\n<b>TUE Run</b> @ NUS Track (0 👥)\n"
    );
}

#[test]
fn report_of_empty_week() {
    let w = WeekData { start_date: "a".to_string(), end_date: "b".to_string(), sessions: vec![] };
    assert_eq!(generate_attendance_report(&w, &HashMap::new()), "📅 <b>Attendance a to b</b>\n\n");
}

#[test]
fn keyboard_has_one_button_per_session() {
    let w = week("a", "b");
    let k = main_menu_keyboard(&w.sessions, "n");
    assert_eq!(k.len(), 2);
    assert_eq!(k[0].len(), 1);
    assert_eq!(k[0][0].text, "MON: Swim @ USC Pool");
    assert_eq!(k[0][0].callback_data, "checkin_n_1");
    let b = w.sessions[1].make_button("c");
    assert_eq!(b.callback_data, "checkin_c_2");
}

#[test]
fn session_arguments_are_split_and_trimmed() {
    let (order, f) = parse_session_arguments(" 2 , WED,Swim ,  USC Pool, 5pm , extra", 0).unwrap();
    assert_eq!(order, 2);
    assert_eq!((f.day.as_str(), f.activity.as_str(), f.location.as_str(), f.time.as_str()), ("WED", "Swim", "USC Pool", "5pm"));
    let (order, _) = parse_session_arguments("x, a, b, c, d", 0).unwrap();
    assert_eq!(order, 0);
    let (order, _) = parse_session_arguments("x, a, b, c, d", 1).unwrap();
    assert_eq!(order, 1);
    assert!(parse_session_arguments("1, a, b, c", 1).is_none());
    assert!(parse_session_arguments("", 1).is_none());
    let (_, f) = parse_session_arguments("1,\u{3000}a\u{a0},b,c,d", 1).unwrap();
    assert_eq!(f.day, "a");
}

#[test]
fn edit_changes_both_weeks() {
    let mut st = state();
    st.current.sessions[0].attendees = vec![Attendee { user_id: 1, cancelled: false }];
    assert!(edit_session(&mut st, 1, &fields("THU", "Gym", "Hall", "8am")));
    for w in [&st.current, &st.next] {
        let s = &w.sessions[0];
        assert_eq!((s.id, s.day.as_str(), s.activity.as_str(), s.location.as_str(), s.time.as_str()), (1, "THU", "Gym", "Hall", "8am"));
    }
    assert_eq!(st.current.sessions[0].attendees.len(), 1);
    // order 0 edits the first session too
    assert!(edit_session(&mut st, 0, &fields("FRI", "Gym", "Hall", "8am")));
    assert_eq!(st.current.sessions[0].day, "FRI");
    assert!(!edit_session(&mut st, 3, &fields("x", "y", "z", "w")));
}

#[test]
fn add_places_and_numbers_sessions() {
    let mut st = state();
    assert_eq!(next_session_id(&st), 3);
    add_session(&mut st, 1, &fields("SUN", "Ride", "ECP", "7am"));
    assert_eq!(ids(&st.current), vec![3, 1, 2]);
    assert_eq!(ids(&st.next), vec![3, 1, 2]);
    add_session(&mut st, 0, &fields("SUN", "Ride", "ECP", "7am"));
    assert_eq!(ids(&st.current), vec![3, 1, 2, 4]);
    add_session(&mut st, 9, &fields("SUN", "Ride", "ECP", "7am"));
    assert_eq!(ids(&st.current), vec![3, 1, 2, 4, 5]);
    assert!(st.current.sessions[4].attendees.is_empty());
    let mut empty = WeeklyAttendance {
        current: WeekData { start_date: String::new(), end_date: String::new(), sessions: vec![] },
        next: WeekData { start_date: String::new(), end_date: String::new(), sessions: vec![] },
        user_registry: HashMap::new(),
        workout_log: vec![],
    };
    assert_eq!(next_session_id(&empty), 1);
    add_session(&mut empty, 1, &fields("a", "b", "c", "d"));
    assert_eq!(ids(&empty.current), vec![1]);
}

#[test]
fn delete_undoes_add() {
    let mut st = state();
    add_session(&mut st, 2, &fields("SUN", "Ride", "ECP", "7am"));
    assert_eq!(ids(&st.current), vec![1, 3, 2]);
    assert!(delete_session(&mut st, 2));
    assert_eq!(ids(&st.current), vec![1, 2]);
    assert_eq!(ids(&st.next), vec![1, 2]);
    assert!(!delete_session(&mut st, 3));
    assert!(delete_session(&mut st, 0));
    assert_eq!(ids(&st.current), vec![2]);
}

#[test]
fn roll_moves_next_week_forward() {
    let mut st = state();
    st.next.sessions[0].attendees = vec![Attendee { user_id: 3, cancelled: false }];
    roll_week_at(&mut st, WED_2024_11_20);
    assert_eq!(st.current.start_date, "25/11");
    assert_eq!(st.current.sessions[0].attendees.len(), 1);
    assert_eq!(st.next.start_date, "27/11");
    assert_eq!(st.next.end_date, "03/12");
    assert_eq!(ids(&st.next), vec![1, 2]);
    assert!(st.next.sessions.iter().all(|s| s.attendees.is_empty()));
}

#[test]
fn save_rows_skip_cancelled() {
    let mut st = state();
    st.user_registry.insert(1, UserProfile { alias: "Al".to_string() });
    st.current.sessions[0].attendees = vec![Attendee { user_id: 1, cancelled: false }, Attendee { user_id: 2, cancelled: true }];
    st.current.sessions[1].attendees = vec![Attendee { user_id: 2, cancelled: false }];
    let rows = attendance_rows(&st);
    let rows: Vec<(u8, u64, String)> = rows.into_iter().map(|r| (r.session_id, r.user_id, r.user_alias)).collect();
    assert_eq!(rows, vec![(1, 1, "Al".to_string()), (2, 2, "Unknown".to_string())]);
}

fn reply_text(o: Outcome) -> (String, bool, bool) {
    match o {
        Outcome::Message(r) => (r.text, r.html, r.keyboard.is_some()),
        Outcome::Sync { then, .. } => (then.text, then.html, then.keyboard.is_some()),
        Outcome::Refused => (String::new(), false, false),
    }
}

#[test]
fn commands_answer_as_the_bot_does() {
    let mut st = state();
    let (t, html, kb) = reply_text(apply_command_on(&mut st, &Command::Delete(5), ADMIN, true, 0));
    assert_eq!((t.as_str(), html, kb), ("⚠️ Order #5 not found.", false, false));
    let (t, _, _) = reply_text(apply_command_on(&mut st, &Command::Edit("1, a, b".to_string()), ADMIN, true, 0));
    assert_eq!(t, "❌ Format: /edit order, day, activity, location, time");
    let (t, _, _) = reply_text(apply_command_on(&mut st, &Command::Add("1".to_string()), ADMIN, true, 0));
    assert_eq!(t, "❌ Format: /add order, day, activity, location, time");
    let (t, _, _) = reply_text(apply_command_on(&mut st, &Command::Edit("7, a, b, c, d".to_string()), ADMIN, true, 0));
    assert_eq!(t, "⚠️ Session #7 not found.");
    let (t, html, kb) = reply_text(apply_command_on(&mut st, &Command::Edit("x, SAT, Swim, Pool, 9am".to_string()), ADMIN, true, 0));
    assert!(t.starts_with("📝 <b>Session #0 updated for both weeks.</b>\n\n📅 <b>Attendance 18/11 to 24/11</b>"));
    assert!(html && kb);
    assert_eq!(st.next.sessions[0].day, "SAT");
    let (t, _, _) = reply_text(apply_command_on(&mut st, &Command::Add("x, SUN, Ride, ECP, 7am".to_string()), ADMIN, true, 0));
    assert!(t.starts_with("➕ <b>New session added to both weeks.</b>\n\n"));
    assert_eq!(ids(&st.current), vec![3, 1, 2]);
    let (t, _, _) = reply_text(apply_command_on(&mut st, &Command::Delete(1), ADMIN, true, 0));
    assert!(t.starts_with("🗑️ <b>Session #1 deleted from both weeks.</b>\n\n"));
    let (t, _, _) = reply_text(apply_command_on(&mut st, &Command::NewWeek, ADMIN, true, WED_2024_11_20));
    assert!(t.starts_with("🔄 <b>Week Rolled Forward!</b>\n\n📅 <b>Attendance 25/11 to 01/12</b>"));
    let (t, _, _) = reply_text(apply_command_on(&mut st, &Command::ShowNext, ADMIN, true, 0));
    assert!(t.starts_with("📅 <b>Attendance 27/11 to 03/12</b>"));
    let (t, _, _) = reply_text(apply_command_on(&mut st, &Command::Log("Swim, 1km".to_string()), ADMIN, true, 0));
    assert!(t.starts_with("📅 <b>Training Log 25/11 to 01/12</b>"));
    let (t, html, kb) = reply_text(apply_command_on(&mut st, &Command::Help, ADMIN, true, 0));
    assert!(t.starts_with("<b>🔱 Aquathallyon Bot Help</b>\n\n<b>Member Commands</b>\n/history"));
    assert!(html && !kb);
    match apply_command_on(&mut st, &Command::Save, ADMIN, true, 0) {
        Outcome::Sync { rows, then } => {
            assert!(rows.is_empty());
            assert_eq!(then.text, "✅ Current week attendance synced to Turso!");
        }
        _ => panic!("save must sync"),
    }
    let (show, _, _) = reply_text(apply_command_on(&mut st, &Command::Show, ADMIN, true, 0));
    assert!(show.starts_with("📅 <b>Attendance 25/11 to 01/12</b>"));
}

#[test]
fn commands_with_the_clock() {
    let mut st = state();
    assert!(apply_command(&mut st, &Command::Show, ADMIN, true).is_some());
    let out = apply_command(&mut st, &Command::NewWeek, ADMIN, true);
    assert!(out.is_some());
    assert_eq!(st.current.start_date, "25/11");
    assert_eq!(st.next.start_date.len(), 5);
}

#[test]
fn weeks_stay_alike_under_edit_add_delete() {
    let mut st = state();
    st.current.sessions[0].attendees = vec![Attendee { user_id: 1, cancelled: false }];
    add_session(&mut st, 2, &fields("SUN", "Ride", "ECP", "7am"));
    edit_session(&mut st, 3, &fields("FRI", "Gym", "Hall", "8am"));
    delete_session(&mut st, 1);
    let plan = |w: &WeekData| -> Vec<(u8, String, String, String, String)> {
        w.sessions.iter().map(|s| (s.id, s.day.clone(), s.activity.clone(), s.location.clone(), s.time.clone())).collect()
    };
    assert_eq!(plan(&st.current), plan(&st.next));
    assert_eq!(ids(&st.current), vec![3, 2]);
}


#[test]
fn only_the_admin_edits_the_schedule() {
    let mut st = state();
    for cmd in [
        Command::Delete(1),
        Command::Add("1, a, b, c, d".to_string()),
        Command::Edit("1, a, b, c, d".to_string()),
        Command::NewWeek,
    ] {
        assert!(matches!(apply_command_on(&mut st, &cmd, 7, false, WED_2024_11_20), Outcome::Refused));
        assert!(matches!(apply_command_at(&mut st, &cmd, 7, false, WED_2024_11_20), Some(Outcome::Refused)));
    }
    assert_eq!(ids(&st.current), vec![1, 2]);
    assert_eq!(st.current.sessions[0].day, "MON");
    assert_eq!(st.current.start_date, "18/11");
    let (t, _, _) = reply_text(apply_command_on(&mut st, &Command::Show, 7, false, 0));
    assert!(t.starts_with("📅 <b>Attendance 18/11 to 24/11</b>"));
}

#[test]
fn log_records_and_history_lists_own_workouts() {
    let mut st = state();
    let (t, html, kb) = reply_text(apply_command_on(&mut st, &Command::Log(" Swim , 2km, easy ".to_string()), 7, false, 0));
    assert!(t.starts_with("📅 <b>Training Log 18/11 to 24/11</b>"));
    assert!(html && kb);
    reply_text(apply_command_on(&mut st, &Command::Log("Run".to_string()), 8, false, 0));
    reply_text(apply_command_on(&mut st, &Command::Log("Bike, 40km".to_string()), 7, false, 0));
    let (t, _, _) = reply_text(apply_command_on(&mut st, &Command::Log(" , x".to_string()), 7, false, 0));
    assert!(t.starts_with("📅 <b>Training Log 18/11 to 24/11</b>"));
    assert_eq!(st.workout_log.len(), 3);
    let (t, html, kb) = reply_text(apply_command_on(&mut st, &Command::History, 7, false, 0));
    assert_eq!(t, "📖 <b>Training History</b>\n\n<b>Swim</b> - 2km, easy\n<b>Bike</b> - 40km");
    assert!(html && !kb);
    let (t, _, _) = reply_text(apply_command_on(&mut st, &Command::History, 8, false, 0));
    assert_eq!(t, "📖 <b>Training History</b>\n\n<b>Run</b> - ");
    let (t, _, _) = reply_text(apply_command_on(&mut st, &Command::History, 9, false, 0));
    assert_eq!(t, "📖 <b>Training History</b>\n\n<i>No workouts logged yet</i>");
}

#[test]
fn commands_on_a_given_day() {
    let mut st = state();
    assert!(apply_command_at(&mut st, &Command::NewWeek, ADMIN, true, 95_745_399).is_none());
    assert_eq!(st.current.start_date, "18/11");
    assert!(apply_command_at(&mut st, &Command::NewWeek, ADMIN, true, WED_2024_11_20).is_some());
    assert_eq!(st.next.start_date, "27/11");
    let mut full = state();
    full.current.sessions[0].id = 255;
    assert!(apply_command_at(&mut full, &Command::Add("1, a, b, c, d".to_string()), ADMIN, true, 0).is_none());
    assert!(apply_command_at(&mut full, &Command::Add("1, a, b".to_string()), ADMIN, true, 0).is_some());
}

#[test]
fn button_data_reads_back() {
    let w = week("a", "b");
    for s in &w.sessions {
        for wt in ["c", "n"] {
            let b = s.make_button(wt);
            let (got_w, got_id) = parse_checkin(&b.callback_data).unwrap();
            assert_eq!(got_w.iter().collect::<String>(), wt);
            assert_eq!(got_id, s.id);
        }
    }
    let mut big = session(255, "SUN", "Ride", "ECP", "7am");
    big.id = 255;
    assert_eq!(parse_checkin(&big.make_button("c").callback_data).unwrap().1, 255);
}
