use aquathallyon::line_board::{
    apply_line_command_on, first_state_on, generate_report, make_keyboard, press_line_button,
    replace_sessions, roll_lines_at, sessions_from_template, template_text, LineAttendance,
    LineCommand,
};
use aquathallyon::menu::{main_menu_keyboard, menu_reply, welcome_text};
use aquathallyon::model::{Attendee, UserProfile};
use aquathallyon::text::{chars_of, decimal_string, is_space_char, parse_unsigned_chars, split_chars, trim_chars};

const MON_2024_11_18: i32 = 739208;
const WED_2024_11_20: i32 = 739210;

fn texts(state: &LineAttendance) -> Vec<String> {
    state.current.sessions.iter().map(|s| s.text.clone()).collect()
}

fn board() -> LineAttendance {
    first_state_on(Some("MON Swim 5pm @ USC\n\n  TUE Run 6pm @ NUS  \r\n"), WED_2024_11_20)
}

#[test]
fn template_lines_become_sessions() {
    let s = sessions_from_template("  A \n\n\t\nB\r\nC");
    let got: Vec<(u8, String)> = s.iter().map(|x| (x.id, x.text.clone())).collect();
    assert_eq!(got, vec![(1, "A".to_string()), (2, "B".to_string()), (3, "C".to_string())]);
    assert!(sessions_from_template("").is_empty());
    assert!(sessions_from_template(" \n \n").is_empty());
}

#[test]
fn many_lines_wrap_ids() {
    let text: String = (0..257).map(|i| format!("s{}\n", i)).collect();
    let s = sessions_from_template(&text);
    assert_eq!(s.len(), 257);
    assert_eq!(s[254].id, 255);
    assert_eq!(s[255].id, 0);
    assert_eq!(s[256].id, 1);
}

#[test]
fn first_start_uses_this_weeks_monday() {
    let st = board();
    assert_eq!(st.current.start_date, "18/11");
    assert_eq!(st.current.end_date, "25/11");
    assert_eq!(st.next.start_date, "25/11");
    assert_eq!(st.next.end_date, "02/12");
    assert_eq!(texts(&st), vec!["MON Swim 5pm @ USC", "TUE Run 6pm @ NUS"]);
    assert!(st.user_registry.is_empty());
    let st = first_state_on(None, MON_2024_11_18);
    assert_eq!(st.current.start_date, "18/11");
    assert_eq!(st.current.sessions.len(), 6);
    assert_eq!(st.current.sessions[5].text, "SAT Bricks 8:30 AM @ Palawan Beach");
    assert_eq!(st.next.sessions[5].id, 6);
}

#[test]
fn saved_template_reads_back() {
    let st = board();
    let saved = template_text(&st);
    assert_eq!(saved, "MON Swim 5pm @ USC\nTUE Run 6pm @ NUS");
    let back = sessions_from_template(&saved);
    let got: Vec<(u8, String)> = back.iter().map(|x| (x.id, x.text.clone())).collect();
    assert_eq!(got, vec![(1, "MON Swim 5pm @ USC".to_string()), (2, "TUE Run 6pm @ NUS".to_string())]);
}

#[test]
fn line_presses_toggle_and_report() {
    let mut st = board();
    let (text, kb) = press_line_button(&mut st, 9, "Zed".to_string(), "ck_c_2").unwrap();
    assert_eq!(
        text,
        "📅 <b>Attendance 18/11 - 25/11</b>\n\n<b>MON Swim 5pm @ USC</b> (0)\n<i>-</i>\n\n<b>TUE Run 6pm @ NUS</b> (1)\nZed\n\n"
    );
    assert_eq!(kb[1][0].text, "TUE Run 6pm @ NUS");
    assert_eq!(kb[1][0].callback_data, "ck_c_2");
    press_line_button(&mut st, 8, "Yu".to_string(), "ck_c_2").unwrap();
    let (text, _) = press_line_button(&mut st, 9, "Zed".to_string(), "ck_c_2").unwrap();
    assert!(text.contains("<b>TUE Run 6pm @ NUS</b> (1)\n<s>Zed</s>, Yu\n"));
    // an id that is not a number reads as 0; the name is still recorded
    let (_, kb) = press_line_button(&mut st, 7, "Xi".to_string(), "ck_n_x").unwrap();
    assert_eq!(kb[0][0].callback_data, "ck_n_1");
    assert_eq!(st.user_registry.get(&7).unwrap().alias, "Xi");
    assert!(st.next.sessions.iter().all(|s| s.attendees.is_empty()));
    assert!(press_line_button(&mut st, 7, "Xi".to_string(), "checkin_c_1").is_none());
}

#[test]
fn line_report_names_unknown_members() {
    let mut st = board();
    st.current.sessions[0].attendees = vec![Attendee { user_id: 3, cancelled: false }];
    st.user_registry.insert(4, UserProfile { alias: "Q".to_string() });
    let r = generate_report(&st.current, &st.user_registry);
    assert!(r.contains("<b>MON Swim 5pm @ USC</b> (1)\n?\n\n"));
    let k = make_keyboard(&st.next.sessions, "n");
    assert_eq!(k[0][0].callback_data, "ck_n_1");
}

#[test]
fn replacing_and_rolling() {
    let mut st = board();
    replace_sessions(&mut st, " \n ");
    assert_eq!(texts(&st), vec!["MON Swim 5pm @ USC", "TUE Run 6pm @ NUS"]);
    replace_sessions(&mut st, "A\nB\nC");
    assert_eq!(texts(&st), vec!["A", "B", "C"]);
    assert_eq!(st.next.sessions.len(), 3);
    st.next.sessions[0].attendees = vec![Attendee { user_id: 1, cancelled: false }];
    roll_lines_at(&mut st, WED_2024_11_20);
    assert_eq!(st.current.start_date, "25/11");
    assert_eq!(st.current.sessions[0].attendees.len(), 1);
    assert_eq!(st.next.start_date, "27/11");
    assert_eq!(st.next.end_date, "04/12");
    assert!(st.next.sessions.iter().all(|s| s.attendees.is_empty()));
}

#[test]
fn only_the_admin_changes_the_schedule() {
    let mut st = board();
    assert!(apply_line_command_on(&mut st, &LineCommand::Show, false, false, 0).is_none());
    assert!(apply_line_command_on(&mut st, &LineCommand::Edit("X".to_string()), false, true, 0).is_none());
    assert!(apply_line_command_on(&mut st, &LineCommand::NewWeek, false, true, 0).is_none());
    assert!(apply_line_command_on(&mut st, &LineCommand::Trainings, false, true, 0).is_none());
    assert_eq!(texts(&st), vec!["MON Swim 5pm @ USC", "TUE Run 6pm @ NUS"]);
    assert!(apply_line_command_on(&mut st, &LineCommand::Help, false, true, 0).is_none());
    let o = apply_line_command_on(&mut st, &LineCommand::Help, true, true, 0).unwrap();
    assert_eq!(o.reply.text, "/show, /show_next, /trainings, /edit, /new_week");
    assert!(!o.reply.html && !o.save);
    let o = apply_line_command_on(&mut st, &LineCommand::Trainings, true, false, 0).unwrap();
    assert_eq!(o.reply.text, "<pre>MON Swim 5pm @ USC\nTUE Run 6pm @ NUS</pre>");
    let o = apply_line_command_on(&mut st, &LineCommand::Edit("X\nY".to_string()), true, false, 0).unwrap();
    assert!(o.save);
    assert_eq!(texts(&st), vec!["X", "Y"]);
    let o = apply_line_command_on(&mut st, &LineCommand::NewWeek, true, true, WED_2024_11_20).unwrap();
    assert!(o.reply.text.starts_with("🔄 <b>Week Rolled!</b>\n\n📅 <b>Attendance 25/11 - 02/12</b>"));
    let o = apply_line_command_on(&mut st, &LineCommand::ShowNext, false, true, 0).unwrap();
    assert!(o.reply.text.starts_with("📅 <b>Attendance 27/11 - 04/12</b>"));
    assert_eq!(o.reply.keyboard.unwrap()[0][0].callback_data, "ck_n_1");
}

#[test]
fn menu_answers() {
    let k = main_menu_keyboard();
    assert_eq!(k.len(), 2);
    assert_eq!((k[0][0].text.as_str(), k[0][0].callback_data.as_str()), ("Help ℹ️", "help"));
    assert_eq!((k[1][0].text.as_str(), k[1][0].callback_data.as_str()), ("Greet Me 👋", "greet"));
    assert_eq!(menu_reply(Some("help"), None), "This bot tracks attendance for NUS Aquathlon. Click Greet to test!");
    assert_eq!(menu_reply(Some("greet"), Some("ann")), "Hello, @ann! Ready for the set?");
    assert_eq!(menu_reply(Some("greet"), None), "Hello, @Friend! Ready for the set?");
    assert_eq!(menu_reply(Some("other"), None), "Unknown action");
    assert_eq!(menu_reply(None, Some("x")), "Unknown action");
    assert_eq!(welcome_text(), "Welcome to AquaTallyon! Choose an option:");
}

#[test]
fn text_helpers() {
    assert_eq!(decimal_string(0), "0");
    assert_eq!(decimal_string(120), "120");
    assert_eq!(decimal_string(u64::MAX), u64::MAX.to_string());
    let p = |s: &str, m: u64| parse_unsigned_chars(&chars_of(s), m);
    assert_eq!(p("007", 255), Some(7));
    assert_eq!(p("+255", 255), Some(255));
    assert_eq!(p("256", 255), None);
    assert_eq!(p("+", 255), None);
    assert_eq!(p("", 255), None);
    assert_eq!(p(" 1", 255), None);
    assert_eq!(p("18446744073709551615", u64::MAX), Some(u64::MAX));
    assert_eq!(p("18446744073709551616", u64::MAX), None);
    for s in ["12", "+9", "300", "x", "", "-1", "99999999999999999999"] {
        assert_eq!(p(s, 255), s.parse::<u8>().ok().map(u64::from));
    }
    let t: String = trim_chars(&chars_of("\u{2003} a b \u{85}\n")).into_iter().collect();
    assert_eq!(t, " a b ".trim());
    assert_eq!(t, "a b");
    let parts: Vec<String> = split_chars(&chars_of("a,,b,"), ',').into_iter().map(|v| v.into_iter().collect()).collect();
    assert_eq!(parts, vec!["a", "", "b", ""]);
    let parts: Vec<String> = split_chars(&chars_of(""), ',').into_iter().map(|v| v.into_iter().collect()).collect();
    assert_eq!(parts, vec![""]);
}

#[test]
fn trainings_list_sent_back_through_edit_keeps_lines() {
    let mut st = board();
    st.current.sessions[1].attendees = vec![Attendee { user_id: 1, cancelled: false }];
    let listed = template_text(&st);
    replace_sessions(&mut st, &listed);
    assert_eq!(texts(&st), vec!["MON Swim 5pm @ USC", "TUE Run 6pm @ NUS"]);
    let ids: Vec<u8> = st.next.sessions.iter().map(|s| s.id).collect();
    assert_eq!(ids, vec![1, 2]);
    assert!(st.current.sessions.iter().all(|s| s.attendees.is_empty()));
}

#[test]
fn white_space_is_what_char_says() {
    for u in 0..0x11_0000u32 {
        if let Some(c) = char::from_u32(u) {
            assert_eq!(is_space_char(c), c.is_whitespace(), "{:?}", c);
        }
    }
}
