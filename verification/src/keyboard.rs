//! The inline keyboards under the reports: one button per session, whose
//! callback data names the week and the session.
use crate::model::{sessions_view, SessionView, TrainingSession};
use crate::text::{decimal, push_decimal};
use vstd::prelude::*;
use vstd::string::*;

verus! {

/// A button of an inline keyboard: the label shown and the data sent back
/// when it is pressed.
#[derive(Debug)]
pub struct ButtonSpec {
    pub text: String,
    pub callback_data: String,
}

pub struct ButtonView {
    pub text: Seq<char>,
    pub callback_data: Seq<char>,
}

impl View for ButtonSpec {
    type V = ButtonView;

    open spec fn view(&self) -> ButtonView {
        ButtonView { text: self.text@, callback_data: self.callback_data@ }
    }
}

/// Rows of buttons, top to bottom.
pub type Keyboard = Vec<Vec<ButtonSpec>>;

pub open spec fn keyboard_view(k: Seq<Vec<ButtonSpec>>) -> Seq<Seq<ButtonView>> {
    k.map_values(|row: Vec<ButtonSpec>| row@.map_values(|b: ButtonSpec| b@))
}

/// The button of a session: `day: activity @ location`, sending
/// `checkin_{week_type}_{id}`.
pub open spec fn session_button(s: SessionView, week_type: Seq<char>) -> ButtonView {
    ButtonView {
        text: s.day + ": "@ + s.activity + " @ "@ + s.location,
        callback_data: "checkin_"@ + week_type + "_"@ + decimal(s.id as nat),
    }
}

/// One row per session, each holding the session's button.
pub open spec fn session_keyboard(sessions: Seq<SessionView>, week_type: Seq<char>) -> Seq<
    Seq<ButtonView>,
> {
    sessions.map_values(|s: SessionView| seq![session_button(s, week_type)])
}

impl TrainingSession {
    /// The button that signs up for this session; `week_type` is `c` for
    /// the current week and `n` for the next.
    pub fn make_button(&self, week_type: &str) -> (b: ButtonSpec)
        ensures
            b@ == session_button(self@, week_type@),
    {
        let mut label = self.day.clone();
        label.append(": ");
        label.append(self.activity.as_str());
        label.append(" @ ");
        label.append(self.location.as_str());
        let mut data = String::from_str("checkin_");
        data.append(week_type);
        data.append("_");
        push_decimal(&mut data, self.id as u64);
        ButtonSpec { text: label, callback_data: data }
    }
}

/// The keyboard of a week's sessions.
pub fn main_menu_keyboard(sessions: &Vec<TrainingSession>, week_type: &str) -> (k: Keyboard)
    ensures
        keyboard_view(k@) == session_keyboard(sessions_view(sessions@), week_type@),
{
    let mut rows: Keyboard = Vec::new();
    let mut i: usize = 0;
    while i < sessions.len()
        invariant
            i <= sessions.len(),
            rows@.len() == i,
            forall|j: int|
                0 <= j < i ==> (#[trigger] rows@[j])@.map_values(|b: ButtonSpec| b@) == seq![
                    session_button(sessions@[j]@, week_type@),
                ],
        decreases sessions.len() - i,
    {
        let b = sessions[i].make_button(week_type);
        let row = vec![b];
        assert(row@.map_values(|b: ButtonSpec| b@) =~= seq![
            session_button(sessions@[i as int]@, week_type@),
        ]);
        rows.push(row);
        i = i + 1;
    }
    assert(keyboard_view(rows@) =~= session_keyboard(sessions_view(sessions@), week_type@));
    rows
}

} // verus!
