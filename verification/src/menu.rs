//! The greeting menu: a help button and a greeting button.
use crate::keyboard::{keyboard_view, ButtonSpec, ButtonView, Keyboard};
use crate::text::{chars_equal, chars_of};
use vstd::prelude::*;
use vstd::string::*;

verus! {

/// The two menu rows: help, then greeting.
pub open spec fn menu_rows() -> Seq<Seq<ButtonView>> {
    seq![
        seq![ButtonView { text: "Help ℹ️"@, callback_data: "help"@ }],
        seq![ButtonView { text: "Greet Me 👋"@, callback_data: "greet"@ }],
    ]
}

/// The text that answers a menu button: help for `help`, a greeting by
/// username (or `Friend`) for `greet`, anything else unknown.
pub open spec fn menu_answer(data: Option<Seq<char>>, username: Option<Seq<char>>) -> Seq<char> {
    if data == Some("help"@) {
        "This bot tracks attendance for NUS Aquathlon. Click Greet to test!"@
    } else if data == Some("greet"@) {
        "Hello, @"@ + match username {
            Some(u) => u,
            None => "Friend"@,
        } + "! Ready for the set?"@
    } else {
        "Unknown action"@
    }
}

pub open spec fn opt_view(o: Option<&str>) -> Option<Seq<char>> {
    match o {
        Some(s) => Some(s@),
        None => None,
    }
}

/// The menu's keyboard, one button per row.
pub fn main_menu_keyboard() -> (k: Keyboard)
    ensures
        keyboard_view(k@) == menu_rows(),
{
    let help = ButtonSpec { text: String::from_str("Help ℹ️"), callback_data: String::from_str("help") };
    let greet = ButtonSpec { text: String::from_str("Greet Me 👋"), callback_data: String::from_str("greet") };
    let ghost hv = help@;
    let ghost gv = greet@;
    let mut r1: Vec<ButtonSpec> = Vec::new();
    r1.push(help);
    let mut r2: Vec<ButtonSpec> = Vec::new();
    r2.push(greet);
    assert(r1@.map_values(|b: ButtonSpec| b@) =~= seq![hv]);
    assert(r2@.map_values(|b: ButtonSpec| b@) =~= seq![gv]);
    let mut k: Keyboard = Vec::new();
    k.push(r1);
    k.push(r2);
    assert(keyboard_view(k@) =~= menu_rows());
    k
}

/// The text sent with the menu.
pub fn welcome_text() -> (r: String)
    ensures
        r@ == "Welcome to AquaTallyon! Choose an option:"@,
{
    String::from_str("Welcome to AquaTallyon! Choose an option:")
}

fn is_word(s: &str, word: &str) -> (r: bool)
    ensures
        r == (s@ == word@),
{
    chars_equal(&chars_of(s), &chars_of(word))
}

/// The answer to a press of a menu button with data `data` by a member with
/// username `username`.
pub fn menu_reply(data: Option<&str>, username: Option<&str>) -> (r: String)
    ensures
        r@ == menu_answer(opt_view(data), opt_view(username)),
{
    let (is_help, is_greet) = match data {
        Some(d) => (is_word(d, "help"), is_word(d, "greet")),
        None => (false, false),
    };
    if is_help {
        String::from_str("This bot tracks attendance for NUS Aquathlon. Click Greet to test!")
    } else if is_greet {
        let mut r = String::from_str("Hello, @");
        match username {
            Some(u) => r.append(u),
            None => r.append("Friend"),
        }
        r.append("! Ready for the set?");
        r
    } else {
        String::from_str("Unknown action")
    }
}

} // verus!
