//! Attendance keeping for a club's weekly training sessions.
pub mod text;
pub mod model;
pub mod calendar;
pub mod report;
pub mod keyboard;
pub mod attendance;
pub mod schedule;
pub mod commands;
pub mod line_board;
pub mod menu;
pub mod workouts;
pub mod laws;
