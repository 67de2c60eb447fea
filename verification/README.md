# aquathallyon

Attendance keeping for a club's weekly training sessions, driven by a
Telegram bot. The library in `src/` holds every decision the bot makes and
is verified with Verus; `app/` is the bot itself (Telegram, files, the
database, the Sunday-evening timer) and only moves values in and out.

- `text`: strings as character sequences; trimming, splitting, joining,
  decimal numbers.
- `model`: sessions, weeks, the pair of weeks with the member registry.
- `calendar`: days as numbers, with chrono doing the calendar work.
- `report`, `keyboard`: the HTML attendance report and the inline buttons.
- `attendance`: a button press toggles a member's sign-up.
- `schedule`: `/add`, `/edit`, `/delete` in both weeks, and the roll-over.
- `commands`: what each command does and answers; only the administrator
  may change the schedule or roll the week.
- `workouts`: `/log` records a member's workout, `/history` lists them.
- `line_board`: the one-line schedule kept as a text template.
- `menu`: the greeting menu.
- `laws`: properties that span operations, proved.

`app/` starts the attendance bot; started with the argument `menu` it runs
the greeting menu bot instead.
