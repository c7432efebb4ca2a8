# Exam Companion

Bookkeeping for in-person exams: a student list imported from CSV,
attendance, restroom visits, per-student and exam-wide notes, a countdown
that follows duration changes, a timestamped event log and a Markdown
session report.

- `src/` is the library, verified with Verus: `text` (trimming, search,
  lines, decimal rendering), `clock` (timestamps and their `%Y-%m-%d` /
  `%H:%M:%S` forms), `models` (exam, students and the CSV parser, events,
  the session state and its operations), `data` (import checks and the
  report), `ui` (the decisions behind the screens: start checks, duration
  steps, the countdown, status and summary lines).
- `app/` is the GTK/libadwaita program around it: windows, dialogs, file
  I/O and timers.
- `tests/` runs the library on concrete inputs.
