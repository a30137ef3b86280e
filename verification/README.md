# daily-commando

A minimalist daily-standup timer, commando style: a number of soldiers share
a time budget, each gets an equal allowance, and the screens show who speaks,
how much is left and who ran over.

## Layout

- `src/` — the verified library (Verus). Every function carries a contract
  over a mathematical model, and the properties that span several functions
  are stated and proved as `law_*` proof functions.
  - `session` — the session state machine (`Session`, its model
    `SessionModel` and invariant), snapshots and per-soldier statistics;
    an early hand-over carries the unspoken seconds forward to the next
    speaker.
  - `lifecycle` — whole histories of a session: the laws that hold after
    any sequence of operations (invariant, phase table, speaker order,
    frozen configuration, counters that count exactly their ticks).
  - `flow` — which screen comes next and what a key does on the running and
    debrief screens; nothing hands the word over but a key.
  - `welcome` — the briefing form, edited key by key, with the speaking
    order moved (Alt+↑/↓), shuffled (`s`/F5) or reset (`r`/F6).
  - `roster` — permutations of the roster and the shuffle that draws one
    from random numbers handed in.
  - `screens` — clock texts, the speaker's status, the progress bar, the
    robot parade and the debrief lines.
  - `ascii_fonts` — the big seven-row clock font.
  - `landscape` — the scene (voyage, cascade, abyss) and how it is painted
    onto a character canvas.
  - `telemetry` — phase labels, debrief totals and the routes of the
    metrics endpoint.
  - `cli` — the configuration built from the command line.
  - `text`, `color` — small text utilities and the terminal colours.
- `tests/` — tests of the library on concrete values.
- `app/` — the program: argument parsing (clap), the terminal (crossterm),
  the JSON output (serde), logs and metrics (tracing, prometheus, tiny_http).
  It reads input (keys, and in JSON mode lines on stdin), draws the random
  numbers of a shuffle, calls the library for every decision and paints the
  result.
