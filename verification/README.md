# saga

A journal of "echoes" (plain notes, meditations, tasks and workouts) kept day
by day, with mindfulness bells. The rules of the journal are a Verus library
whose functions carry `requires`/`ensures` contracts proved by Verus.

Layout:

- `src/` — the verified library:
  - `calendar` — dates, times of day and local date-times (Gregorian day
    numbers, chrono for calendar arithmetic and the clock);
  - `ids` — record identifiers (random UUIDs);
  - `model` — echoes and their kinds (tasks with checklists, due dates and
    recurrence; meditations; workouts planned from templates and prefilled
    from history), sections, seeds;
  - `timeline`, `signpost` — what the timeline shows: cards, labels, the
    forms that create and edit echoes, and the days newest first;
  - `storage` — how values are written to database columns and read back;
  - `bell` — when a bell rings, and the list of bells;
  - `config` — which database path wins;
  - `text` — small text operations the rules rely on.
- `tests/` — tests of the library on concrete values.
- `app/` — the command line, the SQLite store, JSON forms of the records and
  floating-point statistics, around the library.

Rules followed where the sources disagree:

- A task's completion is set and cleared by hand only: ticking every item
  of its checklist does not complete it, and unticking one does not reopen it.
- Echoes are made with `Echo::new(day, title, content)`, in no section;
  `Echo::new_in_section` files a new echo under a section.
