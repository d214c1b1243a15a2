# benchboard

A dashboard for benchmarks. Machines report invocations: a number of workloads
that are run on one commit, each a number of times, with the time that was spent
in every span of every run. The dashboard records them in a SQLite database and
shows how a commit compares with an earlier one.

## Layout

- `src/` is the verified library. It decides and computes, and does no input or
  output.
- `app/` is the program around it: the HTTP server, the database, the drawing of
  charts and the operations on floating-point numbers.
- `tests/` runs the library.

## The library

The handling of a request is a *flow* (`flow`): a state that says what it wants
done next, most often a statement for the database (`query`), and that is resumed
with what came of it until it has a result. A flow states which state each reply
leads to, and it is proved that every flow ends.

| Module | What it holds |
| --- | --- |
| `schema`, `query` | the tables, and every statement with its values and columns |
| `machines`, `invocations`, `workloads`, `runs` | recording, stopping and listing |
| `running`, `status`, `deadlines` | the status of an invocation and who may change it |
| `progress`, `listing` | how far invocations have come |
| `commits` | finding commits and what was measured on them |
| `home`, `view_spans`, `view_span` | loading what the pages show |
| `stats`, `join`, `report` | comparing two commits and reporting the changes |
| `charts`, `units`, `times`, `filters` | what the charts show, and how values are written |
| `model`, `span_map`, `ids`, `dates`, `error`, `text`, `lists`, `config` | the values that all of them share |

A few functions call other crates and are trusted, not proved: identifiers
(`ids`), dates and durations (`dates`), cutting a text off (`filters`) and walking
two lists side by side (`join`). Each says in its documentation what is claimed of
the function that it calls.
