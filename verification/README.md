# canon_mini_agent

The rules of a small coding agent as a verified library, with its command-line tools
around it.

- `src/` holds the library. Every function states what it returns, and Verus proves it:
  the event log and its writer, the classes of errors and blockers, the evaluation of a
  workspace, the detectors over program graphs and the issues they report, the complexity
  reports, the repair of actions, the routes of messages, the training rows, the
  supervisor, and the writer of doc comments.
- `tests/` runs the library on concrete values.
- `app/` holds the tools: arguments, files, processes, and the scores that are no whole
  numbers.

Scores are exact in the library: a share is a pair of whole numbers, and a branch score
counts half points. Where a text needs a rounded number, the caller hands in how it is
written.

`serde_json` reads and prints JSON; `json_text` states what is taken from it without
proof. Laws that span several functions are public proof functions whose names begin with
`law_`.
