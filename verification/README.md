# mnemosyne

The backend of a spaced-repetition study service: study sets and cards,
reviews scheduled by FSRS, weak-card detection, and AI study modes (card and
quiz generation, blurting, Feynman evaluation, Socratic tutoring, chat) that
talk to a chat-completion provider and to a Knowledge Store.

## Layout

- `src/` is the library, written in Verus. Every function in it has a
  contract that Verus proves: the request rules, prompt builders, reply
  parsers and validators, the review-queue orderings, the weak-card rule,
  token handling, migrations bookkeeping, and, for each endpoint that calls
  the model or the database, the decisions taken between those calls (a
  function from what the last call returned to the next step or the answer).
  Calls into `uuid`, `hex`, `sha2`, `rand` and `serde_json` go through small
  trusted wrappers whose contracts are stated beside them.
- `tests/` runs the library on concrete values.
- `app/` is the HTTP server and command-line entry point: actix-web routing,
  sqlx queries, the HTTP clients for the model provider and the Knowledge
  Store, and the FSRS scheduler (floating point). It hands plain values to
  the library and acts on what comes back.
