# openbitfun_core

The rules by which a coding agent's sessions are persisted, shown and changed, as a
verified Verus library.

- `src/` is the library. Every function states in its contract what it returns; laws
  that span functions stand beside them as public proof functions.
  - Turns and their navigation: `turn`, `capsule`, `catalog`, `projection`, `window`,
    `history`, `activity`.
  - Files beside the turns: `snapshots`, `selectors`, `transcript`, `compression`,
    `messages`, `json`, `memory`.
  - Sessions: `session`, `lifecycle`, `save`, `revert`, `close`, `manager`, `system`.
  - What remote clients see and ask for: `workspace`, `chat`, `model`, `remote`,
    `file_target`, `plugins`, `assembly`.
  - Ground: `text`, `digest`, `clock`, `errors`.
- `tests/` runs the library on concrete values.
- `app/` holds what touches files, clocks, locks and the services of a product. It
  performs the steps that the library decides on.

Where an operation alternates between outside work and decisions (saving a turn, rolling
a session back, creating a compression transcript), the library holds the decisions as a
function from the present step and what it came to, to the next step.

Trusted are the SHA-256 digest (`sha2`), the hexadecimal encoding (`hex`), random
identifiers (`uuid`), and `String::push` of the standard library. Each is declared in
`digest` or `text` with what is believed of it.
