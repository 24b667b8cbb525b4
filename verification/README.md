# referee

A runtime for language-model agents, with its decisions proved in Verus.

- `src/` is the library. It does no I/O: what a socket, a clock or a task has to
  supply comes in as a plain value.
  - `provider` holds the wire formats of the vendors, event streams, retries and
    the registry of models.
  - `prompt` and `budget` cut prompts to a token budget.
  - `session` holds the state of one conversation, its record and its messages on
    the wire; `codec` and `neat` are the JSON forms and why they come back.
  - `tool` holds the registry of tools and batches of calls.
  - `engine` drives many sessions: a chat is a sequence of steps, and each step
    says what to do next. `engine/laws.rs` says what holds of all of them.
  - `cache`, `store` and `table` keep things by key.
  - `aura` holds the instances of a daemon and its terminal client.
- `tests/` runs the library.
- `app/` is the daemon and the client around it: HTTP, TCP, files and the
  terminal.

The functions whose contracts are believed rather than proved carry
`external_body` or `assume_specification`; each names the function of the outside
crate that it stands for.
