# itsy

The core of a coding agent for small language models, with its behaviour stated
in contracts and proved by Verus.

* `src/` is the library. It decides: what a turn of the agent does next, which
  calls are let through, how a conversation is kept small, what tools answer,
  how settings are read, what a screen shows. Every function says in its
  `requires` and `ensures` what it does, over spec functions on plain values;
  properties that span functions are stated as `law_*` proof functions.
* `src/outside.rs` holds what is believed, not proved: the calls into other
  crates (regular expressions, JSON, TOML, URLs, tree-sitter, digests, column
  widths, random numbers) and into parts of the standard library.
* `tests/` runs the library on concrete values.
* `app/` is the program around it: the command line, the terminal, the network,
  the file system, the database and what is computed in floating point.

Where to start:

| Module | What it decides |
|---|---|
| `agent::driver` | a whole turn, event by event |
| `agent::gate`, `agent::aftermath`, `agent::reply` | the guards around calls, what follows from results, what follows from words |
| `agent::evaluator` | the independent evaluation of finished work |
| `agent::server`, `acp`, `api` | serving other programs |
| `executor` | the built-in tools |
| `features` | what models are asked for, and what is made of the answers |
| `code_graph` | symbols and calls in source texts |
| `config`, `guard`, `escalation` | settings, endpoints, larger models |
| `fullscreen`, `commands`, `bench` | what the user sees and types |
| `cognition`, `evals` | routing, budgets, retries, suites of cases |
| `text`, `json`, `edit` | texts, values and replacements |
