# hermes_nmi

The neuro-muscular interface between a reasoning layer and a cellular agent
("Claw"), with its discrete logic verified by Verus.

## Layout

- `src/` — the verified library.
  - `pulse.rs`: intents, Claw actions, commands and command chains, each with
    a mathematical value (`ActionModel`, `CommandModel`).
  - `dispatcher.rs`: the fixed translation table from intents to commands,
    the trimming of chains under strain, the integer time budget check and
    the telemetry state hash.
  - `claw_adapter.rs`: the agent (lifecycle state machine, equipment slots,
    step counter), the execution of commands and chains against it, and the
    laws that tie translation and execution together.
  - `pincher_hook.rs`: routing of classified reflex matches, the reflex chain
    and trigger actions.
  - `telemetry.rs`: fulfillment status and contact state.
  - `text.rs`: character-exact comparison of string slices.
- `app/` — the layer around it: tension and energy budgets, cost estimates,
  the classification of matches by confidence (all floating-point), the serde
  forms of the vocabulary, the clock, and the asynchronous interface trait.
- `tests/` — tests of the library.
