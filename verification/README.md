# phase_engine

A verified core of the Phase Magic: The Gathering rules engine, written in Verus.

- `src/state.rs`, `src/types.rs`, `src/ability.rs`, `src/replacement.rs`: the game
  state and its mathematical model (`StateModel`), objects, abilities, events and
  replacement choices.
- `src/game/`: turn control, public-state finalisation, zone changes, damage,
  state-based actions, combat (declaring attackers and blockers, assigning combat
  damage), replacement-choice and copy-target handling, and the effect resolvers
  (reveal, speed, copy, life, tap) with ability chains.
- `src/parser/`: the Oracle-text phrase grammar (conditions, durations, zone and
  property filters, target and type phrases) as functions on text with exact
  contracts, and the parse-warning buffer.
- `src/persistence.rs`: which stored sessions are returned and which are stale.
- `src/messages.rs`: the text of each refusal.
- `app/`: the SQLite session store (`GameDb`) and the per-thread warning buffer,
  built on the library.

Every public operation states its effect as an equation over the model
(`World` = state model and emitted events); the laws (`law_*` proof functions)
state what holds across operations.

Not modelled: triggered-ability collection (the combat handlers do not collect
triggers; a trigger already waiting for targets is honoured), derived display
state (finalising the public state synchronises priority and evaluates layers
only), and the replacement pipeline that builds a replacement choice (a pending
choice holds its options, each already resolved).
