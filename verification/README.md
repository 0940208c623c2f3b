# rlgym_rust

A Rocket League reinforcement-learning gym whose decision logic is verified
with Verus.

- `src/` is the verified library: terminal conditions, the action lookup
  table, the pipe message framing (both directions), the receive loop's decisions
  and byte encoding, kickoff and air-touch
  reward bookkeeping, spawn assignment, observation padding plans and ball
  stacks, game-state layout and player order, the manager's action slices
  and per-agent spreading, the worker's decision table, and the launcher's
  manifest parsing and selection. Each public function states its result in `ensures`;
  the `lemma_*` proof functions state the properties that span calls.
- `tests/` runs the library on concrete values.
- `app/` is ordinary Rust around it: the named pipe, the game process and
  registry, float physics, observation and reward arithmetic, the worker
  threads and the Python module.
