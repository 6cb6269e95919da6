# rearch

A verified library of *capsules*: blueprints for pieces of data that a `Container` builds
on first read, connects in a data flow graph (who read whom), and rebuilds incrementally
when the private state of a capsule (its *side effects*) is mutated.

## Layout

- `src/` — the library, verified with Verus:
  - `lib.rs`: `Capsule`, `Container` (reads, listeners, side effect mutations and
    transactions) and the relation `mutated_as` that states what a mutation does;
  - `txn.rs`: the data flow graph — building, disposing, the depth-first build order,
    garbage collection of idempotent capsules and the rebuild propagation
    (`propagates`);
  - `capsule_key.rs`, `capsule_reader.rs`, `read_capsules.rs`,
    `side_effect_registrar.rs`: ids, reading other capsules while building (and a
    mocked reader), consistent reads, registering side effects;
  - `side_effects.rs`, `effects/`: the built-in side effects, state transformers,
    `multi`, overridable capsules;
  - `mutation.rs`, `ui.rs`, `naming.rs`: query mutation states, view layers, the names
    generated for capsule types;
  - `laws.rs`: properties that relate several operations.
- `tests/` — the test suite (plain Rust).
- `app/` — what runs outside the verified library: tokio-driven asynchronous side
  effects, a container shared between tasks, and a drop-based side effect.

## Main guarantees

- A rebuild after a mutation touches only capsules downstream of the mutated one;
  the mutated capsule is rebuilt, and (in a graph without cycles) so is every capsule
  that stays in the graph and read a capsule whose data changed — after the capsules it
  depends on.
- Only idempotent capsules (no side effects) that changed are ever garbage collected; in a
  graph without cycles, every capsule that was rebuilt from or read a capsule that changed,
  and leads to idempotent capsules only, is.
- The data a container keeps for a capsule is what the capsule's build returned; a rebuilt
  capsule counts as changed exactly when its `eq` finds the new data unlike the old, and
  only changes reach the capsules that read it.
- A mutation runs on the capsule's state, and the rebuild starts from the state it left.
- Mutations inside a side effect transaction rebuild nothing until the outermost
  transaction ends.
- Reads are stable: reading a built capsule changes nothing.
