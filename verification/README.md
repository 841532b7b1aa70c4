# catga_flow

Durable and compensating flows: the decisions, verified with Verus.

`src/` holds what flows decide and keep: durable records and their layout, waits, schedules,
claims and their fencing, rollbacks, the checkpointed flow DSL, state machines, and the source
text of message and handler macros. Every function has a contract over a mathematical model of
its data; public proof functions named `lemma_...` state what holds across functions, such as
that a stored frame is read back, that writes are fenced by versions, or that a restart goes on
where a checkpoint stopped.

Work that only a caller can do is asked for as a step. A step is a value of an enum such as
`RuntimeStep` or `CursorStep`; its documentation names the method that takes the outcome. `app/`
holds asynchronous drivers that do this work with `tokio`, stores and schedulers.

The library calls outside crates through declared contracts: `dashmap` keeps the schedules of
`MemoryFlowScheduler`, `tokio` the permits of a `FlowThrottle`, and `proc_macro2`, `quote` and
`syn` read source text (`src/syntax.rs`).

`tests/` runs the library, with drivers that keep everything in memory.
