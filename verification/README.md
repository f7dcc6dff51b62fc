# egg_local

Equality saturation that stays local: rewrites are searched only from a selected set of
e-classes, the local scope, rather than from the whole e-graph. E-classes that rewrites
create join the scope for the next iteration, unless they are merged into an existing
e-class outside it.

```rust
let runner: RunnerLocal<MyGraph> = RunnerLocal::default()
    .with_egraph(egraph)
    .with_iter_limit(30)
    .with_node_limit(10_000)
    .with_time_limit(Duration::from_secs(5))
    .with_local_scope(vec![Id::from(id)])
    .run(&rules);
```

The e-graph is any type that implements `EGraph`. Nothing is assumed of what it does: the
contracts say which of its functions are called, on what, and what is made of the answers.
The same holds of hooks (`LocalHook`) and of schedulers (`LocalRewriteScheduler`).

## Layout

- `src/runner.rs`: one iteration (`run_one`) and the run (`run`).
- `src/setup.rs`: making a runner and setting it up.
- `src/limits.rs`, `src/hook.rs`, `src/apply.rs`, `src/scope.rs`: the parts of an iteration;
  `src/timed.rs`: the same with the time that they take.
- `src/scheduler.rs`, `src/backoff.rs`: schedulers; the default bans a rule for a while
  when it matches too often, and doubles its limit and the length of the ban each time.
- `src/report.rs`, `src/rules.rs`: the summary of a run, and names that rules share.
- `src/*_laws.rs`: what holds across functions.
- `src/egraph.rs`, `src/outcome.rs`, `src/index_map.rs`, `src/symbol.rs`, `src/time.rs`: the
  types that the rest is made of.
- `app/`: warnings, logging and printing, and closures as hooks.

## Notes

- Times are counted in whole nanoseconds.
- Where a count would pass what a machine word holds, the run stops with
  `StopReason::Overflow`.
- A hook may change the e-graph, the roots and the scope, and sees the records of the
  iterations so far. It cannot change those records or the limits, so every run ends.
