# piper

A pipeline runtime whose stages run on worker threads. The number of threads at each stage follows the
load: queues that grow get more workers, stages that idle give theirs up, and states of workers that
leave are merged where a stage can do so.

- `src/` holds the decisions, with contracts that Verus proves: the declaration language (`tokens`,
  `grammar`, `merging`, `union_find`, `wiring`, `expansion`, `expand`, `construction`), graphs and their
  checks (`graph`, `check`, `cycles`, `plan`, `policy`), the workers (`worker`, `branch`, `pipe`,
  `recycle`, `links`), the supervisor (`startup`, `rounds`, `supervisor`, `bookkeeping`, `control`,
  `scaling`, `outcome`), and telemetry (`snapshot`, `observe`, `manifest`, `telemetry`, `columns`,
  `fields`).
- `app/` holds threads, channels, clocks, files, floating point and generated code. It does what the
  library tells it to and hands back what happened.
- `tests/` runs whole pipelines on one thread, and each part on its own.

Times that are compared are counted in nanoseconds. Rates are only carried by the library; where they
are compared, the outcome of the comparison is handed in.
