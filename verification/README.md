# cronsched

A cron-style scheduling library, verified with Verus.

- `collection`: `CopyRing`, a fixed buffer read as an endless cycle, and
  its iterators.
- `schedule`: `Schedule`, read from a cron expression or a macro
  (`@hourly`, `@daily`, `@weekly`, ...); `schedule::parser` checks the
  values of each field and tokenizes fields; `schedule::fields` and
  `schedule::table` hold two other forms of the field table.
- `table`: the field table that `Schedule` searches: the first allowed time
  of day and date at or after a given date and time.
- `career`, `scheduler`, `utils::map`: the job board of the job scheduler
  (which job runs next, which are deleted), the clock's decision to sleep or
  run, and the small key map they use.
- `route_data`, `collect`: the places and route requests of the route
  collector, the plan of one collection run (`collect::collection_run`:
  four legs to the HEB on FM-78 and the waits between them), and the
  dating of a routes response by its `date` header.
- `clock`: dates and times, checked with `chrono`.

`app/` holds the runtime around the library: reading schedules against
`chrono` date-times in a time zone (after `Schedule::after_supported`
shows the search safe), and the async scheduler (clock and runner tasks
on `tokio`) with a small demonstration program.

The route collector's own runtime is not here: the gRPC client of the
routes service, the MongoDB store and the task that runs
`collect::collection_run` on its schedule need `tonic`, `mongodb`, `bson`
and the generated protocol buffers, none of which this crate depends on.
The library holds what that runtime decides (the plan of a run, the
waypoints, the dating of a response) so that it can be driven from
outside.
