# svc_scheduler

Flight scheduling for a cargo air service, as a library verified with Verus,
and the service binary around it.

- `src/` — the verified library: timeslot algebra and calendars
  (`schedule`), flight plans (`flight_plan`), aircraft availability
  (`vehicle`), vertipad timeslots and the search for departure/arrival pairs
  (`vertiport`), itinerary validation and planning (`itinerary`), the
  vertiport and vehicle checks of flight planning (`router_state`), the
  nearest-vertiport choice (`router`), request checks and the draft cache
  (`api`), task rules and the task store's replies (`tasks`, `queue`).
  Searches that need an outside answer (a path from the GIS service) are
  state machines: the caller performs the search and hands back the answer.
- `app/` — the service: configuration, the task store (Redis), the route
  graph and flight time estimates (floating point), and the drivers that
  answer the library's path searches.
- `tests/` — tests of the library.

Verify with Verus; the tests run with `cargo test`.
