# SHOCS Light Controller

A controller for LIFX bulbs: it discovers bulbs, keeps their durable configuration in PostgreSQL,
runs Test Mode and timers on a daily schedule, and offers manual control over HTTP.

- `src/` is the library, verified with Verus: the controller's state, its rules and its schedules,
  and what each of its operations does with the replies that it gets.
  - `text`, `order`, `clock`, `device`: identifiers and names, stable ordering, durations, bulbs.
  - `config`, `schedule`, `test_mode`: settings, civil-time schedules, Test Mode's colour walk.
  - `store`, `registry`, `controller`: stored rows, lights and groups, the shared state.
  - `discovery`, `enrollment`, `control`, `manage`: operations that alternate with the network and
    the database, one step per reply.
  - `tasks`, `timers`: what the background tasks decide.
  - `web`, `views`: what requests are held to and what pages show.
- `app/` is the process around it: sockets, SQL, HTTP, the clock, the floating-point level of a
  light on its way, and the loops that carry out what the library asks for.
- `tests/` exercises the library from outside.

The shared state has a mathematical model, `controller::ControllerModel`; every operation says
which model it leads to. An operation that a durable store must accept first takes the store's
reply as an argument, and a refusal leaves the model as it was.
