# tail

The verified core of a window usage time tracker for Hyprland, written in
Verus.

- `src/` is the library. Every function in it is verified: event-line parsing
  for the Hyprland socket (`ipc`), the tracking service's decisions
  (`service`), chart data and its per-slot grouping (`chart_data`,
  `stacked_bar`), per-period aggregation for the time navigation
  (`aggregation`), the details list with its stable newest-first sort and its
  filters (`details`), duration and colour formatting (`duration`, `color`),
  caching with a time to live (`cache`, `stores`), the statistics and categories tables
  (`statistics`, `categories`), the quick time ranges (`time_range`), the interface's refresh
  decisions (`refresh`), and the
  state of the views and dialogs (`navigation`, `dialogs`, `theme`, `icons`,
  `dashboard`).
  Calendar lookups, the clock and the local time zone come from `chrono`,
  behind a few trusted functions in `time`; the system's dark mode comes from
  `dark_light`.
- `tests/` exercises the library on concrete values.
- `app/` is the service binary: it reads the Hyprland socket with `tokio`,
  feeds the events to the library's service state machine, and performs the
  storage and clock work it asks for.
