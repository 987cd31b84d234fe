# docker_watchdog

A watchdog for Docker containers: it follows the daemon's container events,
reports crashes (with the container's last log lines), counts them, and
restarts failed containers within a per-container budget, with exponential
backoff and a cooldown after which the budget is restored.

The decisions are a library verified with Verus (`src/`):

- `config` — settings: defaults, reading them from environment variables
  (name/value pairs), validation.
- `restarter` — the restart budget per container: limits and overrides,
  cooldown, backoff delays, stale-record cleanup, and the restart plan.
- `monitor` — what to do about an event (`watcher`), suppression of repeated
  events (`dedup`), crash counts and the heartbeat summary (`metrics`), the
  startup scan, the event and scan filters, and the reconnect backoff.
- `docker`, `notifier`, `logger`, `utils` — the container event and its
  summary, the console alert lines, the reading of log-fetch errors, short
  ids and log truncation.
- `text`, `keyed`, `clock` — character-level helpers, sequences of pairs read
  as maps, and the monotonic clock.

`app/` is the program around it: the Tokio runtime, the Docker connection
(bollard), the event stream and timers, log fetching, the notifier trait, and
the logging setup.
