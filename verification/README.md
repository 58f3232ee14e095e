# Browser search

A verified library for searching the web through a browser that is already running: a daemon with an
HTTP API hands searches to a browser extension, and a command line client asks the daemon for pages
of results and merges them.

The rules of the service are in `src/`, with contracts that Verus proves:

- `daemon::pending_job`, `daemon::jobs`: the life of a search job and the scheduler.
- `daemon::job_calls`, `daemon::scheduler_runs`: what holds over any sequence of calls and events.
  Searches go out in the order in which their jobs were accepted and never twice, no more of them are
  with the browser than it has slots, a cancelled search holds up the next one until its tab is
  cleaned up, and no caller is answered twice or forgotten.
- `daemon::bridge`, `daemon::messages`, `daemon::session`: which extension may connect, and what each
  of its messages means.
- `daemon::state`: the daemon as a whole, event by event.
- `daemon::api`, `daemon::model`, `daemon::command`, `daemon::error`: requests, the instructions for
  the extension, results in their field order, and the errors that callers see.
- `daemon::config`, `daemon::defaults`, `daemon::settings`, `daemon::settings_file`,
  `daemon::loading`, `daemon::validation`, `daemon::token`, `daemon::secrets`: the configuration,
  from the text of the file and the command line to the rules that the daemon runs with.
- `cli`: the arguments and the environment of the client, the pages that it asks for, how they are
  merged, and what the responses of the daemon mean.
- `ordered_map`, `text`, `web_address`, `unique_id`: what the rest is built on.

Calls into other crates stand behind functions whose documentation starts with "Trusted:". Their
contracts are believed, all others are proved.

`app/` is the program around the library: sockets, HTTP, files, serialization, timers and processes.
`tests/` runs the library on concrete values.
