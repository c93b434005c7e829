# things-api

A REST API server for Things 3 (macOS task manager) that bridges HTTP to
Things 3 through AppleScript (`osascript`), with its logic verified by Verus.

## Layout

- `src/` — the verified library (`things_api`):
  - `text.rs`: whitespace, trimming, splitting, line breaking and joining of
    text, each defined over `Seq<char>`, with the laws that splitting undoes
    joining.
  - `escape.rs`: escaping text for AppleScript string literals, and the law
    that AppleScript reads the escaped text back as the text it started from.
  - `models.rs`: tasks, projects, tags, areas and requests, with their views.
  - `records.rs`: reading the pipe-delimited records that the scripts print.
  - `scripts.rs`: the AppleScript programs, fixed or built from a request.
  - `commands.rs`: the commands as requests (a script to run and what they
    wait for) and `Pending::advance`, which reads a script's output and says
    whether the command is finished or needs one more script.
  - `server.rs`: bearer-token checks, error statuses, token generation, the
    port, and the tunnel's public URL.
  - `stats.rs`: the tallies of the load test and its status line.
  - `stress.rs`: the tasks the load test creates, the ids it keeps for
    cleanup, and its rotation over the read endpoints.
- `app/` — the program: HTTP routes (axum), running `osascript`, the
  Cloudflare tunnel, and the `stress` subcommand (`things-api stress ...`).
- `tests/` — tests of the library.
