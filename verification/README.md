# antibot — Security Protective Botnet Defensive

Detects abusive traffic by volume in nginx/apache access logs ("combined"
format) and keeps a blacklist shared between servers through PostgreSQL;
bans are applied with `nft` (or `iptables` where `nft` is missing).

## Layout

- `src/` — the library, verified with Verus:
  - `logparse` — the combined log format as a grammar over characters;
    `parse_line` returns exactly the captured fields of the unique match.
  - `detector` — the verdict (normal / suspicious / ban) from a request count.
  - `watch` — what each log line of a watched server leads to, as a state
    machine (record, count, ban, apply, mark).
  - `blacklist` — the listing of the blacklist, the propagation of pending
    bans to a server, and the automatic sync of every server each 60 s.
  - `ban` — the `nft`/`iptables` commands that ban and unban an IP.
  - `source` — following a local log and polling a remote one by line counts;
    polling passes on each appended line once, in order.
  - `repl` — the interactive commands and the maintenance menu.
  - `setup` — bootstrapping `antibot.toml`, `.gitignore` and git, idempotently.
  - `db`, `config`, `cli`, `text` — records, statements, settings, command line
    and the text operations they rest on.
- `app/` — the program: reads the configuration and the command line, talks
  to PostgreSQL, SSH and the firewall, and drives the library's state machines.
- `tests/` — tests of the library.

## Running

`antibot setup`, then edit `antibot.toml` (database URL, detector thresholds,
`[[servers]]`), then `antibot init-db` (reads `schema.sql` from the working
directory). `antibot` alone starts the interactive mode (`/start`,
`/manutein`, `/logout`).
