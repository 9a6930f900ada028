# tuwunel_admin

A web admin UI for the [tuwunel](https://github.com/matrix-construct/tuwunel)
Matrix server. Tuwunel is administered by posting `!admin` commands into its
admin room; this project logs in as a server admin, turns web forms into those
commands, and turns the admin bot's free-form replies into tables.

## Layout

- `src/` is the library, verified with Verus:
  - `text.rs`: character-level string primitives (trimming, searching, lines,
    words, decimal numbers, lexicographic order) with their specifications.
  - `parse.rs`: parsers for the admin bot's replies.
  - `commands.rs`: the catalog of admin commands and template rendering.
  - `matrix.rs`: homeserver URLs, the admin command wire format, and the
    admin command round-trip as a state machine (snapshot, send, poll).
  - `handlers.rs` and `handlers/`: what each form becomes (an admin command,
    a flash message, a redirect), the login flow as a state machine, and the
    checks on redirect targets and homeservers.
  - `users.rs`, `rooms.rs`, `server.rs`, `appservices.rs`, `federation.rs`,
    `media.rs`, `tokens.rs`: the pages' rows and figures, computed from the
    bot's replies.
  - `config.rs`: the configuration's shape.
- `app/` is the program around it: the axum routes, the HTTP client, the
  session store, the templates' data and the configuration file.
- `tests/` exercises the library on concrete replies and forms.
