# chrome2linkedin helper

A localhost bridge between a Chrome extension and the LinkedIn posts API,
with its decisions verified by Verus.

- `src/` — the verified library. Each flow is a state machine that takes the
  outcome of the last action and names the next one:
  - `post.rs`: publishing a post (checks, body, the single retry after a
    token refresh, the answer to the extension);
  - `refresh.rs`: renewing the stored token;
  - `auth.rs`: the one-time OAuth authorization;
  - `json.rs`, `url.rs`, `num.rs`, `text.rs`: the texts these flows read and
    write; `model.rs`: the stored records and the escaping of commentary;
    `cli.rs`: the command line.
- `app/main.rs` — the program: files, HTTP server and client, browser and
  process handling, driven by the library's state machines.
- `tests/` — tests of the library on concrete values.
