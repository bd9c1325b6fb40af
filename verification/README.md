# rust_everywhere_notes

A notes service whose rules are proved with Verus. Users keep short Markdown
notes; a JSON API stores them, a server-side site shows them, and a
single-page build runs the same site in the browser.

## Layout

- `src/` — the verified library
  - `store.rs`: the notes table. Notes are kept in id order; every query names
    the owner of the note it reads, changes or removes; a search is
    `lower(content) LIKE lower('%text%')`. Ids are handed out by a counter and
    never reused; the time of an insert or update is passed in.
  - `store_laws.rs`: what holds across operations (read after create, update
    and delete; other users untouched; plain search is substring search;
    a delete right after a create undoes it).
  - `form.rs`: content validation (1 to 1000 characters) and its messages.
  - `preview.rs`: note titles (first 20 bytes of the Markdown's plain text)
    and note HTML with `<script` HTML blocks left out.
  - `pages.rs`: the site's page handlers as decisions on fetched data.
  - `api.rs`: the API handlers on the notes table.
  - `identity.rs`: the user's id from the `user-id` header or `user_id` cookie.
  - `client.rs`: the requests that the site sends to the API (address,
    `user-id` header, JSON body).
  - `wasm.rs`: request checks and response conversion for the browser build.
  - `text.rs`: character-level helpers (case folding, substring, `LIKE`,
    decimal numbers).
- `tests/` — tests of the library.
- `app/` — the API server (axum, notes kept in memory) and the browser
  adapter types. The site's server is not here: its templates and its HTTP
  client crate are not part of this build; its handlers, pages and requests
  are the library's `pages.rs` and `client.rs`.
