# rusthub

The rules of the rusthub.org web application — a GraphQL back end over
MongoDB and a web front end that renders its pages — as a library verified
with Verus.

- `src/` — the verified library:
  - `text`, `num`: white space trimming, splitting on a separator, decimal
    integers read and written as std does.
  - `slug`: friendly slugs (trim, ASCII transliteration, lowercase, dashes).
  - `time`: date formats of timestamps and the time windows of queries.
  - `ids`, `filter`: object ids as integers; query filters with one
    condition per field.
  - `model`, `creations`, `topics`, `pagination`: stored records and the
    decisions of the creation and topic services.
  - `web`, `queries`, `lang`: the front end's sign-in state, paths, query
    variables, upload naming and translations.
  - `flows`: the page that creates a creation, as a step function from
    state and answer to next state and request.
- `tests/` — tests of the library, run with the real outside crates.
- `app/` — the I/O around it: MongoDB services, GraphQL objects, request
  helpers.
