# starcitizen_api

A read-only HTTP API over Star Citizen game data (items, vehicles, blueprints,
manufacturers, resource types and star-map locations), with its logic
written and proved in Verus.

## Layout

- `src/` — the verified library.
  - `text.rs`, `num.rs`, `assoc.rs`, `json.rs`: strings, decimal numbers,
    small association lists and JSON documents, with their models.
  - `query.rs`: the query string (`page[number]`, `page[size]`,
    `filter[field]`, `sort`, `query`, `locale`, `include`).
  - `sort.rs`: the stable sort of records by a field path, and the order of
    JSON values it uses.
  - `response.rs`: pagination and single-record responses.
  - `models/`: the records, built from the game files.
  - `hierarchy.rs`, `loader.rs`: the star-map hierarchy, the indexes, labels
    and the other loading steps that compute.
  - `file_text.rs`: the text of `labels.json`, `tags.json` and the
    `global.ini` translation files, read through `serde_json` and
    `configparser` into labels and entity tags.
  - `handlers/`: what each endpoint answers, as JSON documents.
  - `laws.rs`, `name_laws.rs`: properties that span several functions.
- `app/` — the server: file reading, the HTTP routes, and the conversions
  between `serde_json` values and the library's documents.
- `tests/` — tests of the library.
