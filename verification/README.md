# viz_rs

An image-search service over Telegram posts: images are embedded with an
ImageNet classifier, stored in a Qdrant collection, and found again by an
example image or by text tags.

- `src/` is the verified library (Verus): request authorisation and the
  cross-origin list (`auth`), error replies (`error`), date filters
  (`filter`), tag matching and the query weights (`tags`), payload decoding
  and search results (`payload`), request handling decisions (`routes`), the
  ingestion decisions (`ingest`), the data types (`entity`) and text helpers
  (`text`).
- `app/` is the web server and the Telegram ingester: HTTP, databases, the
  image model, and the floating-point vectors.
- `tests/` runs the library on concrete values.
