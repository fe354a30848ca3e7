# oplist_opds

An OPDS 1.2 catalog for an OpenList file server, as a Verus-verified library.

- `src/opds/` — the feed data model (`entry`), feed construction from OpenList
  listings (`feed`) and Atom XML serialisation (`xml`).
- `src/openlist/` — OpenList request/response bodies and the reading of each
  response envelope.
- `src/handlers/` — what each HTTP route decides: OpenList paths, search terms,
  proxied downloads, the OpenSearch document.
- `src/text.rs` — trimming, searching, case folding and number formatting over
  `Seq<char>`; `src/clock.rs` — the current time through the `time` crate.
- `src/laws.rs` — properties that span several functions (routes, paths, links).
- `app/` — the server itself: configuration loading, the HTTP client and the axum
  routes, calling the library.
