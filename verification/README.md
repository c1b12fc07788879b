# postgres_browser_proxy

A small HTTP server that lets a web page run SQL on a Postgres database
and crop images sent as data URLs. The library in `src/` holds the logic,
verified with Verus; `app/` is the server around it.

- `src/args.rs`: settings, their defaults and environment overrides.
- `src/http.rs`: reading a request head (request line, `Content-Length`,
  the 12 MiB body limit).
- `src/response.rs`: routing, response framing and the reply of each route.
- `src/rows.rs`: result rows as JSON.
- `src/geo.rs`: EWKB points of PostGIS `geography` columns.
- `src/image_data.rs`: data URLs (regex and base64 calls) and the crop window.
- `src/text.rs`: trimming, prefixes, replacement and decimal text.
- `src/laws.rs`: properties across these functions.
- `app/`: sockets, the Postgres pool, worker threads, command line, and the
  image scaling (computed in `f32`).
