# stateset_core

The verified core of a commerce back office, written in Verus.

- `src/` — the library. Its functions carry contracts proved by Verus, except the small trusted wrappers (marked `#[verifier::external_body]`) around calls into `rust_decimal`, `uuid`, `dashmap`, `sha2`, `validator`, `argon2` and std, whose contracts are taken from those crates' sources and documentation:
  - `rate_limiter` — fixed-window request limiting, policy parsing, request keys and headers, and the shared in-memory store;
  - `agentic` — the agentic checkout session: status machine, validation, pricing, completion;
  - `checkout_flow`, `cart`, `customers`, `catalog`, `accounting` — the storefront services' rules;
  - `inventory` — balances per item and location, stock movements, batch allocation and listings;
  - `feed` — grouping of the store's catalog rows, product feed entries from Shopify and catalog data, and CSV/TSV payloads;
  - `bom`, `asn`, `analytics` — bills of materials, shipping-notice edits, and dashboard figures;
  - `decimal`, `text`, `num`, `clock` — `rust_decimal` values, strings, integer text and time.
- `tests/` — tests run against the compiled library.
- `app/` — glue outside the verified core: conversions to `rust_decimal` / `chrono` values, JSON shapes, and the few decisions made on floating-point numbers.
