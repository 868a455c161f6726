# tls_keying_material

Types for keying material exported from TLS sessions (RFC 5705, RFC 8446
section 7.5), with a debug form that is proved to leave the secret bytes out.

- `src/keying_material.rs`: `KeyingMaterialSpec`, a `(label, context, length)`
  request; `KeyingMaterialEntry`, the outcome of a successful export; the entry's
  redacted view and its debug form.
- `src/format_options.rs`: the options of a debug request and the text of an
  integer under them.
- `src/debug_text.rs`: the text of byte strings and of groups of items.
- `src/laws.rs`: the debug form does not depend on the secret bytes, and it tells
  everything else. `src/solid_text.rs` holds the lemmas for the second law.
- `app/lib.rs`: an entry with a `std::fmt::Debug` impl.

Besides what `vstd` specifies of the standard library, the proofs rest on one
assumed contract, that of `String::push`.
