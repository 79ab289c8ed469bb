# utoipa_gen schema helpers

Verified helpers of a derive macro that writes OpenAPI documents.

- `src/rename_rule.rs`: the casing rules of `#[serde(rename_all = "...")]`
  (`RenameRule::rename`, `rename_variant`, `parse_rule`, `FromStr`), their
  specifications over character sequences, and the laws that tie the rules
  together (derived rules, idempotence, PascalCase versus camelCase).
- `src/rename_laws.rs`: laws linking `rename` and `rename_variant` (the
  snake_case form of a variant name, the snake/Pascal round trip, and
  renaming a variant name twice).
- `src/serde.rs`: reading of `#[serde(...)]` field and container attributes
  from their token trees.
- `src/component.rs`: resolution of a field's type into a chain of component
  parts, the search for the innermost part by name, and the check that tells
  why a type does not resolve.
- `src/syntax.rs`: the plain-value form of the syntax that the logic reads.
- `src/text.rs`: the trusted specifications of the std string functions used.
- `src/diagnostics.rs`: the library's error value (`SpannedError`, a message
  at a span) and the declared `syn` / `proc-macro2` types.
- `app/lib.rs`: the macro-facing side, which converts `syn` values into the
  library's values and turns errors into compile errors.
