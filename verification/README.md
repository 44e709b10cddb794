# agent_first_slug

Deterministic slug generation and path-segment validation, verified with Verus.

`slugify` turns text into a slug under an explicit `SlugConfig`: transliterate
with a caller's static replacement map (longest match wins), keep the allowed
characters, handle dots, collapse every other run into one delimiter, trim,
lowercase, cut to a maximum length, substitute a fallback for an empty slug,
and validate the result as a local or URL path segment. `validate_slug` runs
the validation alone.

Layout:

- `src/` — the verified library. Each step has a specification over
  character sequences (`filter.rs`, `trim.rs`, `transliterate.rs`,
  `validate.rs`, `slugify.rs`); the laws the library keeps are the `law_*`
  proof functions beside them. `unicode.rs` holds the character classes: the
  whitespace and control tests are verified against their listed sets, and
  the trusted calls into `std` and `unicode-general-category` whose answers
  are Unicode tables stand beside them.
- `tests/` — examples and regression tests.
- `app/` — the `afslug` command line (argument parsing, AFDATA output, skill
  installation).
