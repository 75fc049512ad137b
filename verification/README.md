# tribune_archivum

Structural validation of EPUB books and the table-of-contents tooling used to
repair books before they enter the library, written in Verus.

- `src/` is the verified library. `base/` holds the validation records and
  results; `epub/` the container, package, spine, manifest and navigation
  checks; `consistency.rs` the cross-checks between them; `validator.rs` the
  six phases as a state machine that asks its caller for each document;
  `library/` the repair tools (NCX generation, integrity checks, slugs and
  book records, the repair and lookup state machines); `report.rs` the text
  report.
- `app/` is the command line: it opens archives, decodes XML with serde,
  talks to the catalogue and library services, and drives the library's
  state machines.
- `tests/` run the library on concrete values.
