# rs_build

A small continuous-integration server: it builds checked-out Rust
repositories with `cargo build` when asked over HTTP or when GitHub reports a
merged pull request, archives a report of each build, and shows the reports
on a page.

- `src/` is the verified library (Verus): the repository table
  (`config`), the report page (`reports`), the webhook decisions (`hooks`),
  the build endpoint and build records (`cargo_build`), the payload board
  (`post`), the timestamp and its Avro encoding (`timestamp`), the errors
  (`errors`), and the text functions they rest on (`text`).
- `app/` is the Iron server around it: reading files and requests, running
  `cargo`, locking the shared state, rendering the page template.
- `tests/` exercises the library on concrete values.
