# psv

Makes mockups of Play Store search pages that show a user's app among the
listed ones, and serves them over a small web server.

- `src/` is the verified library:
  - `generate.rs`: page classification, reading the apps of a page, choosing
    the list item to replace, and assembling the mockup;
  - `markup.rs`: the calls into `scraper` (reading HTML) and `lol_html`
    (rewriting HTML), with contracts that name their results;
  - `server/`: request throttling (`throttle.rs`), HMAC request authentication
    and cross-origin preflight answers (`mod.rs`), the `Generate` api
    (`api.rs`), uri and redirect handling (`https.rs`, `http.rs`) and the
    configuration (`config.rs`);
  - `text.rs`, `util.rs`: literal replacement, decimal and hexadecimal text;
  - `model.rs`, `cli.rs`, `lib.rs`: app entries, command line options, debug
    messages and version numbers.
- `app/` holds the command line program and the axum/tokio plumbing of the
  servers, configuration files and file I/O.
- `tests/` exercises the library on concrete inputs.
