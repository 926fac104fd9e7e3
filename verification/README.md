# mlmail

The verified core of the MyMail desktop application, written in Verus.

- `src/oauth.rs`: the Google desktop login over a loopback redirect — the
  authorization URL, percent-encoding and decoding of query values, the
  parsing of the callback request line, the CSRF state check, the random
  state and the reply sent to the browser.
- `src/release.rs`: `cargo xtask release-assets X.Y.Z` — the command line,
  release versions, the version declared by `app/package.json` and the
  release tag that must name the checked-out commit.
- `src/plugins.rs` and `src/plugins/`: the Plugin Manager's records of
  installed n-plugin Components — where their state lives, deployment
  locks, grant decisions, confirmation of a previewed Component, the
  product index and its projection for the Plugin Manager, enabling,
  uninstalling, the installation protocol (journal, staged index,
  publication) and the reconciliation state machine that recovers an
  interrupted installation.
- `src/text.rs`, `src/order.rs`: character-level text operations and the
  byte-wise order of strings, with their specifications.

`app/` holds the ordinary Rust around the library: the `xtask` program,
the asynchronous loopback listener of the login, the JSON files of the
plugin state and the drivers that run the plugin commands against the
activation registry.
