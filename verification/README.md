# cangjie_zed

Cangjie language support for the Zed editor, with its decision logic
verified in Verus.

- `src/` — the verified library: locating the Cangjie SDK and its language
  server (`config`, `lsp_server`, `util`), reading `cjpm.toml`, building the
  server command and initialization options, completion and symbol labels
  (`cangjie`), resolving and downloading the LSP proxy as a state machine
  (`proxy`), and the proxy's log messages, its decision for each message
  from the server and its `initialize` rewrite (`log`, `lsp_proxy`). `text` holds the character-sequence specifications the
  contracts are written in.
- `app/` — the extension as Zed loads it: the `Extension` implementation,
  conversions to and from the host's types, filesystem work and downloads.
- `tests/` — tests of the library on concrete values.
