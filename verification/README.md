# jilebi

An MCP server whose tools, resources and prompts come from plugins: a plugin
is a TOML manifest plus a script, run under the permissions the user grants.

The library in `src/` holds the project's logic with its contracts, verified
by Verus:

- `toml_doc` — a TOML document as plain values, read with the `toml` crate;
- `manifest` — reading a plugin's manifest: resources, tools, prompts, and
  the permissions they ask for;
- `permissions` — the permission sets, the checks the script runtime asks of
  them, defaults, and the interview that grants them;
- `env` — the variables and secrets a manifest declares, and how they are
  stored and read back;
- `mcp` — what the server answers: splitting a client's name into plugin and
  entry, finding entries, rendering prompts, listing, the script's
  environment;
- `context` — application contexts and the text their plugins are stored as;
- `plugin` — the record kept of each installed plugin;
- `store` — the plugin store's decisions: object keys, newest versions, the
  plugin listing;
- `cli` — the commands and the small decisions of their handlers;
- `origin` — the host a URL names, by which host permissions are decided;
- `keyed`, `text` — named-entry lists and text operations used throughout.

`app/` is the program around it: argument parsing, the SQLite database, the
credential store, downloads, prompts to the user, the MCP transport and the
script runtime.

The plugin store itself is a Cloudflare Worker: its HTTP handlers (health,
file download, the plugin listing, a plugin's manifest, the latest release
and the install scripts) run on the `worker` and `axum` crates in a
WebAssembly build, which this crate does not depend on, so `app/` has no
copy of them. Every decision those handlers make is in `src/store.rs`: the
object keys of files and manifests, the newest version of a plugin, the
listing, the download counts and the manifest served with its download
figures; a handler is the bucket reads and writes around those calls.
