# GeoLibre Desktop

The desktop shell of GeoLibre, with its logic as a library that Verus verifies.

- `src/` is the library. Every function states what it returns in its contract, over the spec
  functions of its module, and the public proof functions state what holds across functions.
- `app/` is the application around it: windows, files, queries, requests and processes. It asks
  the library what to do and hands back what came of it.
- `tests/` runs the library on concrete values.

| Modules | What they decide |
| --- | --- |
| `sql`, `native_load` | the queries that load a vector file, step by step |
| `paths` | which local files may be read, and which belong to a shapefile |
| `manifest`, `plugins`, `plugin_scan` | which plugins are valid, and how they are found and read |
| `urls` | which addresses are fetched, and what an address resolves to |
| `mbtiles` | what a tile archive says, where a tile lies, how it is decompressed |
| `martin`, `servers`, `server_start` | how the local servers are installed, started and stopped |
| `proc_net`, `environment`, `platform`, `windows`, `profile` | processes, tools, platforms, windows and the profile |
| `text`, `split`, `numbers`, `json`, `archive` | what the others are built from |

What the `zip`, `tar`, `flate2`, `serde_json` and `getrandom` crates do is not proved. Each call
into them stands in a small function with `#[verifier::external_body]`, mostly in `archive` and
`json`, whose documentation says what is taken from the crate.
