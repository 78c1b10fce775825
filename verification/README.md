# osu2malody-store

A Malody V store server backed by osu!: Malody clients browse, search and
download osu! beatmaps through it.

The crate is a Verus project.

- `src/` is the verified library: the models and the mode mapping, the
  `.osu` chart parser, configuration rules, search keys and search chains,
  client authentication (RSA signatures through `rsa`, `sha2` and `base64`),
  download items and URLs, archive entry lookup, resource requests, and the
  size bound on the cached `.osz` archives. Every public function states its
  result in `ensures`; the `law_*` proof functions state what holds across
  functions.
- `app/` is the server around it: configuration loading, the axum router and
  handlers, the osu! API client (`rosu-v2`), mirror downloads (`reqwest`),
  zip reads and the cache directory on disk.
- `tests/` runs the library on concrete values.
