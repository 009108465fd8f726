# lore_auth_adapters

The adapters behind an authentication bridge for Lore repositories: who a user
is, which groups they are in, what they may do with a repository, and the tokens
that say so.

- `src/` is the library, verified with Verus. Every function is a computation on
  values and states in its contract what it returns: the store in memory
  (`memory`), what is written to and read from the database (`sqlite`),
  authorization by relations (`authz`), tokens signed with RS256 (`rs256`),
  identity providers (`oidc`, `staticidp`, `idpregistry`) and the configuration
  (`config`). What holds across functions stands in proof functions whose names
  start with `law_`.
- `app/` is ordinary Rust around it: the SQLite connection, OpenID Connect over
  the network, the resolver of `authz-core`, key files and YAML files.
- `tests/` runs the library on concrete values.

What the library takes on trust from other crates and from the standard library
is marked `external_body`, `assume_specification` or `uninterp`; the comment above
each says what is believed.
