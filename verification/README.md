# gqlup

A version manager for the `gql` binary: it installs releases from GitHub into
a binaries directory, keeps a `gql-latest` link, lists and uninstalls versions,
and runs `gql` in the version a project asks for.

- `src/` is the verified library: path resolution from the environment
  (`paths`), semantic versions and their order (`version`), reading versions
  from binary names and ordering the installed ones (`shared`), the
  configuration types (`config`), and the decisions of each subcommand
  (`commands`).
- `app/` is the program around it: command line, environment, files, network
  and archives.
- `tests/` runs the library on concrete values.
