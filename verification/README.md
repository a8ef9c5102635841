# rustit

A tool that drives several git repositories at once, named in a YAML
configuration file (`conf.yaml`): it lists repositories and named lists of
repositories, runs a command in each selected repository, and fetches,
merges, pulls, pushes, commits and reports status across them.

- `src/` is the library, verified with Verus:
  - `config`: reading the configuration from YAML text;
  - `selection`: expanding list names, dropping repeated names, `all`;
  - `status`: the long status report;
  - `progress`: the fetch progress display and download summary;
  - `oid`: lines that name object identifiers (updated references, commits);
  - `plan`: plans of git work over repositories and the merge state machine;
  - `text`: decimal and hexadecimal rendering.
- `app/` is the command-line front end: argument parsing, file and process
  I/O, and the calls into git that the plans ask for.
- `tests/` exercises the library on concrete values.
