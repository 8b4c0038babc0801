# rqcheck

Checks the packages pinned in a Python requirements file against the
releases that PyPI publishes, and reports which of them have newer versions.

## Layout

- `src/` is the library, verified with Verus:
  - `config.rs`: defaults, the TOML configuration file, environment and
    command-line overrides, validation;
  - `reqfile.rs`: the lines of a requirements file and the pinned packages
    they give;
  - `version.rs`: which release is the newest, the newest of another major
    line and the newest of the current major line;
  - `checker.rs`: what a PyPI answer means, retrying failed requests with a
    doubling delay, collecting and reporting results;
  - `error.rs`: the errors and their messages;
  - `text.rs`: decimal rendering and parsing, and version-prefix handling.
- `app/` is the command-line program: argument parsing, file and network
  I/O, deserialising the TOML configuration file and PyPI's JSON answers,
  the asynchronous request loop and logging.
- `tests/` holds the tests of the library.

Parsing of requirements files and semantic versions, and the order of
semantic versions, are left to the `requirements` and `semver` crates; the
library's contracts name their results.
