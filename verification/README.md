# buildit

The verified core of a CI/CD platform: pipeline configuration in KDL,
variable interpolation, dependency graphs of stages, repository scanning,
executor planning for Docker and Kubernetes, webhook authentication and
push handling, Terraform command lines and output, the background work of
stack runs as state machines, and what the dashboard shows.

- `src/` is the library. Every function in it is verified with Verus;
  calls into outside crates (`kdl`, `serde_json`, `chrono`, `uuid`, `md5`,
  `hmac`/`sha2`, `hex`, `urlencoding`) stand behind small trusted wrappers
  whose contracts say what those crates do.
- `tests/` runs the library on concrete values.
- `app/` is the command-line client and the code that touches the outside
  world: processes, the file system and the environment. It drives the
  library's state machines and hands their decisions to the real services.

Verify with `verus` on `src/lib.rs`; the tests are ordinary Rust tests.
