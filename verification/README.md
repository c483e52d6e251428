# git_info

Lists the entries of a tree of a git repository, each with the commit that last
set its content (commit id, committer, time and summary), found by a binary
search through the history from the newest commit. A small HTTP server serves
the listing as JSON.

- `src/` is the verified library (Verus):
  - `git.rs`: the calls into `git2`, each with the contract that Verus trusts;
  - `oid.rs`: object ids as text, and the check of a tree id;
  - `model.rs`: files, tree entries and the history as plain values;
  - `search.rs`: the search and its laws;
  - `history.rs`: reading a repository into those values, and `go`;
  - `text.rs`: splitting paths and `git log` output, request paths.
- `app/main.rs` is the server (Rocket), with JSON through serde.
- `tests/` runs the library, on built histories and on repositories made with `git2`.
