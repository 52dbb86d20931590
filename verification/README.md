# vault

A command-line password vault: records are kept in one file, encrypted under a
master password (Argon2id, HKDF-SHA256, HMAC-SHA256 over the header,
ChaCha20-Poly1305 for the wrapped data key and the CBOR body).

- `src/` is the library, written and proved with Verus: the file format (header
  and body), the key hierarchy, opening, creating, saving and re-keying a vault
  on the bytes of its file, the record model and its presentation. Calls into
  `argon2`, `hkdf`, `hmac`, `chacha20poly1305`, `ciborium`, `rand` and `uuid` go
  through small trusted functions whose contracts say what those crates do.
- `app/` is the program around it: the command line (`clap`), password prompts
  (`rpassword`), reading and atomically writing the file, the system clipboard
  (`arboard`).
- `tests/` exercises the library on concrete values.

Commands without a path (`add login`, `list`, `get`, `changepass`) work on the
file named by `VAULT_FILE`, or `vault.vlt` in the current directory.
