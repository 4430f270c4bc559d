# lazyssh

A terminal interface to keep a list of SSH servers, open SSH sessions with them
and browse them over SFTP, with its core written in Verus and proved against
its contracts.

## Layout

- `src/` — the verified library.
  - `config/` — server models, the configuration (passwords moved to and from the
    system keyring), and the import of `~/.ssh/config` host blocks.
  - `ssh/` — `ssh`/`sshpass` command lines, the key file of public-key
    authentication, the reading of `ssh` results, and the registry of sessions.
  - `sftp/` — file entries, local and remote directory navigation, transfer
    command lines, and the SFTP session registry.
  - `tui/` — the interface state and its key and mouse handlers (as a state
    machine that asks for outside work through `Effect` values and takes back an
    `Outcome`), notifications, command history, the terminal view, ANSI parsing,
    the theme, and `view`, which says what each screen shows as styled spans;
    `binary64` models exactly the double-precision steps of the transfer time
    estimate (and `format_size` those of a size in GiB).
  - `vault/` — the keyring: each call made to it (which entry, what was handed
    over, what came back) is recorded in the ghost state of a `Keyring`, so that
    contracts say which entries are read, written and deleted; and password encryption
    (PBKDF2-HMAC-SHA256 keys, AES-256-GCM with a random nonce).
  - `text.rs`, `clock.rs` — text and time helpers.
- `app/` — the program: terminal setup, the event loop, drawing with ratatui,
  and the outside work (files, keyring, network with russh, clipboard, `ssh`
  processes).
- `tests/` — tests of the library.
