# xz_pass

A small password vault (and a CPU/RAM overlay) whose logic is verified with Verus.

- `src/` — the verified library:
  - `cipher` — AES-256-GCM sealing of stored passwords (hex of nonce ++ ciphertext); a sealed password always opens again to itself.
  - `kdf` — Argon2id settings, key derivation, master-password hashing and checking.
  - `hexcode` — lower-case hex text and its decoding, with the round-trip lemma.
  - `vault_file` — the vault data and the vault file text: 100 `master_hash_N` lines in random order, the real hash at key 93 and 99 decoys that keep its character classes.
  - `session` — the vault's state machine: setup, unlock with escalating lock-outs, adding/removing/pasting entries, changing the master password, logout and session expiry.
  - `overlay` — CPU load from system time counters, the overlay's reaction to window messages and its labels.
  - `text`, `random`, `clock` — decimal text, draws from `rand`, the wall clock.
- `app/` — the windows (egui and Win32), the clipboard and keyboard, and file I/O with serde.
- `tests/` — tests of the library against the real outside crates.
