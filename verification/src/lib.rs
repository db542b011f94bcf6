//! Password vault logic: encryption of stored passwords, master-password
//! hashing, the vault file layout, the vault's session state machine, and the
//! decisions of a small CPU/RAM overlay.
pub mod cipher;
pub mod clock;
pub mod hexcode;
pub mod kdf;
pub mod overlay;
pub mod random;
pub mod session;
pub mod text;
pub mod vault_file;
