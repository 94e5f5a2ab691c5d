//! Encryption-key plumbing: which keyring a key lands in, how unlocking is
//! chosen, and the superblock's crypt field.
//!
//! The superblock is modeled by the two things this logic reads: whether a
//! crypt field exists, and the magic of the key inside it.  A key whose magic
//! still reads back decrypts to plaintext, so an encrypted filesystem is one
//! whose stored key magic does not match.

use vstd::prelude::*;

verus! {

/// The plaintext key magic: the bytes `bch**key` as a little-endian word.
pub const BCH_KEY_MAGIC: u64 = 0x79656b2a2a686362;

/// Target keyring for key storage.
#[derive(Clone, Copy, Debug, PartialEq, Eq, Structural)]
pub enum Keyring {
    Session,
    User,
    UserSession,
}

impl Keyring {
    /// The keyring's well-known identifier in the key-management interface.
    pub open spec fn spec_id(self) -> i32 {
        match self {
            Keyring::Session => -3i32,
            Keyring::User => -4i32,
            Keyring::UserSession => -5i32,
        }
    }

    pub fn id(self) -> (r: i32)
        ensures
            r == self.spec_id(),
    {
        match self {
            Keyring::Session => -3,
            Keyring::User => -4,
            Keyring::UserSession => -5,
        }
    }
}

impl Default for Keyring {
    fn default() -> (r: Keyring)
        ensures
            r == Keyring::User,
    {
        Keyring::User
    }
}

/// How to unlock an encrypted filesystem.
#[derive(Clone, Copy, Debug, PartialEq, Eq, Structural)]
pub enum UnlockPolicy {
    /// Fail unless the key is already in a keyring.
    Fail,
    /// Wait for the key to appear in a keyring.
    Wait,
    /// Prompt for a passphrase.
    Ask,
    /// Read the passphrase from standard input without prompting.
    Stdin,
}

impl Default for UnlockPolicy {
    fn default() -> (r: UnlockPolicy)
        ensures
            r == UnlockPolicy::Ask,
    {
        UnlockPolicy::Ask
    }
}

/// A 256-bit filesystem key.
#[derive(Clone, Copy, Debug, PartialEq, Eq)]
pub struct BchKey {
    pub key: [u64; 4],
}

/// A key as stored in the superblock's crypt field: magic, then the key,
/// both encrypted with the passphrase-derived key.
#[derive(Clone, Copy, Debug, PartialEq, Eq)]
pub struct BchEncryptedKey {
    pub magic: u64,
    pub key: BchKey,
}

/// The part of a superblock this logic reads: the stored key's magic, when a
/// crypt field exists at all.
#[derive(Clone, Copy, Debug, PartialEq, Eq, Structural)]
pub struct SbCrypt {
    pub key_magic: u64,
}

/// A superblock, reduced to its crypt field.
#[derive(Clone, Copy, Debug, PartialEq, Eq, Structural)]
pub struct Sb {
    pub crypt: Option<SbCrypt>,
}

/// Whether a superblock has an encrypted passphrase set: it has a crypt
/// field and the stored key's magic does not read back as plaintext.
pub fn sb_is_encrypted(sb: &Sb) -> (r: bool)
    ensures
        r == match sb.crypt {
            Some(c) => c.key_magic != BCH_KEY_MAGIC,
            None => false,
        },
{
    match sb.crypt {
        Some(c) => c.key_magic != BCH_KEY_MAGIC,
        None => false,
    }
}

/// An unencrypted key for the crypt field: the plaintext magic over the key
/// itself, as written when a passphrase is removed.
pub fn unencrypted_key(key: &BchKey) -> (r: BchEncryptedKey)
    ensures
        r.magic == BCH_KEY_MAGIC,
        r.key == *key,
{
    BchEncryptedKey { magic: BCH_KEY_MAGIC, key: *key }
}

} // verus!
