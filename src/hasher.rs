//! Salted one-way credential digests.
//!
//! A digest is self-describing: one format byte, the salt, then the Argon2id
//! output over the password and that salt (default Argon2 parameters).
use vstd::prelude::*;
use vstd::slice::slice_subrange;
use vstd::string::StringSliceAdditionalSpecFns;
use crate::codec::ct_eq;

verus! {

/// Format byte that opens every digest of this layout.
pub const DIGEST_FORMAT: u8 = 1;

/// Bytes of fresh salt in a digest.
pub const SALT_LEN: usize = 16;

/// Bytes of Argon2id output in a digest.
pub const HASH_LEN: usize = 32;

/// Total length of a digest.
pub const DIGEST_LEN: usize = 49;

/// Longest password that Argon2 accepts.
pub const MAX_PASSWORD_LEN: usize = 0xFFFF_FFFF;

/// What Argon2id with default parameters yields for a password, a salt and
/// an output length.
pub uninterp spec fn argon2id_of(password: Seq<u8>, salt: Seq<u8>, out_len: nat) -> Seq<u8>;

/// The digest laid out from a salt and the KDF output.
pub open spec fn digest_layout(salt: Seq<u8>, key: Seq<u8>) -> Seq<u8> {
    seq![DIGEST_FORMAT] + salt + key
}

/// The digest of `password` under `salt`.
pub open spec fn digest_of(password: Seq<u8>, salt: Seq<u8>) -> Seq<u8> {
    digest_layout(salt, argon2id_of(password, salt, HASH_LEN as nat))
}

/// The salt stored in a digest of the expected layout.
pub open spec fn salt_of(digest: Seq<u8>) -> Seq<u8> {
    digest.subrange(1, 1 + SALT_LEN as int)
}

/// The KDF output stored in a digest of the expected layout.
pub open spec fn key_of(digest: Seq<u8>) -> Seq<u8> {
    digest.subrange(1 + SALT_LEN as int, DIGEST_LEN as int)
}

pub open spec fn well_formed_digest(digest: Seq<u8>) -> bool {
    digest.len() == DIGEST_LEN && digest[0] == DIGEST_FORMAT
}

/// `password` matches `digest`: the digest is well formed and recomputing the
/// KDF under its salt yields its stored output.
pub open spec fn verifies(password: Seq<u8>, digest: Seq<u8>) -> bool {
    &&& well_formed_digest(digest)
    &&& password.len() <= MAX_PASSWORD_LEN
    &&& argon2id_of(password, salt_of(digest), HASH_LEN as nat) == key_of(digest)
}

/// Relies on argon2::Argon2::hash_password_into with default parameters: it
/// fills `out_len` bytes, and fails only for a password over 2^32 - 1 bytes,
/// a salt outside 8 ..= 2^32 - 1 bytes, or an output outside 4 ..= 2^32 - 1
/// bytes, which `requires` rules out.
#[verifier::external_body]
fn argon2id(password: &[u8], salt: &[u8], out_len: usize) -> (r: Option<Vec<u8>>)
    requires
        password@.len() <= 0xFFFF_FFFF,
        8 <= salt@.len() <= 0xFFFF_FFFF,
        4 <= out_len <= 0xFFFF_FFFF,
    ensures
        r is Some,
        r->Some_0@ == argon2id_of(password@, salt@, out_len as nat),
        r->Some_0@.len() == out_len,
{
    let mut out = vec![0u8; out_len];
    match argon2::Argon2::default().hash_password_into(password, salt, &mut out) {
        Ok(()) => Some(out),
        Err(_) => None,
    }
}

/// Relies on rand::thread_rng and RngCore::fill_bytes: `len` bytes from the
/// thread-local cryptographically secure generator. Nothing is known of
/// their values.
#[verifier::external_body]
pub(crate) fn random_bytes(len: usize) -> (r: Vec<u8>)
    ensures
        r@.len() == len,
{
    let mut out = vec![0u8; len];
    rand::RngCore::fill_bytes(&mut rand::thread_rng(), &mut out);
    out
}

/// Lays out a digest from a salt and the KDF output computed under it.
pub fn assemble_digest(salt: &[u8], key: &[u8]) -> (r: Vec<u8>)
    requires
        salt@.len() + key@.len() < usize::MAX,
    ensures
        r@ == digest_layout(salt@, key@),
{
    let mut out: Vec<u8> = Vec::new();
    out.push(DIGEST_FORMAT);
    let mut i: usize = 0;
    while i < salt.len()
        invariant
            i <= salt@.len(),
            out@ == seq![DIGEST_FORMAT] + salt@.subrange(0, i as int),
        decreases salt@.len() - i,
    {
        out.push(salt[i]);
        i = i + 1;
        assert(salt@.subrange(0, i as int) == salt@.subrange(0, i - 1) + seq![salt@[i - 1]]);
    }
    assert(salt@.subrange(0, salt@.len() as int) == salt@);
    let mut j: usize = 0;
    while j < key.len()
        invariant
            j <= key@.len(),
            out@ == seq![DIGEST_FORMAT] + salt@ + key@.subrange(0, j as int),
        decreases key@.len() - j,
    {
        out.push(key[j]);
        j = j + 1;
        assert(key@.subrange(0, j as int) == key@.subrange(0, j - 1) + seq![key@[j - 1]]);
    }
    assert(key@.subrange(0, key@.len() as int) == key@);
    out
}

/// The digest of `plaintext` under the given salt.
pub fn hash_with_salt(plaintext: &str, salt: &[u8]) -> (r: Vec<u8>)
    requires
        plaintext.spec_bytes().len() <= MAX_PASSWORD_LEN,
        salt@.len() == SALT_LEN,
    ensures
        r@ == digest_of(plaintext.spec_bytes(), salt@),
        r@.len() == DIGEST_LEN,
        well_formed_digest(r@),
        salt_of(r@) == salt@,
        verifies(plaintext.spec_bytes(), r@),
{
    let password = plaintext.as_bytes();
    let key = argon2id(password, salt, HASH_LEN);
    match key {
        Some(key) => {
            let r = assemble_digest(salt, key.as_slice());
            proof {
                lemma_digest_parts(salt@, key@);
            }
            r
        },
        None => {
            proof {
                assert(false);
            }
            Vec::new()
        },
    }
}

/// The digest of `plaintext` under a fresh random salt. Two calls draw
/// their salts independently.
pub fn hash(plaintext: &str) -> (r: Vec<u8>)
    requires
        plaintext.spec_bytes().len() <= MAX_PASSWORD_LEN,
    ensures
        r@ == digest_of(plaintext.spec_bytes(), salt_of(r@)),
        well_formed_digest(r@),
        verifies(plaintext.spec_bytes(), r@),
{
    let salt = random_bytes(SALT_LEN);
    hash_with_salt(plaintext, salt.as_slice())
}

/// Whether a KDF output recomputed under the salt of `digest` is the one
/// `digest` stores; `false` for a digest that is not of the expected layout.
/// Every byte is compared, whatever the contents.
pub fn key_matches(key: &[u8], digest: &[u8]) -> (r: bool)
    ensures
        r == (well_formed_digest(digest@) && key@ == key_of(digest@)),
{
    if digest.len() != DIGEST_LEN || digest[0] != DIGEST_FORMAT {
        return false;
    }
    let stored = slice_subrange(digest, 1 + SALT_LEN, DIGEST_LEN);
    ct_eq(key, stored)
}

/// Whether `plaintext` matches `digest`. A malformed digest, or a password
/// longer than the KDF accepts, gives `false`; nothing here fails.
pub fn verify(plaintext: &str, digest: &[u8]) -> (r: bool)
    ensures
        r == verifies(plaintext.spec_bytes(), digest@),
{
    if digest.len() != DIGEST_LEN || digest[0] != DIGEST_FORMAT {
        return false;
    }
    let password = plaintext.as_bytes();
    if password.len() > MAX_PASSWORD_LEN {
        return false;
    }
    let salt = slice_subrange(digest, 1, 1 + SALT_LEN);
    match argon2id(password, salt, HASH_LEN) {
        Some(key) => key_matches(key.as_slice(), digest),
        None => false,
    }
}

proof fn lemma_digest_parts(salt: Seq<u8>, key: Seq<u8>)
    requires
        salt.len() == SALT_LEN,
        key.len() == HASH_LEN,
    ensures
        well_formed_digest(digest_layout(salt, key)),
        salt_of(digest_layout(salt, key)) == salt,
        key_of(digest_layout(salt, key)) == key,
{
    let d = digest_layout(salt, key);
    assert(salt_of(d) =~= salt);
    assert(key_of(d) =~= key);
}

/// A password always matches a digest made from it, whatever the salt: any
/// digest of the full length that `hash` or `hash_with_salt` lays out from
/// `password` verifies against `password`.
pub proof fn lemma_verify_own_digest(password: Seq<u8>, salt: Seq<u8>)
    requires
        password.len() <= MAX_PASSWORD_LEN,
        salt.len() == SALT_LEN,
        digest_of(password, salt).len() == DIGEST_LEN,
    ensures
        verifies(password, digest_of(password, salt)),
        salt_of(digest_of(password, salt)) == salt,
{
    lemma_digest_parts(salt, argon2id_of(password, salt, HASH_LEN as nat));
}

/// Two digests of one password, whatever their salts, both verify against it;
/// digests under different salts differ.
pub proof fn lemma_digests_differ_by_salt(password: Seq<u8>, salt1: Seq<u8>, salt2: Seq<u8>)
    requires
        password.len() <= MAX_PASSWORD_LEN,
        salt1.len() == SALT_LEN,
        salt2.len() == SALT_LEN,
        digest_of(password, salt1).len() == DIGEST_LEN,
        digest_of(password, salt2).len() == DIGEST_LEN,
    ensures
        verifies(password, digest_of(password, salt1)),
        verifies(password, digest_of(password, salt2)),
        salt1 != salt2 ==> digest_of(password, salt1) != digest_of(password, salt2),
{
    lemma_verify_own_digest(password, salt1);
    lemma_verify_own_digest(password, salt2);
}

} // verus!
