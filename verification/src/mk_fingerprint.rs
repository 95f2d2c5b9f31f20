use vstd::prelude::*;
use sha2::Digest;

use crate::hex::{spec_hex_lower, is_lower_hex_ascii, hex_lower_bytes};
use crate::util::{spec_trim, trim_bytes, bytes_eq, is_ascii_ws, lemma_trim_of_clean};

verus! {

/// The outcome of checking a master key against the host's stored
/// fingerprint: `Stored` on first use, `Matched` when it equals the
/// stored one, `Mismatch` otherwise.
#[derive(Clone, Copy, Debug, PartialEq, Eq, Structural)]
pub enum FingerprintStatus {
    Stored,
    Matched,
    Mismatch,
}

/// The SHA-256 digest of a byte string: 32 bytes, a pure function of the
/// input alone.
pub uninterp spec fn sha256_of(data: Seq<u8>) -> Seq<u8>;

/// Relies on `sha2::Sha256` through the `Digest` trait: the digest is a
/// function of the input bytes alone and is always 32 bytes long.
#[verifier::external_body]
fn sha256(data: &[u8]) -> (r: Vec<u8>)
    ensures
        r@ == sha256_of(data@),
        r@.len() == 32,
{
    sha2::Sha256::digest(data).to_vec()
}

/// The fingerprint of a master key: the lowercase hex of its SHA-256
/// digest, 64 ASCII characters.
pub open spec fn fingerprint_of(key: Seq<u8>) -> Seq<u8> {
    spec_hex_lower(sha256_of(key))
}

/// Compute the fingerprint of `key`. The result is 64 lowercase ASCII
/// hex digits.
pub fn sha256_hex(data: &[u8]) -> (r: Vec<u8>)
    ensures
        r@ == fingerprint_of(data@),
        r@.len() == 64,
        forall|i: int| 0 <= i < r@.len() ==> is_lower_hex_ascii(#[trigger] r@[i]),
{
    let digest = sha256(data);
    hex_lower_bytes(digest.as_slice())
}

/// The host-side fingerprint file, as the daemon sees it: either absent
/// or holding some bytes. The daemon binaries read the real file into
/// this model and persist the model's changes back.
pub struct FingerprintStore {
    contents: Option<Vec<u8>>,
}

impl View for FingerprintStore {
    type V = Option<Seq<u8>>;

    closed spec fn view(&self) -> Option<Seq<u8>> {
        match self.contents {
            Option::None => Option::None,
            Option::Some(ref v) => Option::Some(v@),
        }
    }
}

impl FingerprintStore {
    /// A store whose fingerprint file does not exist yet.
    pub fn absent() -> (s: Self)
        ensures
            s@ is None,
    {
        FingerprintStore { contents: Option::None }
    }

    /// A store restored from the fingerprint file's bytes, if the file
    /// exists.
    pub fn restore(contents: Option<Vec<u8>>) -> (s: Self)
        ensures
            contents is None ==> s@ is None,
            contents matches Some(v) ==> s@ == Some(v@),
    {
        FingerprintStore { contents }
    }

    /// The bytes to persist, if any.
    pub fn contents(&self) -> (r: &Option<Vec<u8>>)
        ensures
            r is None ==> self@ is None,
            r matches Some(v) ==> self@ == Some(v@),
    {
        &self.contents
    }
}

/// The status `verify_or_store_mk_fingerprint` reports for a key checked
/// against the given file contents.
pub open spec fn verify_or_store_status(key: Seq<u8>, contents: Option<Seq<u8>>) -> FingerprintStatus {
    match contents {
        Option::None => FingerprintStatus::Stored,
        Option::Some(c) => if spec_trim(c) == fingerprint_of(key) {
            FingerprintStatus::Matched
        } else {
            FingerprintStatus::Mismatch
        },
    }
}

/// The file contents after `verify_or_store_mk_fingerprint`: written on
/// first use, never rewritten once present.
pub open spec fn verify_or_store_after(key: Seq<u8>, contents: Option<Seq<u8>>) -> Option<Seq<u8>> {
    match contents {
        Option::None => Option::Some(fingerprint_of(key)),
        Option::Some(c) => Option::Some(c),
    }
}

/// Check `key` against the stored fingerprint, storing the fingerprint
/// on first use. An existing file is compared after trimming surrounding
/// whitespace and is never overwritten, whatever the outcome.
pub fn verify_or_store_mk_fingerprint(key: &[u8], store: &mut FingerprintStore) -> (st: FingerprintStatus)
    ensures
        st == verify_or_store_status(key@, old(store)@),
        final(store)@ == verify_or_store_after(key@, old(store)@),
{
    let fingerprint = sha256_hex(key);
    match store.contents {
        Option::None => {
            store.contents = Option::Some(fingerprint);
            FingerprintStatus::Stored
        },
        Option::Some(ref existing) => {
            let trimmed = trim_bytes(existing.as_slice());
            if bytes_eq(trimmed.as_slice(), fingerprint.as_slice()) {
                FingerprintStatus::Matched
            } else {
                FingerprintStatus::Mismatch
            }
        },
    }
}

/// Trust on first use: the first key checked against an absent store is
/// stored; the same key then matches forever; a key with a different
/// fingerprint is rejected; and no later check, whatever its key,
/// changes the stored fingerprint.
pub proof fn lemma_trust_on_first_use(key: Seq<u8>, other: Seq<u8>)
    ensures
        verify_or_store_status(key, Option::None) == FingerprintStatus::Stored,
        verify_or_store_after(key, Option::None) == Option::Some(fingerprint_of(key)),
        verify_or_store_status(key, Option::Some(fingerprint_of(key))) == FingerprintStatus::Matched,
        fingerprint_of(other) != fingerprint_of(key) ==> verify_or_store_status(
            other,
            Option::Some(fingerprint_of(key)),
        ) == FingerprintStatus::Mismatch,
        verify_or_store_after(other, Option::Some(fingerprint_of(key))) == Option::Some(
            fingerprint_of(key),
        ),
{
    assert forall|j: int| 0 <= j < fingerprint_of(key).len() implies !is_ascii_ws(
        #[trigger] fingerprint_of(key)[j],
    ) by {
        crate::hex::lemma_hex_lower_digits(sha256_of(key), j);
    }
    lemma_trim_of_clean(fingerprint_of(key));
}

} // verus!
