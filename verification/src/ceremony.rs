use vstd::prelude::*;
use rand::RngCore;

use crate::util::{bytes_eq, copy_range, spec_trim, spec_upper, trim_bytes, upper_bytes};

verus! {

/// Relies on `rand::thread_rng` and `RngCore::fill_bytes`: 32 bytes of
/// cryptographically strong randomness. Nothing is promised of the
/// values themselves.
#[verifier::external_body]
fn random_bytes_32() -> (k: Vec<u8>)
    ensures
        k@.len() == 32,
{
    let mut key = vec![0u8; 32];
    rand::thread_rng().fill_bytes(&mut key);
    key
}

/// A candidate master key: 32 bytes of strong randomness, held only in
/// volatile memory until the ceremony commits it to a token.
pub fn generate_master_key() -> (k: Vec<u8>)
    ensures
        k@.len() == 32,
{
    random_bytes_32()
}

/// The top-left corner group of the displayed key: hex characters 0..4.
pub open spec fn spec_first_group(key_hex: Seq<u8>) -> Seq<u8> {
    key_hex.subrange(0, 4)
}

/// The bottom-right corner group of the displayed key: hex characters
/// 60..64.
pub open spec fn spec_last_group(key_hex: Seq<u8>) -> Seq<u8> {
    key_hex.subrange(60, 64)
}

/// An operator's entry, normalized before comparison: surrounding
/// whitespace stripped, ASCII letters uppercased.
pub open spec fn spec_normalize_entry(s: Seq<u8>) -> Seq<u8> {
    spec_upper(spec_trim(s))
}

/// The 16 groups of 4 hex characters the ceremony displays as a 4x4
/// grid, row by row.
pub fn key_grid_groups(key_hex: &[u8]) -> (r: Vec<Vec<u8>>)
    requires
        key_hex@.len() == 64,
    ensures
        r@.len() == 16,
        forall|i: int| 0 <= i < 16 ==> r@[i]@ == key_hex@.subrange(4 * i, 4 * i + 4),
{
    let mut r: Vec<Vec<u8>> = Vec::new();
    let mut i: usize = 0;
    while i < 16
        invariant
            key_hex@.len() == 64,
            i <= 16,
            r@.len() == i,
            forall|j: int| 0 <= j < i ==> r@[j]@ == key_hex@.subrange(4 * j, 4 * j + 4),
        decreases 16 - i,
    {
        let group = copy_range(key_hex, 4 * i, 4 * i + 4);
        r.push(group);
        i = i + 1;
    }
    r
}

/// Normalize one operator entry: trim surrounding whitespace, uppercase.
pub fn normalize_entry(input: &[u8]) -> (r: Vec<u8>)
    ensures
        r@ == spec_normalize_entry(input@),
{
    let trimmed = trim_bytes(input);
    upper_bytes(trimmed.as_slice())
}

/// The corner-cell check of the ceremony: both entered groups, after
/// normalization, must equal the top-left and bottom-right groups of
/// the displayed key. Any mismatch aborts the ceremony.
pub fn verify_corner_entries(key_hex: &[u8], first_entry: &[u8], last_entry: &[u8]) -> (b: bool)
    requires
        key_hex@.len() == 64,
    ensures
        b == (spec_normalize_entry(first_entry@) == spec_first_group(key_hex@)
            && spec_normalize_entry(last_entry@) == spec_last_group(key_hex@)),
{
    let first = copy_range(key_hex, 0, 4);
    let last = copy_range(key_hex, 60, 64);
    let n_first = normalize_entry(first_entry);
    let n_last = normalize_entry(last_entry);
    let ok_first = bytes_eq(n_first.as_slice(), first.as_slice());
    let ok_last = bytes_eq(n_last.as_slice(), last.as_slice());
    ok_first && ok_last
}

} // verus!
