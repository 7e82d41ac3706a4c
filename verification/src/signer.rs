//! The keys that the node has derived for its contracts, and the search for
//! the secret that belongs to a public key.

use vstd::prelude::*;

verus! {

/// A derived key pair: where it was derived, and its two halves as bytes.
#[derive(Debug)]
pub struct SignerInformation {
    pub index: u32,
    pub public_key: Vec<u8>,
    pub secret_key: Vec<u8>,
}

/// Tells whether two byte strings are the same.
pub fn same_bytes(a: &[u8], b: &[u8]) -> (same: bool)
    ensures
        same == (a@ == b@),
{
    if a.len() != b.len() {
        return false;
    }
    let mut i: usize = 0;
    while i < a.len()
        invariant
            i <= a.len() == b.len(),
            forall|j: int| 0 <= j < i ==> a@[j] == b@[j],
        decreases a.len() - i,
    {
        if a[i] != b[i] {
            return false;
        }
        i = i + 1;
    }
    assert(a@ =~= b@);
    true
}

/// Finds the first of the stored key pairs whose public key is `public_key`,
/// and says where it stands; `None` if no stored pair has that public key.
pub fn get_secret_key(stored: &Vec<SignerInformation>, public_key: &[u8]) -> (found: Option<usize>)
    ensures
        match found {
            Some(at) => at < stored.len() && stored[at as int].public_key@ == public_key@ && forall|j: int|
                0 <= j < at ==> stored[j].public_key@ != public_key@,
            None => forall|j: int| 0 <= j < stored.len() ==> stored[j].public_key@ != public_key@,
        },
{
    let mut i: usize = 0;
    while i < stored.len()
        invariant
            i <= stored.len(),
            forall|j: int| 0 <= j < i ==> stored[j].public_key@ != public_key@,
        decreases stored.len() - i,
    {
        if same_bytes(stored[i].public_key.as_slice(), public_key) {
            return Some(i);
        }
        i = i + 1;
    }
    None
}

} // verus!
