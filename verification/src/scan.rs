//! Picking records out of a full listing of a tree by their leading bytes.
//!
//! The store keeps no index by state. To find the records in one state it
//! lists the whole tree and keeps the values that start with the wanted tag
//! bytes.

use vstd::prelude::*;
use vstd::slice::*;
use crate::engine::{entries_view, Entry};
use crate::error::StorageError;

verus! {

/// The values of listed entries, in the order of the listing.
pub open spec fn entry_values(entries: Seq<(Seq<u8>, Seq<u8>)>) -> Seq<Seq<u8>> {
    entries.map_values(|e: (Seq<u8>, Seq<u8>)| e.1)
}

/// The payloads of a vector, each as a byte sequence.
pub open spec fn payloads_view(payloads: Seq<Vec<u8>>) -> Seq<Seq<u8>> {
    payloads.map_values(|p: Vec<u8>| p@)
}

/// How many bytes a caller asks to pass over after the tag bytes.
pub open spec fn consume_count(consume: Option<u64>) -> nat {
    match consume {
        Some(count) => count as nat,
        None => 0,
    }
}

/// `value` starts with the bytes of `prefix`.
pub open spec fn has_prefix(value: Seq<u8>, prefix: Seq<u8>) -> bool {
    prefix.len() <= value.len() && value.take(prefix.len() as int) == prefix
}

/// What a filtered read makes of one stored value: an error if the value is
/// shorter than the prefix, or starts with the prefix and is too short to pass
/// over `skip` more bytes; nothing if it does not start with the prefix; else
/// the bytes after the prefix and the `skip` bytes that follow it.
pub open spec fn select_payload(value: Seq<u8>, prefix: Seq<u8>, skip: nat) -> Result<Option<Seq<u8>>, StorageError> {
    if value.len() < prefix.len() {
        Err(StorageError::Truncated)
    } else if !has_prefix(value, prefix) {
        Ok(None)
    } else if value.len() < prefix.len() + skip {
        Err(StorageError::Truncated)
    } else {
        Ok(Some(value.skip((prefix.len() + skip) as int)))
    }
}

/// What a filtered read makes of a listing: the payloads of the values that
/// start with the prefix, in the order of the listing, or the error of the
/// first value that gives one.
pub open spec fn select_payloads(values: Seq<Seq<u8>>, prefix: Seq<u8>, skip: nat) -> Result<
    Seq<Seq<u8>>,
    StorageError,
>
    decreases values.len(),
{
    if values.len() == 0 {
        Ok(Seq::empty())
    } else {
        match select_payloads(values.drop_last(), prefix, skip) {
            Err(e) => Err(e),
            Ok(earlier) => match select_payload(values.last(), prefix, skip) {
                Err(e) => Err(e),
                Ok(None) => Ok(earlier),
                Ok(Some(payload)) => Ok(earlier.push(payload)),
            },
        }
    }
}

/// Tells whether `value` starts with `prefix`.
pub fn starts_with(value: &[u8], prefix: &[u8]) -> (b: bool)
    ensures
        b == has_prefix(value@, prefix@),
{
    if value.len() < prefix.len() {
        return false;
    }
    let mut i: usize = 0;
    while i < prefix.len()
        invariant
            i <= prefix.len() <= value.len(),
            forall|j: int| 0 <= j < i ==> value@[j] == prefix@[j],
        decreases prefix.len() - i,
    {
        if value[i] != prefix[i] {
            assert(value@.take(prefix@.len() as int)[i as int] != prefix@[i as int]);
            return false;
        }
        i = i + 1;
    }
    assert(value@.take(prefix@.len() as int) =~= prefix@);
    true
}

/// Does for one stored value what [`select_payloads_of`] does for a listing.
pub fn select_payload_of(value: &[u8], prefix: &[u8], consume: Option<u64>) -> (r: Result<
    Option<Vec<u8>>,
    StorageError,
>)
    ensures
        match r {
            Ok(Some(payload)) => select_payload(value@, prefix@, consume_count(consume)) == Ok::<
                Option<Seq<u8>>,
                StorageError,
            >(Some(payload@)),
            Ok(None) => select_payload(value@, prefix@, consume_count(consume)) == Ok::<
                Option<Seq<u8>>,
                StorageError,
            >(None),
            Err(e) => select_payload(value@, prefix@, consume_count(consume)) == Err::<
                Option<Seq<u8>>,
                StorageError,
            >(e),
        },
{
    if value.len() < prefix.len() {
        return Err(StorageError::Truncated);
    }
    if !starts_with(value, prefix) {
        return Ok(None);
    }
    let rest: usize = value.len() - prefix.len();
    let skip: usize = match consume {
        None => 0,
        Some(count) => {
            if count > rest as u64 {
                return Err(StorageError::Truncated);
            }
            count as usize
        },
    };
    let payload = slice_to_vec(slice_subrange(value, prefix.len() + skip, value.len()));
    assert(payload@ == value@.skip((prefix@.len() + consume_count(consume)) as int));
    Ok(Some(payload))
}

/// Keeps, of the listed values, those that start with `prefix`, and hands out
/// what follows the prefix in each, after passing over `consume` more bytes
/// where the caller asks for that. Fails on the first value that is too short
/// to be judged or to be passed over.
pub fn select_payloads_of(entries: &Vec<Entry>, prefix: &[u8], consume: Option<u64>) -> (r: Result<
    Vec<Vec<u8>>,
    StorageError,
>)
    ensures
        match r {
            Ok(payloads) => select_payloads(
                entry_values(entries_view(entries@)),
                prefix@,
                consume_count(consume),
            ) == Ok::<Seq<Seq<u8>>, StorageError>(payloads_view(payloads@)),
            Err(e) => select_payloads(
                entry_values(entries_view(entries@)),
                prefix@,
                consume_count(consume),
            ) == Err::<Seq<Seq<u8>>, StorageError>(e),
        },
{
    let ghost values = entry_values(entries_view(entries@));
    let ghost skip = consume_count(consume);
    let mut payloads: Vec<Vec<u8>> = Vec::new();
    let mut i: usize = 0;
    assert(values.take(0) =~= Seq::<Seq<u8>>::empty());
    assert(payloads_view(payloads@) =~= Seq::<Seq<u8>>::empty());
    while i < entries.len()
        invariant
            i <= entries.len(),
            values == entry_values(entries_view(entries@)),
            values.len() == entries.len(),
            skip == consume_count(consume),
            select_payloads(values.take(i as int), prefix@, skip) == Ok::<Seq<Seq<u8>>, StorageError>(
                payloads_view(payloads@),
            ),
        decreases entries.len() - i,
    {
        let found = select_payload_of(entries[i].value.as_slice(), prefix, consume);
        proof {
            let upto = values.take(i as int + 1);
            assert(upto.drop_last() =~= values.take(i as int));
            assert(upto.last() == entries@[i as int].value@);
        }
        match found {
            Err(e) => {
                proof {
                    lemma_select_error_stays(values, i as int + 1, prefix@, skip);
                }
                return Err(e);
            },
            Ok(None) => {},
            Ok(Some(payload)) => {
                let ghost before = payloads@;
                payloads.push(payload);
                assert(payloads_view(payloads@) =~= payloads_view(before).push(payload@));
            },
        }
        i = i + 1;
    }
    assert(values.take(i as int) =~= values);
    Ok(payloads)
}

/// An error among the first `n` values is the error of the whole listing.
pub proof fn lemma_select_error_stays(values: Seq<Seq<u8>>, n: int, prefix: Seq<u8>, skip: nat)
    requires
        0 <= n <= values.len(),
        select_payloads(values.take(n), prefix, skip) is Err,
    ensures
        select_payloads(values, prefix, skip) == select_payloads(values.take(n), prefix, skip),
    decreases values.len() - n,
{
    if n == values.len() {
        assert(values.take(n) =~= values);
    } else {
        let next = values.take(n + 1);
        assert(next.drop_last() =~= values.take(n));
        lemma_select_error_stays(values, n + 1, prefix, skip);
    }
}

/// A filtered read that succeeds returns exactly the values that start with
/// the prefix, none left out and no other let in, each without its leading
/// bytes, in the order of the listing.
pub proof fn lemma_select_exactly_tagged(values: Seq<Seq<u8>>, prefix: Seq<u8>, skip: nat)
    requires
        select_payloads(values, prefix, skip) is Ok,
    ensures
        select_payloads(values, prefix, skip) == Ok::<Seq<Seq<u8>>, StorageError>(
            values.filter(|v: Seq<u8>| has_prefix(v, prefix)).map_values(
                |v: Seq<u8>| v.skip((prefix.len() + skip) as int),
            ),
        ),
    decreases values.len(),
{
    let tagged = |v: Seq<u8>| has_prefix(v, prefix);
    let strip = |v: Seq<u8>| v.skip((prefix.len() + skip) as int);
    reveal(Seq::filter);
    if values.len() == 0 {
        assert(values.filter(tagged).map_values(strip) =~= Seq::<Seq<u8>>::empty());
    } else {
        lemma_select_exactly_tagged(values.drop_last(), prefix, skip);
        let earlier = values.drop_last().filter(tagged);
        if tagged(values.last()) {
            assert(values.filter(tagged) == earlier.push(values.last()));
            assert(earlier.push(values.last()).map_values(strip) =~= earlier.map_values(strip).push(
                strip(values.last()),
            ));
        } else {
            assert(values.filter(tagged) == earlier);
        }
    }
}

} // verus!
