//! Helpers on byte strings.

use vstd::prelude::*;

verus! {

/// The view of what an option holds.
pub open spec fn option_view<T: View>(option: Option<T>) -> Option<T::V> {
    match option {
        Some(value) => Some(value@),
        None => None,
    }
}

/// The byte strings of a list.
pub open spec fn list_view(list: Seq<Vec<u8>>) -> Seq<Seq<u8>> {
    list.map_values(|bytes: Vec<u8>| bytes@)
}

/// The byte strings of a list that may be missing.
pub open spec fn option_list_view(list: Option<Vec<Vec<u8>>>) -> Option<Seq<Seq<u8>>> {
    match list {
        Some(list) => Some(list_view(list@)),
        None => None,
    }
}

/// Copies 32 bytes into an array.
pub(crate) fn to_array_32(bytes: &[u8]) -> (array: [u8; 32])
    requires
        bytes@.len() == 32,
    ensures
        array@ == bytes@,
{
    let mut array: [u8; 32] = [0u8; 32];
    let mut i: usize = 0;
    while i < 32
        invariant
            i <= 32,
            bytes@.len() == 32,
            forall|j: int| 0 <= j < i ==> array@[j] == bytes@[j],
        decreases 32 - i,
    {
        array[i] = bytes[i];
        i = i + 1;
    }
    array
}

/// Whether two byte strings are the same.
pub(crate) fn equal(left: &[u8], right: &[u8]) -> (same: bool)
    ensures
        same == (left@ == right@),
{
    if left.len() != right.len() {
        return false;
    }
    let mut i: usize = 0;
    while i < left.len()
        invariant
            i <= left@.len(),
            left@.len() == right@.len(),
            forall|j: int| 0 <= j < i ==> left@[j] == right@[j],
        decreases left@.len() - i,
    {
        if left[i] != right[i] {
            return false;
        }
        i = i + 1;
    }
    assert(left@ =~= right@);
    true
}

/// Appends `more` to `bytes`.
pub(crate) fn append(bytes: &mut Vec<u8>, more: &[u8])
    ensures
        final(bytes)@ == old(bytes)@ + more@,
{
    bytes.extend_from_slice(more);
    assert(bytes@ =~= old(bytes)@ + more@);
}

/// Copies a byte string.
pub(crate) fn copy_bytes(bytes: &Vec<u8>) -> (same: Vec<u8>)
    ensures
        same@ == bytes@,
{
    let same = bytes.clone();
    assert(same@ =~= bytes@);
    same
}

/// Copies a list of byte strings.
pub(crate) fn copy_list(list: &Vec<Vec<u8>>) -> (same: Vec<Vec<u8>>)
    ensures
        list_view(same@) == list_view(list@),
{
    let mut same: Vec<Vec<u8>> = Vec::new();
    let mut i: usize = 0;
    while i < list.len()
        invariant
            i <= list@.len(),
            same@.len() == i,
            forall|j: int| 0 <= j < i ==> (#[trigger] same@[j])@ == list@[j]@,
        decreases list@.len() - i,
    {
        same.push(copy_bytes(&list[i]));
        i = i + 1;
    }
    assert(list_view(same@) =~= list_view(list@));
    same
}

} // verus!
