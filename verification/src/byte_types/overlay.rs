//! Checked views of a byte buffer as fixed-size records, without copying.
//!
//! The views are those of `zerocopy::LayoutVerified` at byte-array types.
//! A byte array has alignment one, so only the length decides whether a
//! view can be had.

use vstd::prelude::*;

verus! {

/// The `index`-th run of `width` bytes of `bytes`.
pub open spec fn record_at(bytes: Seq<u8>, width: nat, index: int) -> Seq<u8> {
    bytes.subrange(index * width, index * width + width)
}

/// `records` are the runs of `width` bytes that `bytes` is made of, in
/// order.
pub open spec fn are_records_of<const N: usize>(records: Seq<[u8; N]>, bytes: Seq<u8>) -> bool {
    &&& records.len() * N == bytes.len()
    &&& forall|i: int| 0 <= i < records.len() ==> (#[trigger] records[i])@ == record_at(bytes, N as nat, i)
}

/// `zerocopy::LayoutVerified::new_from_prefix` at the type `[u8; N]`, then
/// `into_ref`: the first `N` bytes as an array and the bytes after them, or
/// nothing if there are fewer than `N` bytes.
#[verifier::external_body]
pub(crate) fn split_array<const N: usize>(bytes: &[u8]) -> (parts: Option<(&[u8; N], &[u8])>)
    ensures
        parts is Some <==> bytes@.len() >= N,
        parts matches Some((head, rest)) ==> head@ == bytes@.take(N as int) && rest@
            == bytes@.skip(N as int),
{
    match zerocopy::LayoutVerified::<&[u8], [u8; N]>::new_from_prefix(bytes) {
        Some((head, rest)) => Some((head.into_ref(), rest)),
        None => None,
    }
}

/// `zerocopy::LayoutVerified::new_slice` at the type `[[u8; N]]`, then
/// `into_slice`: all of `bytes` as records of `N` bytes, or nothing if the
/// length is no multiple of `N`. It panics for `N == 0`.
#[verifier::external_body]
pub(crate) fn as_records<const N: usize>(bytes: &[u8]) -> (records: Option<&[[u8; N]]>)
    requires
        N > 0,
    ensures
        records is Some <==> bytes@.len() % (N as nat) == 0,
        records matches Some(r) ==> are_records_of(r@, bytes@),
{
    match zerocopy::LayoutVerified::<&[u8], [[u8; N]]>::new_slice(bytes) {
        Some(records) => Some(records.into_slice()),
        None => None,
    }
}

/// `zerocopy::LayoutVerified::new_slice_from_prefix` at the type
/// `[[u8; N]]`, then `into_slice`: the first `count` records of `N` bytes and
/// the bytes after them, or nothing if `bytes` is shorter than that. It
/// panics for `N == 0`.
#[verifier::external_body]
pub(crate) fn split_records<const N: usize>(bytes: &[u8], count: usize) -> (parts: Option<
    (&[[u8; N]], &[u8]),
>)
    requires
        N > 0,
    ensures
        parts is Some <==> N * count <= bytes@.len(),
        parts matches Some((records, rest)) ==> are_records_of(
            records@,
            bytes@.take(N * count),
        ) && rest@ == bytes@.skip(N * count),
{
    match zerocopy::LayoutVerified::<&[u8], [[u8; N]]>::new_slice_from_prefix(bytes, count) {
        Some((records, rest)) => Some((records.into_slice(), rest)),
        None => None,
    }
}

/// The `N` bytes of `bytes` that start at `at`, as an array of their own.
pub(crate) fn array_at<const N: usize>(bytes: &[u8], at: usize) -> (copy: [u8; N])
    requires
        at + N <= bytes@.len(),
    ensures
        copy@ == bytes@.subrange(at as int, at + N),
{
    let total: usize = bytes.len();
    let mut copy = [0u8; N];
    let mut i: usize = 0;
    while i < N
        invariant
            at + N <= total == bytes@.len(),
            i <= N,
            forall|k: int| 0 <= k < i ==> copy@[k] == bytes@[at + k],
        decreases N - i,
    {
        copy[i] = bytes[at + i];
        i += 1;
    }
    assert(copy@ =~= bytes@.subrange(at as int, at + N));
    copy
}

} // verus!
