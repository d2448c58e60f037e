//! The byte layout of persisted state: fixed-width little-endian integers,
//! one after the other, written and read by `bincode`.

use vstd::prelude::*;

verus! {

/// The `n` low-order bytes of `x`, least significant first.
pub open spec fn le_bytes(x: nat, n: nat) -> Seq<u8>
    decreases n,
{
    if n == 0 {
        Seq::empty()
    } else {
        seq![(x % 256) as u8] + le_bytes(x / 256, (n - 1) as nat)
    }
}

/// The number that `s` spells, least significant byte first.
pub open spec fn le_value(s: Seq<u8>) -> nat
    decreases s.len(),
{
    if s.len() == 0 {
        0
    } else {
        s[0] as nat + 256 * le_value(s.drop_first())
    }
}

/// One more than the largest number that `n` bytes can spell.
pub open spec fn le_bound(n: nat) -> nat
    decreases n,
{
    if n == 0 {
        1
    } else {
        256 * le_bound((n - 1) as nat)
    }
}

/// `le_bytes(x, n)` has `n` bytes.
pub proof fn lemma_le_bytes_len(x: nat, n: nat)
    ensures
        le_bytes(x, n).len() == n,
    decreases n,
{
    if n > 0 {
        lemma_le_bytes_len(x / 256, (n - 1) as nat);
    }
}

/// A number that fits in `n` bytes is read back from its `n` bytes.
pub proof fn lemma_le_value_of_bytes(x: nat, n: nat)
    requires
        x < le_bound(n),
    ensures
        le_value(le_bytes(x, n)) == x,
    decreases n,
{
    if n > 0 {
        let rest = le_bytes(x / 256, (n - 1) as nat);
        lemma_le_bytes_len(x / 256, (n - 1) as nat);
        lemma_le_value_of_bytes(x / 256, (n - 1) as nat);
        assert(le_bytes(x, n).drop_first() =~= rest);
    }
}

/// What `s` spells fits in as many bytes as `s` has, and those bytes are
/// `s` again.
pub proof fn lemma_le_bytes_of_value(s: Seq<u8>)
    ensures
        le_value(s) < le_bound(s.len()),
        le_bytes(le_value(s), s.len()) == s,
    decreases s.len(),
{
    if s.len() > 0 {
        lemma_le_bytes_of_value(s.drop_first());
        assert(le_bytes(le_value(s), s.len()) =~= s);
    } else {
        assert(le_bytes(le_value(s), s.len()) =~= s);
    }
}

/// Eight bytes spell a `u64`, four a `u32`.
pub proof fn lemma_le_bounds()
    ensures
        le_bound(4) == 0x1_0000_0000,
        le_bound(8) == 0x1_0000_0000_0000_0000,
{
    reveal_with_fuel(le_bound, 9);
}

/// The error that `bincode` reports. Nothing of its contents is visible to
/// the verifier: it is carried to the caller as it came.
#[verifier::external_type_specification]
#[verifier::external_body]
pub struct ExErrorKind(bincode::ErrorKind);

/// `bincode::serialize` on a pair of a `u64` and a `u32`. In the source of
/// bincode 1.3 this function encodes with fixed-width little-endian
/// integers, a tuple is its fields in order with nothing between them, and
/// writing into a `Vec` without a size limit does not fail.
#[verifier::external_body]
pub(crate) fn serialize_u64_u32(a: u64, b: u32) -> (r: Result<Vec<u8>, bincode::Error>)
    ensures
        r is Ok,
        r matches Ok(bytes) ==> bytes@ == le_bytes(a as nat, 8) + le_bytes(b as nat, 4),
{
    bincode::serialize(&(a, b))
}

/// `bincode::serialize` on a `u64` and two `u32`s, laid out as above.
#[verifier::external_body]
pub(crate) fn serialize_u64_u32_u32(a: u64, b: u32, c: u32) -> (r: Result<
    Vec<u8>,
    bincode::Error,
>)
    ensures
        r is Ok,
        r matches Ok(bytes) ==> bytes@ == le_bytes(a as nat, 8) + le_bytes(b as nat, 4)
            + le_bytes(c as nat, 4),
{
    bincode::serialize(&(a, b, c))
}

/// `bincode::serialize` on a pair of `u64`s, laid out as above.
#[verifier::external_body]
pub(crate) fn serialize_u64_u64(a: u64, b: u64) -> (r: Result<Vec<u8>, bincode::Error>)
    ensures
        r is Ok,
        r matches Ok(bytes) ==> bytes@ == le_bytes(a as nat, 8) + le_bytes(b as nat, 8),
{
    bincode::serialize(&(a, b))
}

/// `bincode::deserialize` for a pair of a `u64` and a `u32`. In the source
/// of bincode 1.3 this function reads fixed-width little-endian integers
/// from the front of the slice, fails when the slice ends before the last
/// field does, and ignores bytes that follow the last field.
#[verifier::external_body]
pub(crate) fn deserialize_u64_u32(bytes: &[u8]) -> (r: Result<(u64, u32), bincode::Error>)
    ensures
        r is Ok <==> bytes@.len() >= 12,
        r matches Ok(fields) ==> fields.0 == le_value(bytes@.subrange(0, 8)) && fields.1
            == le_value(bytes@.subrange(8, 12)),
{
    bincode::deserialize(bytes)
}

/// `bincode::deserialize` for a `u64` and two `u32`s, read as above.
#[verifier::external_body]
pub(crate) fn deserialize_u64_u32_u32(bytes: &[u8]) -> (r: Result<
    (u64, u32, u32),
    bincode::Error,
>)
    ensures
        r is Ok <==> bytes@.len() >= 16,
        r matches Ok(fields) ==> fields.0 == le_value(bytes@.subrange(0, 8)) && fields.1
            == le_value(bytes@.subrange(8, 12)) && fields.2 == le_value(bytes@.subrange(12, 16)),
{
    bincode::deserialize(bytes)
}

/// `bincode::deserialize` for a pair of `u64`s, read as above.
#[verifier::external_body]
pub(crate) fn deserialize_u64_u64(bytes: &[u8]) -> (r: Result<(u64, u64), bincode::Error>)
    ensures
        r is Ok <==> bytes@.len() >= 16,
        r matches Ok(fields) ==> fields.0 == le_value(bytes@.subrange(0, 8)) && fields.1
            == le_value(bytes@.subrange(8, 16)),
{
    bincode::deserialize(bytes)
}

/// The text that `bincode` gives for one of its errors, through the error's
/// `Display`.
#[verifier::external_body]
pub(crate) fn error_text(error: &bincode::ErrorKind) -> String {
    format!("{}", error)
}

} // verus!
