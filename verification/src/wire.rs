//! Unsigned integers in postcard's wire format.
//!
//! Postcard writes a `u64` as a *varint*: seven bits of the value per byte,
//! the least significant first, with the top bit set on every byte but the
//! last. A struct is its fields one after another, so a record that opens with
//! a `u64` opens with that integer's varint.

use vstd::prelude::*;

verus! {

/// The most bytes that a varint of a `u64` takes.
pub const MAX_VARINT_BYTES: usize = 10;

/// The varint of `n`.
pub open spec fn varint(n: nat) -> Seq<u8>
    decreases n,
{
    if n < 128 {
        seq![n as u8]
    } else {
        seq![(n % 128 + 128) as u8] + varint(n / 128)
    }
}

/// The number that the varint at the front of `bytes` stands for, and how many
/// bytes it takes. `None` if `bytes` ends before the varint does.
pub open spec fn varint_at_front(bytes: Seq<u8>) -> Option<(nat, nat)>
    decreases bytes.len(),
{
    if bytes.len() == 0 {
        None
    } else if bytes[0] < 128 {
        Some((bytes[0] as nat, 1))
    } else {
        match varint_at_front(bytes.skip(1)) {
            None => None,
            Some((value, len)) => Some((((bytes[0] - 128) + 128 * value) as nat, len + 1)),
        }
    }
}

/// The `u64` at the front of `bytes`, with the bytes behind it. `None` if the
/// varint there is cut short, is longer than a `u64` needs, or stands for a
/// number that a `u64` cannot hold.
pub open spec fn u64_at_front(bytes: Seq<u8>) -> Option<(u64, Seq<u8>)> {
    match varint_at_front(bytes) {
        Some((value, len)) if len <= MAX_VARINT_BYTES && value <= u64::MAX => Some(
            (value as u64, bytes.skip(len as int)),
        ),
        _ => None,
    }
}

/// What postcard reports when it cannot read or write a value.
#[verifier::external_type_specification]
#[verifier::external_body]
pub struct ExPostcardError(postcard::Error);

/// `postcard::to_allocvec` on a `u64`: the integer's varint. Writing to a
/// growing vector has no way to fail, so the result is always `Ok`.
#[verifier::external_body]
pub(crate) fn write_u64(value: u64) -> (result: Result<Vec<u8>, postcard::Error>)
    ensures
        result is Ok,
        result->Ok_0@ == varint(value as nat),
{
    postcard::to_allocvec(&value)
}

/// `postcard::take_from_bytes` for a `u64`: the integer at the front of `bytes`
/// and what follows it, or an error exactly where no `u64` stands there.
#[verifier::external_body]
pub(crate) fn take_u64(bytes: &[u8]) -> (result: Result<(u64, &[u8]), postcard::Error>)
    ensures
        match result {
            Ok((value, rest)) => u64_at_front(bytes@) == Some((value, rest@)),
            Err(_) => u64_at_front(bytes@) is None,
        },
{
    postcard::take_from_bytes::<u64>(bytes)
}

/// Reading back the varint of `n` gives `n`, and takes exactly its bytes.
pub proof fn law_varint_reads_back(n: nat, rest: Seq<u8>)
    ensures
        varint_at_front(varint(n) + rest) == Some((n, varint(n).len())),
    decreases n,
{
    let bytes = varint(n) + rest;
    if n >= 128 {
        law_varint_reads_back(n / 128, rest);
        assert(bytes.skip(1) =~= varint(n / 128) + rest);
    }
}

/// A varint of a number below 128 to the power `k` takes at most `k` bytes.
proof fn lemma_varint_len(n: nat, k: nat)
    requires
        k > 0,
        n < vstd::arithmetic::power::pow(128, k),
    ensures
        0 < varint(n).len() <= k,
    decreases k,
{
    broadcast use vstd::arithmetic::power::lemma_pow_positive;

    vstd::arithmetic::power::lemma_pow1(128);
    if n >= 128 {
        let p = vstd::arithmetic::power::pow(128, (k - 1) as nat);
        assert(vstd::arithmetic::power::pow(128, k) == 128 * p) by {
            reveal(vstd::arithmetic::power::pow);
        }
        if k == 1 {
            assert(false);
        }
        lemma_varint_len(n / 128, (k - 1) as nat);
    }
}

/// Every `u64` that was written is read back, whatever follows it.
pub proof fn law_u64_reads_back(value: u64, rest: Seq<u8>)
    ensures
        u64_at_front(varint(value as nat) + rest) == Some((value, rest)),
{
    law_varint_reads_back(value as nat, rest);
    assert(value < vstd::arithmetic::power::pow(128, 10)) by {
        reveal_with_fuel(vstd::arithmetic::power::pow, 11);
    }
    lemma_varint_len(value as nat, 10);
    let len = varint(value as nat).len();
    assert((varint(value as nat) + rest).skip(len as int) =~= rest);
}

} // verus!
