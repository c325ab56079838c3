use vstd::arithmetic::power2::{lemma2_to64, lemma_pow2_adds, pow2};
use vstd::prelude::*;

verus! {

/// Big-endian value of `bytes`, eight significant bits per byte.
pub open spec fn be_value(bytes: Seq<u8>) -> nat
    decreases bytes.len(),
{
    if bytes.len() == 0 {
        0
    } else {
        be_value(bytes.drop_last()) * 256 + bytes.last() as nat
    }
}

/// Big-endian value of `bytes` in the synchsafe scheme: seven significant
/// bits per byte, the top bit of every byte ignored.
pub open spec fn synchsafe_value(bytes: Seq<u8>) -> nat
    decreases bytes.len(),
{
    if bytes.len() == 0 {
        0
    } else {
        synchsafe_value(bytes.drop_last()) * 128 + (bytes.last() & 0x7f) as nat
    }
}

proof fn lemma_low_seven_bits(b: u8)
    ensures
        (b & 0x7f) < 128,
        b < 128 ==> (b & 0x7f) == b,
{
    assert((b & 0x7f) < 128) by (bit_vector);
    assert(b < 128 ==> (b & 0x7f) == b) by (bit_vector);
}

/// A big-endian value of `n` bytes is below 2^(8n).
pub proof fn lemma_be_value_bound(bytes: Seq<u8>)
    ensures
        be_value(bytes) < pow2(8 * bytes.len()),
    decreases bytes.len(),
{
    if bytes.len() == 0 {
        lemma2_to64();
    } else {
        let init = bytes.drop_last();
        lemma_be_value_bound(init);
        lemma2_to64();
        lemma_pow2_adds(8 * init.len(), 8);
        assert(8 * bytes.len() == 8 * init.len() + 8);
        let p = pow2(8 * init.len());
        assert(pow2(8 * bytes.len()) == p * 256);
        assert(be_value(bytes) == be_value(init) * 256 + (bytes.last() as nat));
        assert(be_value(init) * 256 + (bytes.last() as nat) < p * 256) by (nonlinear_arith)
            requires
                be_value(init) < p,
                (bytes.last() as nat) < 256,
        ;
    }
}

proof fn lemma_synchsafe_value_bound(bytes: Seq<u8>)
    ensures
        synchsafe_value(bytes) < pow2(7 * bytes.len()),
    decreases bytes.len(),
{
    if bytes.len() == 0 {
        lemma2_to64();
    } else {
        let init = bytes.drop_last();
        lemma_synchsafe_value_bound(init);
        lemma_low_seven_bits(bytes.last());
        lemma2_to64();
        lemma_pow2_adds(7 * init.len(), 7);
        assert(7 * bytes.len() == 7 * init.len() + 7);
        let p = pow2(7 * init.len());
        assert(synchsafe_value(init) * 128 + ((bytes.last() & 0x7f) as nat) < p * 128)
            by (nonlinear_arith)
            requires
                synchsafe_value(init) < p,
                ((bytes.last() & 0x7f) as nat) < 128,
        ;
    }
}

proof fn lemma_pow2_128(e: nat)
    requires
        e <= 128,
    ensures
        pow2(e) <= u128::MAX + 1,
{
    lemma2_to64();
    lemma_pow2_adds(64, 64);
    if e < 128 {
        vstd::arithmetic::power2::lemma_pow2_strictly_increases(e, 128);
    }
}

/// The value of 4 bytes read as a plain big-endian integer fits in `u32`.
pub proof fn lemma_be_value_u32(bytes: Seq<u8>)
    requires
        bytes.len() == 4,
    ensures
        be_value(bytes) <= u32::MAX,
{
    lemma_be_value_bound(bytes);
    lemma2_to64();
}

/// The synchsafe value of 4 bytes is below 2^28.
pub proof fn lemma_synchsafe_value_28_bits(bytes: Seq<u8>)
    requires
        bytes.len() == 4,
    ensures
        synchsafe_value(bytes) < 0x1000_0000,
{
    lemma_synchsafe_value_bound(bytes);
    lemma2_to64();
}

/// For four bytes whose top bits are clear, the synchsafe value is the
/// big-endian number formed by their 28 significant bits, seven per byte.
pub proof fn lemma_synchsafe_28_bit_value(bytes: Seq<u8>)
    requires
        bytes.len() == 4,
        forall|i: int| 0 <= i < 4 ==> bytes[i] < 128,
    ensures
        synchsafe_value(bytes) == (bytes[0] as nat) * 0x20_0000 + (bytes[1] as nat) * 0x4000
            + (bytes[2] as nat) * 0x80 + (bytes[3] as nat),
{
    let b1 = bytes.take(1);
    let b2 = bytes.take(2);
    let b3 = bytes.take(3);
    assert(bytes.drop_last() =~= b3);
    assert(b3.drop_last() =~= b2);
    assert(b2.drop_last() =~= b1);
    assert(b1.drop_last() =~= Seq::<u8>::empty());
    lemma_low_seven_bits(bytes[0]);
    lemma_low_seven_bits(bytes[1]);
    lemma_low_seven_bits(bytes[2]);
    lemma_low_seven_bits(bytes[3]);
    assert(synchsafe_value(b1.drop_last()) == 0);
    assert(b1.last() == bytes[0]);
    assert(synchsafe_value(b1) == bytes[0] as nat);
    assert(synchsafe_value(b2) == (bytes[0] as nat) * 128 + (bytes[1] as nat));
    assert(synchsafe_value(b3) == ((bytes[0] as nat) * 128 + (bytes[1] as nat)) * 128
        + (bytes[2] as nat));
}

/// Plain big-endian integer of up to 16 bytes, eight bits per byte.
pub fn convert_unsigned(slice: &[u8]) -> (r: u128)
    requires
        slice@.len() <= 16,
    ensures
        r == be_value(slice@),
{
    let mut result: u128 = 0;
    let mut i: usize = 0;
    while i < slice.len()
        invariant
            i <= slice@.len() <= 16,
            result == be_value(slice@.take(i as int)),
        decreases slice@.len() - i,
    {
        let ghost prefix = slice@.take(i as int);
        proof {
            lemma_be_value_bound(prefix);
            lemma2_to64();
            lemma_pow2_adds(8 * prefix.len(), 8);
            lemma_pow2_128(8 * prefix.len() + 8);
            let p = pow2(8 * prefix.len());
            assert(result * 256 + (slice@[i as int] as nat) < p * 256) by (nonlinear_arith)
                requires
                    result < p,
                    (slice@[i as int] as nat) < 256,
            ;
            assert(slice@.take(i + 1).drop_last() =~= prefix);
        }
        result = result * 256 + slice[i] as u128;
        i += 1;
    }
    assert(slice@.take(i as int) =~= slice@);
    result
}

/// Synchsafe integer of up to 16 bytes: seven bits per byte, most significant
/// byte first, the top bit of each byte ignored.
pub fn convert_signed(slice: &[u8]) -> (r: u128)
    requires
        slice@.len() <= 16,
    ensures
        r == synchsafe_value(slice@),
{
    let mut result: u128 = 0;
    let mut i: usize = 0;
    while i < slice.len()
        invariant
            i <= slice@.len() <= 16,
            result == synchsafe_value(slice@.take(i as int)),
        decreases slice@.len() - i,
    {
        let ghost prefix = slice@.take(i as int);
        let low = slice[i] & 0x7f;
        proof {
            lemma_synchsafe_value_bound(prefix);
            lemma_low_seven_bits(slice@[i as int]);
            lemma2_to64();
            lemma_pow2_adds(7 * prefix.len(), 7);
            lemma_pow2_128(7 * prefix.len() + 7);
            let p = pow2(7 * prefix.len());
            assert(result * 128 + (low as nat) < p * 128) by (nonlinear_arith)
                requires
                    result < p,
                    (low as nat) < 128,
            ;
            assert(slice@.take(i + 1).drop_last() =~= prefix);
        }
        result = result * 128 + low as u128;
        i += 1;
    }
    assert(slice@.take(i as int) =~= slice@);
    result
}

/// Whether bit `position` (0 = least significant) of `byte` is set.
pub fn bit_at(byte: u8, position: u8) -> (r: bool)
    requires
        position < 8,
    ensures
        r == (byte & (1u8 << position) != 0),
{
    byte & (1u8 << position) != 0
}

} // verus!
