//! CRC-32, as Ethernet and zip have it: what ends a read and goes with a write.
use vstd::prelude::*;

verus! {

/// The polynomial, its lowest bit first.
pub const POLYNOMIAL: u32 = 0xEDB8_8320;

/// What a register begins with.
pub const FRESH: u32 = 0xFFFF_FFFF;

/// A register after one more bit.
pub open spec fn shifted(register: u32) -> u32 {
    if register & 1 == 1 {
        (register >> 1) ^ POLYNOMIAL
    } else {
        register >> 1
    }
}

/// A register after so many more bits.
pub open spec fn shifted_by(register: u32, count: nat) -> u32
    decreases count,
{
    if count == 0 {
        register
    } else {
        shifted(shifted_by(register, (count - 1) as nat))
    }
}

/// A register after these bytes.
pub open spec fn fed(register: u32, bytes: Seq<u8>) -> u32
    decreases bytes.len(),
{
    if bytes.len() == 0 {
        register
    } else {
        shifted_by(fed(register, bytes.drop_last()) ^ (bytes.last() as u32), 8)
    }
}

/// The CRC-32 of these bytes.
pub open spec fn crc32_of(bytes: Seq<u8>) -> u32 {
    !fed(FRESH, bytes)
}

/// Feed bytes to a register.
pub(crate) fn feed(register: u32, bytes: &[u8]) -> (after: u32)
    ensures
        after == fed(register, bytes@),
{
    let mut now: u32 = register;
    let mut at: usize = 0;
    assert(bytes@.take(0) =~= Seq::empty());
    while at < bytes.len()
        invariant
            at <= bytes.len(),
            now == fed(register, bytes@.take(at as int)),
        decreases bytes.len() - at,
    {
        let ghost before = now ^ (bytes[at as int] as u32);
        now = now ^ (bytes[at] as u32);
        let mut bit: u8 = 0;
        while bit < 8
            invariant
                bit <= 8,
                now == shifted_by(before, bit as nat),
            decreases 8 - bit,
        {
            now = if now & 1 == 1 {
                (now >> 1) ^ POLYNOMIAL
            } else {
                now >> 1
            };
            bit += 1;
        }
        assert(bytes@.take(at + 1).drop_last() =~= bytes@.take(at as int));
        at += 1;
    }
    assert(bytes@.take(at as int) =~= bytes@);
    now
}

/// The CRC-32 of these bytes.
pub fn crc32(bytes: &[u8]) -> (crc: u32)
    ensures
        crc == crc32_of(bytes@),
{
    !feed(FRESH, bytes)
}

/// A register can be fed piece by piece: where the pieces end makes no difference.
pub proof fn law_pieces_make_no_difference(register: u32, front: Seq<u8>, back: Seq<u8>)
    ensures
        fed(fed(register, front), back) == fed(register, front + back),
    decreases back.len(),
{
    if back.len() == 0 {
        assert(front + back =~= front);
    } else {
        law_pieces_make_no_difference(register, front, back.drop_last());
        assert((front + back).drop_last() =~= front + back.drop_last());
    }
}

/// One more bit keeps two registers apart.
proof fn lemma_shifted_apart(left: u32, right: u32)
    requires
        left != right,
    ensures
        shifted(left) != shifted(right),
{
    assert((if left & 1 == 1 {
        (left >> 1) ^ 0xEDB8_8320u32
    } else {
        left >> 1
    }) != (if right & 1 == 1 {
        (right >> 1) ^ 0xEDB8_8320u32
    } else {
        right >> 1
    })) by (bit_vector)
        requires
            left != right,
    ;
}

proof fn lemma_shifted_by_apart(left: u32, right: u32, count: nat)
    requires
        left != right,
    ensures
        shifted_by(left, count) != shifted_by(right, count),
    decreases count,
{
    if count > 0 {
        lemma_shifted_by_apart(left, right, (count - 1) as nat);
        lemma_shifted_apart(shifted_by(left, (count - 1) as nat), shifted_by(right, (count - 1) as nat));
    }
}

/// What two registers differ in is not lost: the same bytes keep them apart.
pub proof fn law_a_difference_is_never_lost(left: u32, right: u32, bytes: Seq<u8>)
    requires
        left != right,
    ensures
        fed(left, bytes) != fed(right, bytes),
    decreases bytes.len(),
{
    if bytes.len() > 0 {
        law_a_difference_is_never_lost(left, right, bytes.drop_last());
        let (one, other) = (fed(left, bytes.drop_last()), fed(right, bytes.drop_last()));
        let byte = bytes.last() as u32;
        assert(one ^ byte != other ^ byte) by (bit_vector)
            requires
                one != other,
        ;
        lemma_shifted_by_apart(one ^ byte, other ^ byte, 8);
    }
}

/// The check depends on every bit of every byte: data that differ in one byte, wherever it is and
/// whatever its two values are, never have the same one.
pub proof fn law_a_changed_byte_is_noticed(front: Seq<u8>, one: u8, other: u8, back: Seq<u8>)
    requires
        one != other,
    ensures
        forall|register: u32|
            #[trigger] fed(register, front + seq![one] + back) != fed(register, front + seq![other] + back),
        crc32_of(front + seq![one] + back) != crc32_of(front + seq![other] + back),
{
    assert forall|register: u32|
        #[trigger] fed(register, front + seq![one] + back) != fed(register, front + seq![other] + back) by {
        let before = fed(register, front);
        assert((front + seq![one]).drop_last() =~= front);
        assert((front + seq![other]).drop_last() =~= front);
        assert(before ^ (one as u32) != before ^ (other as u32)) by (bit_vector)
            requires
                one != other,
        ;
        lemma_shifted_by_apart(before ^ (one as u32), before ^ (other as u32), 8);
        law_a_difference_is_never_lost(fed(register, front + seq![one]), fed(register, front + seq![other]), back);
        law_pieces_make_no_difference(register, front + seq![one], back);
        law_pieces_make_no_difference(register, front + seq![other], back);
    }
    let (ours, theirs) = (fed(FRESH, front + seq![one] + back), fed(FRESH, front + seq![other] + back));
    assert(!ours != !theirs) by (bit_vector)
        requires
            ours != theirs,
    ;
}

/// Two texts of one length, byte by byte added as bits are.
pub open spec fn mixed(left: Seq<u8>, right: Seq<u8>) -> Seq<u8> {
    Seq::new(left.len(), |i: int| left[i] ^ right[i])
}

proof fn lemma_shifted_by_mixes(left: u32, right: u32, count: nat)
    ensures
        shifted_by(left ^ right, count) == shifted_by(left, count) ^ shifted_by(right, count),
    decreases count,
{
    if count > 0 {
        lemma_shifted_by_mixes(left, right, (count - 1) as nat);
        let (one, other) = (shifted_by(left, (count - 1) as nat), shifted_by(right, (count - 1) as nat));
        let both = one ^ other;
        assert((if both & 1 == 1 {
            (both >> 1) ^ 0xEDB8_8320u32
        } else {
            both >> 1
        }) == (if one & 1 == 1 {
            (one >> 1) ^ 0xEDB8_8320u32
        } else {
            one >> 1
        }) ^ (if other & 1 == 1 {
            (other >> 1) ^ 0xEDB8_8320u32
        } else {
            other >> 1
        })) by (bit_vector)
            requires
                both == one ^ other,
        ;
    }
}

/// The check is a remainder, and remainders add up as what they are of does.
pub proof fn law_checks_add_up(left: u32, right: u32, one: Seq<u8>, other: Seq<u8>)
    requires
        one.len() == other.len(),
    ensures
        fed(left ^ right, mixed(one, other)) == fed(left, one) ^ fed(right, other),
    decreases one.len(),
{
    if one.len() > 0 {
        law_checks_add_up(left, right, one.drop_last(), other.drop_last());
        assert(mixed(one, other).drop_last() =~= mixed(one.drop_last(), other.drop_last()));
        let (a, b) = (fed(left, one.drop_last()), fed(right, other.drop_last()));
        let (x, y) = (one.last(), other.last());
        assert((a ^ b) ^ ((x ^ y) as u32) == (a ^ (x as u32)) ^ (b ^ (y as u32))) by (bit_vector);
        lemma_shifted_by_mixes(a ^ (x as u32), b ^ (y as u32), 8);
    }
}

} // verus!
