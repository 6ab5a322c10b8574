//! Bit and big-endian byte layout shared by the header codecs.
use vstd::prelude::*;

verus! {

/// Mask that selects bit `pos` of a byte, bit 0 being the most significant.
pub open spec fn bit_mask(pos: u8) -> u8 {
    (0x80u8 >> pos) as u8
}

/// Whether bit `pos` of `b` is set (bit 0 is the most significant).
pub open spec fn bit_at(b: u8, pos: u8) -> bool {
    b & bit_mask(pos) != 0
}

/// `b` with bit `pos` set to `v` and every other bit kept.
pub open spec fn with_bit(b: u8, pos: u8, v: bool) -> u8 {
    if v {
        b | bit_mask(pos)
    } else {
        b & !bit_mask(pos)
    }
}

/// Setting a bit and reading it back gives the value set; the other bits stay.
pub proof fn lemma_with_bit(b: u8, pos: u8, v: bool, other: u8)
    requires
        pos < 8,
        other < 8,
    ensures
        bit_at(with_bit(b, pos, v), pos) == v,
        other != pos ==> bit_at(with_bit(b, pos, v), other) == bit_at(b, other),
{
    if v {
        assert(((b | (0x80u8 >> pos)) & (0x80u8 >> pos)) != 0) by (bit_vector)
            requires pos < 8;
        assert(other != pos ==> (((b | (0x80u8 >> pos)) & (0x80u8 >> other)) != 0 <==> (b & (0x80u8 >> other)) != 0)) by (bit_vector)
            requires pos < 8, other < 8;
    } else {
        assert(((b & !(0x80u8 >> pos)) & (0x80u8 >> pos)) == 0) by (bit_vector)
            requires pos < 8;
        assert(other != pos ==> (((b & !(0x80u8 >> pos)) & (0x80u8 >> other)) != 0 <==> (b & (0x80u8 >> other)) != 0)) by (bit_vector)
            requires pos < 8, other < 8;
    }
}

/// The 16-bit big-endian value stored at `f[pos]`, `f[pos + 1]`.
pub open spec fn u16_at(f: Seq<u8>, pos: int) -> u16 {
    (f[pos] as int * 256 + f[pos + 1] as int) as u16
}

/// `f` with the big-endian bytes of `v` written at `pos` and `pos + 1`.
pub open spec fn put_u16(f: Seq<u8>, pos: int, v: u16) -> Seq<u8> {
    f.update(pos, (v / 256) as u8).update(pos + 1, (v % 256) as u8)
}

/// `f` with bit `pos` of the byte at `byte_pos` set to `v`.
pub open spec fn put_bit(f: Seq<u8>, byte_pos: int, pos: u8, v: bool) -> Seq<u8> {
    f.update(byte_pos, with_bit(f[byte_pos], pos, v))
}

/// Writing a 16-bit field and reading it back gives the value written, and
/// only the field's two bytes change.
pub proof fn u16_field_round_trip(f: Seq<u8>, pos: int, v: u16)
    requires
        0 <= pos,
        pos + 1 < f.len(),
    ensures
        u16_at(put_u16(f, pos, v), pos) == v,
        put_u16(f, pos, v).len() == f.len(),
        forall|i: int| 0 <= i < f.len() && i != pos && i != pos + 1 ==> #[trigger] put_u16(f, pos, v)[i] == f[i],
{
}

/// Writing a one-bit flag and reading it back gives the value written; every
/// other bit of that byte, and every other byte, stays as it was.
pub proof fn flag_round_trip(f: Seq<u8>, byte_pos: int, pos: u8, v: bool)
    requires
        0 <= byte_pos < f.len(),
        pos < 8,
    ensures
        bit_at(put_bit(f, byte_pos, pos, v)[byte_pos], pos) == v,
        forall|other: u8| other < 8 && other != pos ==> #[trigger] bit_at(put_bit(f, byte_pos, pos, v)[byte_pos], other) == bit_at(f[byte_pos], other),
        put_bit(f, byte_pos, pos, v).len() == f.len(),
        forall|i: int| 0 <= i < f.len() && i != byte_pos ==> #[trigger] put_bit(f, byte_pos, pos, v)[i] == f[i],
{
    lemma_with_bit(f[byte_pos], pos, v, pos);
    assert forall|other: u8| other < 8 && other != pos implies #[trigger] bit_at(put_bit(f, byte_pos, pos, v)[byte_pos], other) == bit_at(f[byte_pos], other) by {
        lemma_with_bit(f[byte_pos], pos, v, other);
    }
}

} // verus!
