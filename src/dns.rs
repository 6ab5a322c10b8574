//! A smaller header type that exposes the ID, QR and OPCODE fields only,
//! with the same wire layout as `Header`.
use vstd::prelude::*;
use crate::bits::{bit_at, put_bit, put_u16, u16_at};
use crate::header::{opcode_bits, opcode_of, with_opcode, DNS_HEADER_SIZE, FLAGS_POS, ID_POS};
pub use crate::header::OpCode;

verus! {

/// A DNS message header as its 12 wire bytes.
#[derive(Debug)]
pub struct DnsHeader {
    pub frame: [u8; DNS_HEADER_SIZE],
}

impl Default for DnsHeader {
    /// The header whose 12 bytes are all zero.
    fn default() -> (r: DnsHeader)
        ensures
            r.frame@ == Seq::new(DNS_HEADER_SIZE as nat, |i: int| 0u8),
    {
        let r = DnsHeader { frame: [0u8; DNS_HEADER_SIZE] };
        assert(r.frame@ =~= Seq::new(DNS_HEADER_SIZE as nat, |i: int| 0u8));
        r
    }
}

impl DnsHeader {
    ///
    ///  A 16 bit identifier assigned by the program that generates any kind
    ///  of query. It is copied into the corresponding reply and lets the
    ///  requester match up replies to outstanding queries.
    ///
    pub fn get_id(&self) -> (r: u16)
        ensures
            r == u16_at(self.frame@, ID_POS as int),
    {
        (self.frame[ID_POS] as u16) * 256 + self.frame[ID_POS + 1] as u16
    }

    pub fn set_id(&mut self, value: u16)
        ensures
            final(self).frame@ == put_u16(old(self).frame@, ID_POS as int, value),
    {
        self.frame[ID_POS] = (value / 256) as u8;
        self.frame[ID_POS + 1] = (value % 256) as u8;
    }

    ///
    /// A one bit field that specifies whether this message is a query
    /// (false), or a response (true).
    ///
    pub fn get_qr(&self) -> (r: bool)
        ensures
            r == bit_at(self.frame@[FLAGS_POS as int], 0),
    {
        assert((0x80u8 >> 0u8) == 0x80u8) by (bit_vector);
        self.frame[FLAGS_POS] & 0b1000_0000 != 0
    }

    pub fn set_qr(&mut self, value: bool)
        ensures
            final(self).frame@ == put_bit(old(self).frame@, FLAGS_POS as int, 0, value),
    {
        if value {
            self.frame[FLAGS_POS] = self.frame[FLAGS_POS] | 0b1000_0000;
        } else {
            self.frame[FLAGS_POS] = self.frame[FLAGS_POS] & 0b0111_1111;
        }
        assert((0x80u8 >> 0u8) == 0x80u8 && !(0x80u8 >> 0u8) == 0x7Fu8) by (bit_vector);
        assert(self.frame@ =~= put_bit(old(self).frame@, FLAGS_POS as int, 0, value));
    }

    ///
    /// A four bit field that specifies kind of query in this message; unknown
    /// values read as `RESERVED`.
    ///
    pub fn get_op_code(&self) -> (r: OpCode)
        ensures
            r == opcode_of(opcode_bits(self.frame@[FLAGS_POS as int])),
    {
        let raw_nr = (self.frame[FLAGS_POS] & 0b0111_1000) >> 3;
        OpCode::from_u8(raw_nr)
    }

    pub fn set_op_code(&mut self, value: OpCode)
        ensures
            final(self).frame@ == old(self).frame@.update(
                FLAGS_POS as int,
                with_opcode(old(self).frame@[FLAGS_POS as int], value.code()),
            ),
    {
        let bit_mask = value.to_u8() << 3;
        self.frame[FLAGS_POS] = self.frame[FLAGS_POS] & 0b1000_0111;
        self.frame[FLAGS_POS] = self.frame[FLAGS_POS] | bit_mask;
    }
}

} // verus!
