//! The fixed 12-byte DNS message header, read and written field by field.
use vstd::prelude::*;
use crate::bits::{bit_at, put_bit, put_u16, u16_at, with_bit};
use crate::error::DecodeError;

verus! {

pub const ID_SIZE: usize = 2;
pub const ID_POS: usize = 0;

pub const FLAGS_SIZE: usize = 2;
pub const FLAGS_POS: usize = 2;

pub const QDCOUNT_SIZE: usize = 2;
pub const QDCOUNT_POS: usize = 4;

pub const ANCOUNT_SIZE: usize = 2;
pub const ANCOUNT_POS: usize = 6;

pub const NSCOUNT_SIZE: usize = 2;
pub const NSCOUNT_POS: usize = 8;

pub const ARCOUNT_SIZE: usize = 2;
pub const ARCOUNT_POS: usize = 10;

/// Size of the header on the wire, in bytes.
pub const DNS_HEADER_SIZE: usize = ID_SIZE + FLAGS_SIZE + QDCOUNT_SIZE + ANCOUNT_SIZE + NSCOUNT_SIZE
    + ARCOUNT_SIZE;

/// A DNS message header: its 12 wire bytes, read and written through typed
/// accessors.
#[derive(Debug)]
pub struct Header {
    pub frame: [u8; DNS_HEADER_SIZE],
}

impl Default for Header {
    /// The header whose 12 bytes are all zero.
    fn default() -> (r: Header)
        ensures
            r.frame@ == Seq::new(DNS_HEADER_SIZE as nat, |i: int| 0u8),
    {
        let r = Header { frame: [0u8; DNS_HEADER_SIZE] };
        assert(r.frame@ =~= Seq::new(DNS_HEADER_SIZE as nat, |i: int| 0u8));
        r
    }
}

impl Header {
    /// Reads a header from the first 12 bytes of `bytes`.
    pub fn read(bytes: &[u8]) -> (r: Result<Header, DecodeError>)
        ensures
            bytes@.len() < DNS_HEADER_SIZE ==> r == Err::<Header, DecodeError>(DecodeError::TruncatedInput),
            bytes@.len() >= DNS_HEADER_SIZE ==> r is Ok && r->Ok_0.frame@ == bytes@.take(DNS_HEADER_SIZE as int),
    {
        if bytes.len() < DNS_HEADER_SIZE {
            return Err(DecodeError::TruncatedInput);
        }
        let mut frame = [0u8; DNS_HEADER_SIZE];
        let mut i: usize = 0;
        while i < DNS_HEADER_SIZE
            invariant
                i <= DNS_HEADER_SIZE,
                bytes@.len() >= DNS_HEADER_SIZE,
                forall|j: int| 0 <= j < i ==> frame@[j] == bytes@[j],
            decreases DNS_HEADER_SIZE - i,
        {
            frame[i] = bytes[i];
            i += 1;
        }
        assert(frame@ =~= bytes@.take(DNS_HEADER_SIZE as int));
        Ok(Header { frame })
    }
}

impl Header {
    /// The ID field.
    pub open spec fn id(&self) -> u16 {
        u16_at(self.frame@, ID_POS as int)
    }

    /// The QDCOUNT field.
    pub open spec fn qdcount(&self) -> u16 {
        u16_at(self.frame@, QDCOUNT_POS as int)
    }

    /// The ANCOUNT field.
    pub open spec fn ancount(&self) -> u16 {
        u16_at(self.frame@, ANCOUNT_POS as int)
    }

    /// The NSCOUNT field.
    pub open spec fn nscount(&self) -> u16 {
        u16_at(self.frame@, NSCOUNT_POS as int)
    }

    /// The ARCOUNT field.
    pub open spec fn arcount(&self) -> u16 {
        u16_at(self.frame@, ARCOUNT_POS as int)
    }

    /// The first flag byte: QR, OPCODE, AA, TC, RD.
    pub open spec fn flags_hi(&self) -> u8 {
        self.frame@[FLAGS_POS as int]
    }

    /// The second flag byte: RA, Z, RCODE.
    pub open spec fn flags_lo(&self) -> u8 {
        self.frame@[FLAGS_POS + 1]
    }

    ///
    /// Read a binary flag (a single bit) set in the frame; bit 0 is the most
    /// significant bit of the byte.
    ///
    pub fn get_flag_bit(&self, byte_pos: usize, bit_pos: u8) -> (r: bool)
        requires
            byte_pos < DNS_HEADER_SIZE,
            bit_pos < 8,
        ensures
            r == bit_at(self.frame@[byte_pos as int], bit_pos),
    {
        self.frame[byte_pos] & (0x80u8 >> bit_pos) != 0
    }

    ///
    /// Set a binary flag (a single bit) in the frame, leaving every other bit
    /// as it was.
    ///
    pub fn set_flag_bit(&mut self, byte_pos: usize, bit_pos: u8, value: bool)
        requires
            byte_pos < DNS_HEADER_SIZE,
            bit_pos < 8,
        ensures
            final(self).frame@ == put_bit(old(self).frame@, byte_pos as int, bit_pos, value),
    {
        if value {
            self.frame[byte_pos] = self.frame[byte_pos] | (0x80u8 >> bit_pos);
        } else {
            self.frame[byte_pos] = self.frame[byte_pos] & !(0x80u8 >> bit_pos);
        }
    }

    /// Reads the big-endian 16-bit value at `byte_pos`.
    pub fn get_u16(&self, byte_pos: usize) -> (r: u16)
        requires
            byte_pos + 1 < DNS_HEADER_SIZE,
        ensures
            r == u16_at(self.frame@, byte_pos as int),
    {
        (self.frame[byte_pos] as u16) * 256 + self.frame[byte_pos + 1] as u16
    }

    /// Writes `value` big-endian at `byte_pos` and `byte_pos + 1`.
    pub fn set_u16(&mut self, byte_pos: usize, value: u16)
        requires
            byte_pos + 1 < DNS_HEADER_SIZE,
        ensures
            final(self).frame@ == put_u16(old(self).frame@, byte_pos as int, value),
    {
        self.frame[byte_pos] = (value / 256) as u8;
        self.frame[byte_pos + 1] = (value % 256) as u8;
    }
}

impl Header {
    ///
    ///  A 16 bit identifier assigned by the program that generates any kind
    ///  of query. It is copied into the corresponding reply and lets the
    ///  requester match up replies to outstanding queries.
    ///
    pub fn get_id(&self) -> (r: u16)
        ensures
            r == self.id(),
    {
        self.get_u16(ID_POS)
    }

    pub fn set_id(&mut self, value: u16)
        ensures
            final(self).frame@ == put_u16(old(self).frame@, ID_POS as int, value),
            final(self).id() == value,
    {
        self.set_u16(ID_POS, value);
        proof {
            crate::bits::u16_field_round_trip(old(self).frame@, ID_POS as int, value);
        }
    }

    /// The number of entries in the question section.
    pub fn get_qdcount(&self) -> (r: u16)
        ensures
            r == self.qdcount(),
    {
        self.get_u16(QDCOUNT_POS)
    }

    pub fn set_qdcount(&mut self, value: u16)
        ensures
            final(self).frame@ == put_u16(old(self).frame@, QDCOUNT_POS as int, value),
            final(self).qdcount() == value,
    {
        self.set_u16(QDCOUNT_POS, value);
        proof {
            crate::bits::u16_field_round_trip(old(self).frame@, QDCOUNT_POS as int, value);
        }
    }

    /// The number of resource records in the answer section.
    pub fn get_ancount(&self) -> (r: u16)
        ensures
            r == self.ancount(),
    {
        self.get_u16(ANCOUNT_POS)
    }

    pub fn set_ancount(&mut self, value: u16)
        ensures
            final(self).frame@ == put_u16(old(self).frame@, ANCOUNT_POS as int, value),
            final(self).ancount() == value,
    {
        self.set_u16(ANCOUNT_POS, value);
        proof {
            crate::bits::u16_field_round_trip(old(self).frame@, ANCOUNT_POS as int, value);
        }
    }

    /// The number of name server records in the authority section.
    pub fn get_anscount(&self) -> (r: u16)
        ensures
            r == self.nscount(),
    {
        self.get_u16(NSCOUNT_POS)
    }

    pub fn set_nscount(&mut self, value: u16)
        ensures
            final(self).frame@ == put_u16(old(self).frame@, NSCOUNT_POS as int, value),
            final(self).nscount() == value,
    {
        self.set_u16(NSCOUNT_POS, value);
        proof {
            crate::bits::u16_field_round_trip(old(self).frame@, NSCOUNT_POS as int, value);
        }
    }

    /// The number of resource records in the additional section.
    pub fn get_arscount(&self) -> (r: u16)
        ensures
            r == self.arcount(),
    {
        self.get_u16(ARCOUNT_POS)
    }

    pub fn set_nrcount(&mut self, value: u16)
        ensures
            final(self).frame@ == put_u16(old(self).frame@, ARCOUNT_POS as int, value),
            final(self).arcount() == value,
    {
        self.set_u16(ARCOUNT_POS, value);
        proof {
            crate::bits::u16_field_round_trip(old(self).frame@, ARCOUNT_POS as int, value);
        }
    }

    ///
    /// A one bit field that specifies whether this message is a query
    /// (false), or a response (true).
    ///
    pub fn get_qr(&self) -> (r: bool)
        ensures
            r == bit_at(self.frame@[FLAGS_POS as int], 0),
    {
        self.get_flag_bit(FLAGS_POS, 0)
    }

    pub fn set_qr(&mut self, value: bool)
        ensures
            final(self).frame@ == put_bit(old(self).frame@, FLAGS_POS as int, 0, value),
            bit_at(final(self).frame@[FLAGS_POS as int], 0) == value,
    {
        self.set_flag_bit(FLAGS_POS, 0, value);
        proof {
            crate::bits::flag_round_trip(old(self).frame@, FLAGS_POS as int, 0, value);
        }
    }

    ///
    /// Authoritative Answer: valid in responses, it says that the responding
    /// name server is an authority for the domain name in question.
    ///
    pub fn get_aa(&self) -> (r: bool)
        ensures
            r == bit_at(self.frame@[FLAGS_POS as int], 5),
    {
        self.get_flag_bit(FLAGS_POS, 5)
    }

    pub fn set_add(&mut self, value: bool)
        ensures
            final(self).frame@ == put_bit(old(self).frame@, FLAGS_POS as int, 5, value),
            bit_at(final(self).frame@[FLAGS_POS as int], 5) == value,
    {
        self.set_flag_bit(FLAGS_POS, 5, value);
        proof {
            crate::bits::flag_round_trip(old(self).frame@, FLAGS_POS as int, 5, value);
        }
    }

    ///
    /// TrunCation: the message was truncated because it was longer than the
    /// transmission channel permits.
    ///
    pub fn get_tc(&self) -> (r: bool)
        ensures
            r == bit_at(self.frame@[FLAGS_POS as int], 6),
    {
        self.get_flag_bit(FLAGS_POS, 6)
    }

    pub fn set_tc(&mut self, value: bool)
        ensures
            final(self).frame@ == put_bit(old(self).frame@, FLAGS_POS as int, 6, value),
            bit_at(final(self).frame@[FLAGS_POS as int], 6) == value,
    {
        self.set_flag_bit(FLAGS_POS, 6, value);
        proof {
            crate::bits::flag_round_trip(old(self).frame@, FLAGS_POS as int, 6, value);
        }
    }

    ///
    /// Recursion Desired: may be set in a query and is copied into the
    /// response; it asks the name server to pursue the query recursively.
    ///
    pub fn get_rd(&self) -> (r: bool)
        ensures
            r == bit_at(self.frame@[FLAGS_POS as int], 7),
    {
        self.get_flag_bit(FLAGS_POS, 7)
    }

    pub fn set_rd(&mut self, value: bool)
        ensures
            final(self).frame@ == put_bit(old(self).frame@, FLAGS_POS as int, 7, value),
            bit_at(final(self).frame@[FLAGS_POS as int], 7) == value,
    {
        self.set_flag_bit(FLAGS_POS, 7, value);
        proof {
            crate::bits::flag_round_trip(old(self).frame@, FLAGS_POS as int, 7, value);
        }
    }

    ///
    /// Recursion Available: set or cleared in a response, it says whether
    /// the name server supports recursive queries.
    ///
    pub fn get_ra(&self) -> (r: bool)
        ensures
            r == bit_at(self.frame@[FLAGS_POS + 1 as int], 0),
    {
        self.get_flag_bit(FLAGS_POS + 1, 0)
    }

    pub fn set_ra(&mut self, value: bool)
        ensures
            final(self).frame@ == put_bit(old(self).frame@, FLAGS_POS + 1 as int, 0, value),
            bit_at(final(self).frame@[FLAGS_POS + 1 as int], 0) == value,
    {
        self.set_flag_bit(FLAGS_POS + 1, 0, value);
        proof {
            crate::bits::flag_round_trip(old(self).frame@, FLAGS_POS + 1 as int, 0, value);
        }
    }
}

/// The OPCODE bits (mask `0b0111_1000`) of the first flag byte, as a number.
pub open spec fn opcode_bits(b: u8) -> u8 {
    ((b & 0x78u8) >> 3u8) as u8
}

/// `b` with its OPCODE bits replaced by `code`; QR, AA, TC and RD stay.
pub open spec fn with_opcode(b: u8, code: u8) -> u8 {
    (b & 0x87u8) | ((code << 3u8) as u8)
}

/// The RCODE bits (mask `0b0000_1111`) of the second flag byte, as a number.
pub open spec fn rcode_bits(b: u8) -> u8 {
    b & 0x0Fu8
}

/// `b` with its RCODE bits replaced by `code`; RA and Z stay.
pub open spec fn with_rcode(b: u8, code: u8) -> u8 {
    (b & 0xF0u8) | code
}

/// The kind of query named by a 4-bit OPCODE value: unknown values are
/// reserved.
pub open spec fn opcode_of(value: u8) -> OpCode {
    if value == 0 {
        OpCode::QUERY
    } else if value == 1 {
        OpCode::IQUERY
    } else if value == 2 {
        OpCode::STATUS
    } else {
        OpCode::RESERVED
    }
}

/// The result code named by a 4-bit RCODE value, if it has a name.
pub open spec fn rcode_of(value: u8) -> Option<RCode> {
    if value == 0 {
        Some(RCode::NoError)
    } else if value == 1 {
        Some(RCode::FormatError)
    } else if value == 2 {
        Some(RCode::ServerFailure)
    } else if value == 3 {
        Some(RCode::NameError)
    } else if value == 4 {
        Some(RCode::NotImplemented)
    } else if value == 5 {
        Some(RCode::Refused)
    } else {
        None
    }
}

/// Writing a kind of query into the first flag byte and reading it back
/// gives the same kind; the QR, AA, TC and RD bits of that byte stay.
pub proof fn opcode_round_trip(b: u8, op: OpCode)
    ensures
        opcode_of(opcode_bits(with_opcode(b, op.code()))) == op,
        forall|p: u8|
            (p == 0 || p == 5 || p == 6 || p == 7) ==> #[trigger] bit_at(with_opcode(b, op.code()), p)
                == bit_at(b, p),
{
    let c = op.code();
    assert(c < 4);
    assert(opcode_bits(with_opcode(b, c)) == c) by (bit_vector)
        requires
            c < 4,
    ;
    assert forall|p: u8| (p == 0 || p == 5 || p == 6 || p == 7) implies #[trigger] bit_at(with_opcode(b, c), p)
        == bit_at(b, p) by {
        assert(((((b & 0x87u8) | ((c << 3u8) as u8)) & ((0x80u8 >> p) as u8)) != 0) == ((b & ((0x80u8 >> p) as u8)) != 0)) by (bit_vector)
            requires
                c < 4,
                p == 0 || p == 5 || p == 6 || p == 7,
        ;
    }
}

/// Every 4-bit OPCODE value from 3 up reads as `RESERVED`.
pub proof fn opcode_unknown_is_reserved(value: u8)
    requires
        value >= 3,
    ensures
        opcode_of(value) == OpCode::RESERVED,
{
}

/// The RCODE values 0 to 5 read as the result code with that value, and the
/// values 6 to 15 read as no result code at all.
pub proof fn rcode_decode(value: u8)
    requires
        value <= 15,
    ensures
        value <= 5 ==> rcode_of(value) is Some && rcode_of(value)->Some_0.code() == value,
        value >= 6 ==> rcode_of(value) is None,
{
}

/// Writing a result code into the second flag byte and reading it back gives
/// the same code; the RA and Z bits of that byte stay.
pub proof fn rcode_round_trip(b: u8, rc: RCode)
    ensures
        rcode_of(rcode_bits(with_rcode(b, rc.code()))) == Some(rc),
        forall|p: u8| p < 4 ==> #[trigger] bit_at(with_rcode(b, rc.code()), p) == bit_at(b, p),
{
    let c = rc.code();
    assert(c < 6);
    assert(rcode_bits(with_rcode(b, c)) == c) by (bit_vector)
        requires
            c < 6,
    ;
    assert forall|p: u8| p < 4 implies #[trigger] bit_at(with_rcode(b, c), p) == bit_at(b, p) by {
        assert(((((b & 0xF0u8) | c) & ((0x80u8 >> p) as u8)) != 0) == ((b & ((0x80u8 >> p) as u8)) != 0)) by (bit_vector)
            requires
                c < 6,
                p < 4,
        ;
    }
}

impl Header {
    ///
    /// A four bit field that specifies kind of query in this message. It is
    /// set by the originator of a query and copied into the response.
    ///
    pub fn get_op_code(&self) -> (r: OpCode)
        ensures
            r == opcode_of(opcode_bits(self.flags_hi())),
    {
        let raw_nr = (self.frame[FLAGS_POS] & 0b0111_1000) >> 3;
        OpCode::from_u8(raw_nr)
    }

    pub fn set_op_code(&mut self, value: OpCode)
        ensures
            final(self).frame@ == old(self).frame@.update(
                FLAGS_POS as int,
                with_opcode(old(self).flags_hi(), value.code()),
            ),
            opcode_of(opcode_bits(final(self).flags_hi())) == value,
    {
        let bit_mask = value.to_u8() << 3;
        self.frame[FLAGS_POS] = self.frame[FLAGS_POS] & 0b1000_0111;
        self.frame[FLAGS_POS] = self.frame[FLAGS_POS] | bit_mask;
        proof {
            opcode_round_trip(old(self).flags_hi(), value);
        }
    }

    /// The response code; `None` for the values 6 to 15, which have no name.
    pub fn get_rcode(&self) -> (r: Option<RCode>)
        ensures
            r == rcode_of(rcode_bits(self.flags_lo())),
    {
        let raw_nr = self.frame[FLAGS_POS + 1] & 0b0000_1111;
        RCode::from_u8(raw_nr)
    }

    pub fn set_rcode(&mut self, value: RCode)
        ensures
            final(self).frame@ == old(self).frame@.update(
                FLAGS_POS + 1,
                with_rcode(old(self).flags_lo(), value.code()),
            ),
            rcode_of(rcode_bits(final(self).flags_lo())) == Some(value),
    {
        let bit_mask = value.to_u8();
        self.frame[FLAGS_POS + 1] = self.frame[FLAGS_POS + 1] & 0b1111_0000;
        self.frame[FLAGS_POS + 1] = self.frame[FLAGS_POS + 1] | bit_mask;
        proof {
            rcode_round_trip(old(self).flags_lo(), value);
        }
    }
}

///
/// A four bit field that specifies kind of query in this message. It is set
/// by the originator of a query and copied into the response.
///
#[derive(Debug, Clone, Copy, PartialEq, Eq, Structural)]
pub enum OpCode {
    /// a standard query (QUERY)
    QUERY,
    /// an inverse query (IQUERY)
    IQUERY,
    /// a server status request (STATUS)
    STATUS,
    /// reserved for future use
    RESERVED,
}

impl OpCode {
    /// The 4-bit wire value of this kind of query.
    pub open spec fn code(self) -> u8 {
        match self {
            OpCode::QUERY => 0,
            OpCode::IQUERY => 1,
            OpCode::STATUS => 2,
            OpCode::RESERVED => 3,
        }
    }

    /// Maps a wire value to its kind of query; every unknown value is
    /// `RESERVED`.
    pub fn from_u8(value: u8) -> (r: OpCode)
        ensures
            r == opcode_of(value),
            value >= 3 ==> r == OpCode::RESERVED,
    {
        match value {
            0 => OpCode::QUERY,
            1 => OpCode::IQUERY,
            2 => OpCode::STATUS,
            _ => OpCode::RESERVED,
        }
    }

    /// The wire value of this kind of query.
    pub fn to_u8(&self) -> (r: u8)
        ensures
            r == self.code(),
    {
        match self {
            OpCode::QUERY => 0,
            OpCode::IQUERY => 1,
            OpCode::STATUS => 2,
            OpCode::RESERVED => 3,
        }
    }
}

/// The response code of a message.
#[derive(Debug, Clone, Copy, PartialEq, Eq, Structural)]
pub enum RCode {
    /// No error condition
    NoError,
    /// Format error - The name server was unable to interpret the query.
    FormatError,
    /// Server failure - The name server was unable to process this query due
    /// to a problem with the name server.
    ServerFailure,
    /// Name Error - Meaningful only for responses from an authoritative name
    /// server, this code signifies that the domain name referenced in the
    /// query does not exist.
    NameError,
    /// Not Implemented - The name server does not support the requested kind
    /// of query.
    NotImplemented,
    /// Refused - The name server refuses to perform the specified operation
    /// for policy reasons.
    Refused,
}

impl RCode {
    /// The 4-bit wire value of this result code.
    pub open spec fn code(self) -> u8 {
        match self {
            RCode::NoError => 0,
            RCode::FormatError => 1,
            RCode::ServerFailure => 2,
            RCode::NameError => 3,
            RCode::NotImplemented => 4,
            RCode::Refused => 5,
        }
    }

    /// Maps a wire value to its result code; `None` for the values above 5,
    /// which have no name.
    pub fn from_u8(value: u8) -> (r: Option<RCode>)
        ensures
            r == rcode_of(value),
            r is None <==> value > 5,
    {
        match value {
            0 => Some(RCode::NoError),
            1 => Some(RCode::FormatError),
            2 => Some(RCode::ServerFailure),
            3 => Some(RCode::NameError),
            4 => Some(RCode::NotImplemented),
            5 => Some(RCode::Refused),
            _ => None,
        }
    }

    /// The wire value of this result code.
    pub fn to_u8(&self) -> (r: u8)
        ensures
            r == self.code(),
    {
        match self {
            RCode::NoError => 0,
            RCode::FormatError => 1,
            RCode::ServerFailure => 2,
            RCode::NameError => 3,
            RCode::NotImplemented => 4,
            RCode::Refused => 5,
        }
    }
}

} // verus!
