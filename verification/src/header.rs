use vstd::prelude::*;
use vstd::slice::{slice_index_get, slice_subrange};

use crate::errors::DecodeError;

verus! {

/// Whether the message asks a question or answers one: the most significant
/// bit of the flags byte.
#[derive(Clone, Copy, Debug, PartialEq, Eq, Structural)]
pub enum QR {
    Query,
    Response,
}

/// The kind of query, a 4-bit field of the flags byte. Codes above 5 carry
/// no meaning here and decode to `Invalid`.
#[derive(Clone, Copy, Debug, PartialEq, Eq, Structural)]
pub enum Opcode {
    Query,
    IQuery,
    Status,
    Reserved,
    Notify,
    Update,
    Invalid,
}

/// The fixed 12-byte preamble of a DNS message, decoded into typed fields.
///
/// Byte layout: transaction id (2 bytes), a flags byte, a second flags byte
/// that this decoder does not interpret, then four big-endian 16-bit
/// counters.
#[derive(Clone, Copy, Debug, PartialEq, Eq, Structural)]
pub struct Header {
    pub id: u16,
    pub qr: QR,
    pub opcode: Opcode,
    pub aa: bool,
    pub tc: bool,
    pub rd: bool,
    pub qdcount: u16,
    pub ancount: u16,
    pub nscount: u16,
    pub arcount: u16,
}

/// The value of a big-endian 16-bit field with the given high and low bytes.
pub open spec fn be_u16(hi: u8, lo: u8) -> u16 {
    (hi as u16 * 256 + lo as u16) as u16
}

/// Bit 7 of the flags byte: 0 is a query, 1 a response.
pub open spec fn qr_of(flags: u8) -> QR {
    if flags & 0x80 == 0 {
        QR::Query
    } else {
        QR::Response
    }
}

/// Bits 3 to 6 of the flags byte, shifted down to a 4-bit code.
pub open spec fn opcode_code(flags: u8) -> u8 {
    (flags & 0x78) >> 3
}

/// The opcode named by the flags byte. The 4-bit field is shifted down
/// before it is compared, so the wire codes 0 to 5 map to their names and
/// every other code maps to `Invalid`.
pub open spec fn opcode_of(flags: u8) -> Opcode {
    let code = opcode_code(flags);
    if code == 0 {
        Opcode::Query
    } else if code == 1 {
        Opcode::IQuery
    } else if code == 2 {
        Opcode::Status
    } else if code == 3 {
        Opcode::Reserved
    } else if code == 4 {
        Opcode::Notify
    } else if code == 5 {
        Opcode::Update
    } else {
        Opcode::Invalid
    }
}

/// The authoritative-answer flag: bit 2 of the flags byte. A flag holds
/// exactly when its bit is set.
pub open spec fn authoritative_of(flags: u8) -> bool {
    flags & 0x04 != 0
}

/// The truncation flag: bit 1 of the flags byte.
pub open spec fn truncated_of(flags: u8) -> bool {
    flags & 0x02 != 0
}

/// The recursion-desired flag: bit 0 of the flags byte.
pub open spec fn recursion_of(flags: u8) -> bool {
    flags & 0x01 != 0
}

/// The header that the first 12 bytes of `s` describe. Every field is a
/// function of those bytes alone.
pub open spec fn header_of(s: Seq<u8>) -> Header
    recommends
        s.len() >= 12,
{
    Header {
        id: be_u16(s[0], s[1]),
        qr: qr_of(s[2]),
        opcode: opcode_of(s[2]),
        aa: authoritative_of(s[2]),
        tc: truncated_of(s[2]),
        rd: recursion_of(s[2]),
        qdcount: be_u16(s[4], s[5]),
        ancount: be_u16(s[6], s[7]),
        nscount: be_u16(s[8], s[9]),
        arcount: be_u16(s[10], s[11]),
    }
}

/// Reads a big-endian 16-bit integer from the first two bytes of `buf`.
pub fn parse_u16(buf: &[u8]) -> (r: u16)
    requires
        buf@.len() >= 2,
    ensures
        r == be_u16(buf@[0], buf@[1]),
{
    let higher = *slice_index_get(buf, 0) as u16;
    let lower = *slice_index_get(buf, 1) as u16;
    proof {
        assert((higher << 8) | lower == (higher * 256 + lower) as u16) by (bit_vector)
            requires
                higher < 256 && lower < 256,
        ;
    }
    (higher << 8) | lower
}

/// Reads the query/response bit of the flags byte.
pub fn parse_qr(n: u8) -> (r: QR)
    ensures
        r == qr_of(n),
{
    if n & 0b10000000 == 0 {
        QR::Query
    } else {
        QR::Response
    }
}

/// Reads the opcode field of the flags byte.
pub fn parse_opcode(n: u8) -> (r: Opcode)
    ensures
        r == opcode_of(n),
{
    match (n & 0b01111000) >> 3 {
        0 => Opcode::Query,
        1 => Opcode::IQuery,
        2 => Opcode::Status,
        3 => Opcode::Reserved,
        4 => Opcode::Notify,
        5 => Opcode::Update,
        _ => Opcode::Invalid,
    }
}

/// Reads the authoritative-answer flag of the flags byte.
pub fn parse_authoritative(n: u8) -> (r: bool)
    ensures
        r == authoritative_of(n),
{
    n & 0b00000100 != 0
}

/// Reads the truncation flag of the flags byte.
pub fn parse_truncated(n: u8) -> (r: bool)
    ensures
        r == truncated_of(n),
{
    n & 0b00000010 != 0
}

/// Reads the recursion-desired flag of the flags byte.
pub fn parse_recursion(n: u8) -> (r: bool)
    ensures
        r == recursion_of(n),
{
    n & 0b00000001 != 0
}

/// 0 for a query, 1 for a response: the value of the qr bit on the wire.
pub open spec fn qr_bit(qr: QR) -> u8 {
    match qr {
        QR::Query => 0,
        QR::Response => 1,
    }
}

/// The 4-bit wire code of an opcode. `Invalid` stands for every code above
/// 5 and is written back as 6, one such code.
pub open spec fn opcode_to_code(op: Opcode) -> u8 {
    match op {
        Opcode::Query => 0,
        Opcode::IQuery => 1,
        Opcode::Status => 2,
        Opcode::Reserved => 3,
        Opcode::Notify => 4,
        Opcode::Update => 5,
        Opcode::Invalid => 6,
    }
}

/// 1 when a flag is set, else 0.
pub open spec fn flag_bit(b: bool) -> u8 {
    if b {
        1
    } else {
        0
    }
}

/// The flags byte that carries the qr bit, the opcode and the three flags
/// of `h`.
pub open spec fn flags_byte(h: Header) -> u8 {
    (qr_bit(h.qr) * 128 + opcode_to_code(h.opcode) * 8 + flag_bit(h.aa) * 4 + flag_bit(h.tc) * 2
        + flag_bit(h.rd)) as u8
}

/// The two bytes of a big-endian 16-bit field: high byte first.
pub open spec fn be_bytes(v: u16) -> Seq<u8> {
    seq![(v / 256) as u8, (v % 256) as u8]
}

/// The 12-byte encoding of a header: id, the flags byte, a zero byte for
/// the flags byte this decoder does not interpret, then the four counters.
pub open spec fn header_bytes(h: Header) -> Seq<u8> {
    be_bytes(h.id) + seq![flags_byte(h), 0u8] + be_bytes(h.qdcount) + be_bytes(h.ancount)
        + be_bytes(h.nscount) + be_bytes(h.arcount)
}

proof fn lemma_flags_byte_bits(q: u8, c: u8, a: u8, t: u8, r: u8)
    by (bit_vector)
    requires
        q <= 1,
        c <= 15,
        a <= 1,
        t <= 1,
        r <= 1,
    ensures
        ({
            let f = (q * 128 + c * 8 + a * 4 + t * 2 + r) as u8;
            f & 0x80 == q * 128 && (f & 0x78) >> 3 == c && f & 0x04 == a * 4 && f & 0x02 == t * 2
                && f & 0x01 == r
        }),
{
}

proof fn lemma_be_u16_round_trip(v: u16)
    ensures
        be_u16((v / 256) as u8, (v % 256) as u8) == v,
{
    assert(be_u16((v / 256) as u8, (v % 256) as u8) == v) by (bit_vector);
}

/// Big-endian round trip: decoding the 12-byte encoding of any header gives
/// back exactly that header, field for field.
pub proof fn lemma_header_round_trip(h: Header)
    ensures
        header_bytes(h).len() == 12,
        header_of(header_bytes(h)) == h,
{
    let s = header_bytes(h);
    assert(s.len() == 12);
    assert(s[0] == (h.id / 256) as u8 && s[1] == (h.id % 256) as u8);
    assert(s[2] == flags_byte(h) && s[3] == 0u8);
    assert(s[4] == (h.qdcount / 256) as u8 && s[5] == (h.qdcount % 256) as u8);
    assert(s[6] == (h.ancount / 256) as u8 && s[7] == (h.ancount % 256) as u8);
    assert(s[8] == (h.nscount / 256) as u8 && s[9] == (h.nscount % 256) as u8);
    assert(s[10] == (h.arcount / 256) as u8 && s[11] == (h.arcount % 256) as u8);
    lemma_be_u16_round_trip(h.id);
    lemma_be_u16_round_trip(h.qdcount);
    lemma_be_u16_round_trip(h.ancount);
    lemma_be_u16_round_trip(h.nscount);
    lemma_be_u16_round_trip(h.arcount);
    lemma_flags_byte_bits(
        qr_bit(h.qr),
        opcode_to_code(h.opcode),
        flag_bit(h.aa),
        flag_bit(h.tc),
        flag_bit(h.rd),
    );
    assert(qr_of(s[2]) == h.qr);
    assert(opcode_of(s[2]) == h.opcode);
    assert(authoritative_of(s[2]) == h.aa);
    assert(truncated_of(s[2]) == h.tc);
    assert(recursion_of(s[2]) == h.rd);
}

impl Header {
    /// Decodes the header at the start of `buf`. On any buffer of at least
    /// 12 bytes this succeeds and returns exactly `header_of(buf@)`; a
    /// shorter buffer is rejected as truncated, never read out of bounds.
    pub fn parse(buf: &[u8]) -> (r: Result<Header, DecodeError>)
        ensures
            buf@.len() >= 12 ==> r == Ok::<Header, DecodeError>(header_of(buf@)),
            buf@.len() < 12 ==> r == Err::<Header, DecodeError>(DecodeError::TruncatedHeader),
    {
        if buf.len() < 12 {
            return Err(DecodeError::TruncatedHeader);
        }
        let flags = *slice_index_get(buf, 2);
        Ok(Header {
            id: parse_u16(slice_subrange(buf, 0, 2)),
            qr: parse_qr(flags),
            opcode: parse_opcode(flags),
            aa: parse_authoritative(flags),
            tc: parse_truncated(flags),
            rd: parse_recursion(flags),
            qdcount: parse_u16(slice_subrange(buf, 4, 6)),
            ancount: parse_u16(slice_subrange(buf, 6, 8)),
            nscount: parse_u16(slice_subrange(buf, 8, 10)),
            arcount: parse_u16(slice_subrange(buf, 10, 12)),
        })
    }
}

} // verus!
