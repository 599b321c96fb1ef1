//! UBX binary framing: the u-blox packet with its two-byte sync word and
//! its running two-accumulator (8-bit Fletcher) checksum.

use vstd::prelude::*;
use vstd::slice::slice_to_vec;

verus! {

/// A UBX decoding failure.
#[derive(Debug, Clone, PartialEq)]
pub enum Error {
    /// A header that does not parse, carrying the offending raw bytes.
    MalformedHeader(Vec<u8>),
    /// A checksum pair that does not match the packet.
    InvalidChecksum,
}

/// UBX class IDs: each class groups related messages.
#[derive(Debug, Copy, Clone, PartialEq, Eq, Structural)]
pub enum ClassField {
    /// Navigation results: position, speed, time, heading, DOP.
    NAV,
    /// Receiver manager messages: satellite status, RTC status.
    RXM,
    /// Information messages.
    INF,
    /// Ack/Nack replies to CFG input messages.
    ACK,
    /// Configuration input messages.
    CFG,
    /// Monitoring messages.
    MON,
    /// Timing messages.
    AID,
    /// AssistNow aiding messages.
    TIM,
    /// External sensor fusion messages.
    ESF,
}

/// The wire value of each class.
pub open spec fn class_code(c: ClassField) -> u8 {
    match c {
        ClassField::NAV => 0x01,
        ClassField::RXM => 0x02,
        ClassField::INF => 0x04,
        ClassField::ACK => 0x05,
        ClassField::CFG => 0x06,
        ClassField::MON => 0x0A,
        ClassField::AID => 0x0B,
        ClassField::TIM => 0x0D,
        ClassField::ESF => 0x10,
    }
}

/// The class a wire value names, if any.
pub open spec fn class_of(v: u8) -> Option<ClassField> {
    if v == 0x01 {
        Some(ClassField::NAV)
    } else if v == 0x02 {
        Some(ClassField::RXM)
    } else if v == 0x04 {
        Some(ClassField::INF)
    } else if v == 0x05 {
        Some(ClassField::ACK)
    } else if v == 0x06 {
        Some(ClassField::CFG)
    } else if v == 0x0A {
        Some(ClassField::MON)
    } else if v == 0x0B {
        Some(ClassField::AID)
    } else if v == 0x0D {
        Some(ClassField::TIM)
    } else if v == 0x10 {
        Some(ClassField::ESF)
    } else {
        None
    }
}

impl ClassField {
    /// The wire value of this class.
    pub fn value(self) -> (r: u8)
        ensures
            r == class_code(self),
    {
        match self {
            ClassField::NAV => 0x01,
            ClassField::RXM => 0x02,
            ClassField::INF => 0x04,
            ClassField::ACK => 0x05,
            ClassField::CFG => 0x06,
            ClassField::MON => 0x0A,
            ClassField::AID => 0x0B,
            ClassField::TIM => 0x0D,
            ClassField::ESF => 0x10,
        }
    }

    /// The class a wire value names; an unknown value is a decode error
    /// carrying that byte.
    pub fn try_from(value: u8) -> (r: Result<ClassField, Error>)
        ensures
            match r {
                Ok(c) => class_of(value) == Some(c),
                Err(e) => class_of(value) is None && (e matches Error::MalformedHeader(raw)
                    && raw@ == seq![value]),
            },
    {
        let r = if value == 0x01 {
            Ok(ClassField::NAV)
        } else if value == 0x02 {
            Ok(ClassField::RXM)
        } else if value == 0x04 {
            Ok(ClassField::INF)
        } else if value == 0x05 {
            Ok(ClassField::ACK)
        } else if value == 0x06 {
            Ok(ClassField::CFG)
        } else if value == 0x0A {
            Ok(ClassField::MON)
        } else if value == 0x0B {
            Ok(ClassField::AID)
        } else if value == 0x0D {
            Ok(ClassField::TIM)
        } else if value == 0x10 {
            Ok(ClassField::ESF)
        } else {
            let mut raw: Vec<u8> = Vec::new();
            raw.push(value);
            proof {
                assert(raw@ =~= seq![value]);
            }
            Err(Error::MalformedHeader(raw))
        };
        r
    }
}

/// The running two-accumulator checksum of a byte string: each byte is
/// added to the first accumulator, which is then added to the second, both
/// wrapping at eight bits.
pub open spec fn fletcher_pair(b: Seq<u8>) -> (u8, u8)
    decreases b.len(),
{
    if b.len() == 0 {
        (0u8, 0u8)
    } else {
        let p = fletcher_pair(b.drop_last());
        let a = ((p.0 + b.last()) % 256) as u8;
        let ck_b = ((p.1 + a) % 256) as u8;
        (a, ck_b)
    }
}

/// A UBX packet: sync word, class, message ID, payload and checksum pair.
/// The length byte on the wire is the payload length, so a packet carries
/// at most 255 payload bytes.
#[derive(Debug, Clone, PartialEq)]
pub struct PacketHeader {
    /// The sync word; `0xB5 0x62` on the wire.
    pub header: [u8; 2],
    /// The class of the message.
    pub class: ClassField,
    /// The message ID within its class.
    pub id: u8,
    /// The payload, whose length the wire's length byte declares.
    pub payload: Vec<u8>,
    /// First checksum byte.
    pub ck_a: u8,
    /// Second checksum byte.
    pub ck_b: u8,
}

/// Does a byte string parse as a UBX packet: the sync word, a known class,
/// and enough bytes for the declared payload and the checksum pair?
/// Trailing bytes beyond the packet are ignored.
pub open spec fn ubx_parse_ok(b: Seq<u8>) -> bool {
    &&& b.len() >= 5
    &&& b[0] == 0xB5
    &&& b[1] == 0x62
    &&& class_of(b[2]) is Some
    &&& b.len() >= 7 + b[4]
}

/// Does a packet match the byte string it was parsed from?
pub open spec fn ubx_parse_matches(b: Seq<u8>, p: PacketHeader) -> bool {
    &&& p.header@ == seq![0xB5u8, 0x62u8]
    &&& class_of(b[2]) == Some(p.class)
    &&& p.id == b[3]
    &&& p.payload@ == b.subrange(5, 5 + b[4])
    &&& p.ck_a == b[5 + b[4]]
    &&& p.ck_b == b[6 + b[4]]
}

/// The serialized bytes of a packet: sync word, class, ID, payload length,
/// payload, and, when asked for, the checksum pair.
pub open spec fn spec_packet_data(p: PacketHeader, include_checksum: bool) -> Seq<u8> {
    let head = seq![
        p.header@[0],
        p.header@[1],
        class_code(p.class),
        p.id,
        p.payload@.len() as u8,
    ] + p.payload@;
    if include_checksum {
        head + seq![p.ck_a, p.ck_b]
    } else {
        head
    }
}

/// The checksum a packet must carry: the running checksum of its
/// serialized bytes from the class byte to the end of the payload.
pub open spec fn spec_packet_checksum(p: PacketHeader) -> (u8, u8) {
    fletcher_pair(spec_packet_data(p, false).skip(2))
}

impl PacketHeader {
    /// Builds a packet around a payload, computing the checksum pair when
    /// asked to and leaving it zero otherwise.
    pub fn new(class: ClassField, id: u8, payload: Vec<u8>, compute_checksum: bool) -> (r:
        PacketHeader)
        requires
            payload@.len() <= 255,
        ensures
            r.header@ == seq![0xB5u8, 0x62u8],
            r.class == class,
            r.id == id,
            r.payload@ == payload@,
            compute_checksum ==> (r.ck_a, r.ck_b) == spec_packet_checksum(r),
            !compute_checksum ==> r.ck_a == 0 && r.ck_b == 0,
    {
        let header: [u8; 2] = [0xB5, 0x62];
        proof {
            assert(header@ =~= seq![0xB5u8, 0x62u8]);
        }
        let mut packet = PacketHeader { header, class, id, payload, ck_a: 0, ck_b: 0 };
        if compute_checksum {
            let (a, b) = packet.checksum();
            packet.ck_a = a;
            packet.ck_b = b;
            proof {
                assert(spec_packet_data(packet, false) =~= spec_packet_data(
                    PacketHeader { ck_a: 0, ck_b: 0, ..packet },
                    false,
                ));
            }
        }
        packet
    }

    /// Parses a packet from raw bytes: the fixed sync word, class, ID, a
    /// one-byte payload length, the payload and the stored checksum pair.
    /// The checksum is not verified here; see [Self::verify_checksum].
    pub fn from_bytes(input: &[u8]) -> (r: Result<PacketHeader, Error>)
        ensures
            match r {
                Ok(p) => ubx_parse_ok(input@) && ubx_parse_matches(input@, p),
                Err(e) => !ubx_parse_ok(input@) && (e matches Error::MalformedHeader(raw) && raw@
                    == input@),
            },
    {
        if input.len() < 5 {
            return Err(Error::MalformedHeader(slice_to_vec(input)));
        }
        if input[0] != 0xB5 || input[1] != 0x62 {
            return Err(Error::MalformedHeader(slice_to_vec(input)));
        }
        let class = match ClassField::try_from(input[2]) {
            Ok(c) => c,
            Err(_) => {
                return Err(Error::MalformedHeader(slice_to_vec(input)));
            },
        };
        let id = input[3];
        let length = input[4] as usize;
        if input.len() < 7 + length {
            return Err(Error::MalformedHeader(slice_to_vec(input)));
        }
        let payload = slice_to_vec(&input[5..5 + length]);
        let ck_a = input[5 + length];
        let ck_b = input[6 + length];
        let header: [u8; 2] = [0xB5, 0x62];
        proof {
            assert(header@ =~= seq![0xB5u8, 0x62u8]);
        }
        Ok(PacketHeader { header, class, id, payload, ck_a, ck_b })
    }

    /// Serializes the packet, with or without its checksum pair.
    pub fn data(&self, include_checksum: bool) -> (r: Vec<u8>)
        requires
            self.payload@.len() <= 255,
        ensures
            r@ == spec_packet_data(*self, include_checksum),
    {
        let mut bytes: Vec<u8> = Vec::new();
        bytes.push(self.header[0]);
        bytes.push(self.header[1]);
        bytes.push(self.class.value());
        bytes.push(self.id);
        bytes.push(self.payload.len() as u8);
        let mut i: usize = 0;
        while i < self.payload.len()
            invariant
                0 <= i <= self.payload@.len(),
                bytes@ =~= seq![
                    self.header@[0],
                    self.header@[1],
                    class_code(self.class),
                    self.id,
                    self.payload@.len() as u8,
                ] + self.payload@.take(i as int),
            decreases self.payload@.len() - i,
        {
            bytes.push(self.payload[i]);
            proof {
                assert(self.payload@.take(i + 1) =~= self.payload@.take(i as int).push(
                    self.payload@[i as int],
                ));
            }
            i = i + 1;
        }
        proof {
            assert(self.payload@.take(self.payload@.len() as int) =~= self.payload@);
        }
        if include_checksum {
            bytes.push(self.ck_a);
            bytes.push(self.ck_b);
            proof {
                assert(bytes@ =~= spec_packet_data(*self, true));
            }
        } else {
            proof {
                assert(bytes@ =~= spec_packet_data(*self, false));
            }
        }
        bytes
    }

    /// Computes the packet's checksum pair from the class byte to the end
    /// of the payload.
    pub fn checksum(&self) -> (r: (u8, u8))
        requires
            self.payload@.len() <= 255,
        ensures
            r == spec_packet_checksum(*self),
    {
        let bytes = self.data(false);
        let mut ck_a: u8 = 0;
        let mut ck_b: u8 = 0;
        let mut i: usize = 2;
        let ghost body = spec_packet_data(*self, false).skip(2);
        proof {
            assert(body.take(0) =~= Seq::<u8>::empty());
        }
        while i < bytes.len()
            invariant
                2 <= i <= bytes@.len(),
                bytes@ == spec_packet_data(*self, false),
                body == spec_packet_data(*self, false).skip(2),
                (ck_a, ck_b) == fletcher_pair(body.take(i - 2)),
            decreases bytes@.len() - i,
        {
            proof {
                assert(body.take(i - 1).drop_last() =~= body.take(i - 2));
                assert(body.take(i - 1).last() == bytes@[i as int]);
            }
            ck_a = add_wrap(ck_a, bytes[i]);
            ck_b = add_wrap(ck_b, ck_a);
            i = i + 1;
        }
        proof {
            assert(body.take(bytes@.len() - 2) =~= body);
        }
        (ck_a, ck_b)
    }

    /// Accepts the packet only when the stored checksum pair equals the
    /// computed one.
    pub fn verify_checksum(&self) -> (r: Result<(), Error>)
        requires
            self.payload@.len() <= 255,
        ensures
            match r {
                Ok(_) => (self.ck_a, self.ck_b) == spec_packet_checksum(*self),
                Err(e) => (self.ck_a, self.ck_b) != spec_packet_checksum(*self) && e matches
                    Error::InvalidChecksum,
            },
    {
        let checksum = self.checksum();
        if checksum.0 != self.ck_a || checksum.1 != self.ck_b {
            return Err(Error::InvalidChecksum);
        }
        Ok(())
    }
}

/// A byte sum that wraps at eight bits.
fn add_wrap(a: u8, b: u8) -> (r: u8)
    ensures
        r as int == (a + b) % 256,
{
    let s: u16 = a as u16 + b as u16;
    (s % 256) as u8
}

} // verus!
