//! The primary header of a CCSDS space packet.
//!
//! The header is six bytes on the wire, read as three 16-bit words. Bit 0 is
//! the most significant bit of a word.
//!
//! ```text
//! control word    bits 0-2    version
//!                 bit 3       packet type
//!                 bit 4       secondary header flag
//!                 bits 5-15   APID
//! sequence word   bits 0-1    sequence flag
//!                 bits 2-15   sequence count
//! length word     bits 0-15   length field
//! ```
//!
//! A packet is the header, then `length field + 1` bytes of data.

use crate::byte_order::{
    bytes_of_word, lemma_bytes_round_trip, lemma_word_round_trip, read_word, word_of_bytes,
    write_word, Endianness,
};
use vstd::prelude::*;

verus! {

/// The CCSDS version (always 0 currently).
pub const CCSDS_VERSION: u8 = 0;

/// The CCSDS primary header size in bytes.
pub const CCSDS_PRI_HEADER_SIZE_BYTES: u32 = 6;

/// The minimum size of a CCSDS packet's data section.
pub const CCSDS_MIN_DATA_LENGTH_BYTES: u32 = 1;

/// The minimum length of a CCSDS packet: the primary header and one byte of
/// data.
pub const CCSDS_MIN_LENGTH: u32 = CCSDS_PRI_HEADER_SIZE_BYTES + CCSDS_MIN_DATA_LENGTH_BYTES;

/// The maximum length of a CCSDS packet: a length field of 0xFFFF, the
/// primary header and one byte.
pub const CCSDS_MAX_LENGTH: u32 = CCSDS_PRI_HEADER_SIZE_BYTES + CCSDS_MIN_DATA_LENGTH_BYTES
    + 0xFFFF;

/// The packet type says whether the packet is a command (Command) or a
/// telemetry (Data) packet.
#[derive(Debug, PartialEq, Eq, Copy, Clone, Structural)]
pub enum PacketType {
    /// The packet contains telemetry data.
    Data,
    /// The packet contains a command.
    Command,
    /// The packet type is unknown. No header decodes to this; it is what an
    /// integer other than 0 and 1 converts to.
    Unknown,
}

impl PacketType {
    /// The bit that stands for this packet type in a control word: 1 for a
    /// command, 0 otherwise.
    pub open spec fn bit(self) -> u16 {
        if self == PacketType::Command {
            1
        } else {
            0
        }
    }
}

impl Default for PacketType {
    fn default() -> (packet_type: PacketType)
        ensures
            packet_type == PacketType::Data,
    {
        PacketType::Data
    }
}

impl From<u8> for PacketType {
    fn from(byte: u8) -> (packet_type: PacketType) {
        match byte {
            0 => PacketType::Data,
            1 => PacketType::Command,
            _ => PacketType::Unknown,
        }
    }
}

impl vstd::std_specs::convert::FromSpecImpl<u8> for PacketType {
    open spec fn obeys_from_spec() -> bool {
        true
    }

    open spec fn from_spec(byte: u8) -> PacketType {
        if byte == 0 {
            PacketType::Data
        } else if byte == 1 {
            PacketType::Command
        } else {
            PacketType::Unknown
        }
    }
}

impl From<PacketType> for u8 {
    fn from(packet_type: PacketType) -> (byte: u8) {
        match packet_type {
            PacketType::Data => 0,
            PacketType::Command => 1,
            PacketType::Unknown => 0,
        }
    }
}

impl vstd::std_specs::convert::FromSpecImpl<PacketType> for u8 {
    open spec fn obeys_from_spec() -> bool {
        true
    }

    open spec fn from_spec(packet_type: PacketType) -> u8 {
        packet_type.bit() as u8
    }
}

/// The secondary header flag says whether another header follows the primary
/// header (Present) or not (NotPresent).
#[derive(Debug, PartialEq, Eq, Copy, Clone, Structural)]
pub enum SecondaryHeaderFlag {
    /// No secondary header: the data section follows the primary header.
    NotPresent,
    /// A secondary header follows the primary header.
    Present,
    /// The flag is not valid. No header decodes to this; it is what an
    /// integer other than 0 and 1 converts to.
    Unknown,
}

impl SecondaryHeaderFlag {
    /// The bit that stands for this flag in a control word: 1 for a present
    /// secondary header, 0 otherwise.
    pub open spec fn bit(self) -> u16 {
        if self == SecondaryHeaderFlag::Present {
            1
        } else {
            0
        }
    }
}

impl Default for SecondaryHeaderFlag {
    fn default() -> (flag: SecondaryHeaderFlag)
        ensures
            flag == SecondaryHeaderFlag::NotPresent,
    {
        SecondaryHeaderFlag::NotPresent
    }
}

impl From<u8> for SecondaryHeaderFlag {
    fn from(byte: u8) -> (flag: SecondaryHeaderFlag) {
        match byte {
            0 => SecondaryHeaderFlag::NotPresent,
            1 => SecondaryHeaderFlag::Present,
            _ => SecondaryHeaderFlag::Unknown,
        }
    }
}

impl vstd::std_specs::convert::FromSpecImpl<u8> for SecondaryHeaderFlag {
    open spec fn obeys_from_spec() -> bool {
        true
    }

    open spec fn from_spec(byte: u8) -> SecondaryHeaderFlag {
        if byte == 0 {
            SecondaryHeaderFlag::NotPresent
        } else if byte == 1 {
            SecondaryHeaderFlag::Present
        } else {
            SecondaryHeaderFlag::Unknown
        }
    }
}

impl From<SecondaryHeaderFlag> for u8 {
    fn from(flag: SecondaryHeaderFlag) -> (byte: u8) {
        match flag {
            SecondaryHeaderFlag::NotPresent => 0,
            SecondaryHeaderFlag::Present => 1,
            SecondaryHeaderFlag::Unknown => 0,
        }
    }
}

impl vstd::std_specs::convert::FromSpecImpl<SecondaryHeaderFlag> for u8 {
    open spec fn obeys_from_spec() -> bool {
        true
    }

    open spec fn from_spec(flag: SecondaryHeaderFlag) -> u8 {
        flag.bit() as u8
    }
}

/// The sequence flag says how to read the sequence count.
#[derive(Debug, PartialEq, Eq, Copy, Clone, Structural)]
pub enum SeqFlag {
    /// The packet continues a series of segmented packets.
    Continuation,
    /// The packet is the first of a series of segmented packets.
    FirstSegment,
    /// The packet is the last of a series of segmented packets.
    LastSegment,
    /// The packet stands alone. Most packets are unsegmented.
    Unsegmented,
    /// The sequence flag is unknown. No header decodes to this; it is what
    /// an integer above 3 converts to.
    Unknown,
}

impl SeqFlag {
    /// The two bits that stand for this flag in a sequence word.
    pub open spec fn bits(self) -> u16 {
        match self {
            SeqFlag::Continuation => 0,
            SeqFlag::FirstSegment => 1,
            SeqFlag::LastSegment => 2,
            SeqFlag::Unsegmented => 3,
            SeqFlag::Unknown => 0,
        }
    }
}

impl Default for SeqFlag {
    fn default() -> (flag: SeqFlag)
        ensures
            flag == SeqFlag::Unsegmented,
    {
        SeqFlag::Unsegmented
    }
}

impl From<u8> for SeqFlag {
    fn from(byte: u8) -> (flag: SeqFlag) {
        match byte {
            0 => SeqFlag::Continuation,
            1 => SeqFlag::FirstSegment,
            2 => SeqFlag::LastSegment,
            3 => SeqFlag::Unsegmented,
            _ => SeqFlag::Unknown,
        }
    }
}

impl vstd::std_specs::convert::FromSpecImpl<u8> for SeqFlag {
    open spec fn obeys_from_spec() -> bool {
        true
    }

    open spec fn from_spec(byte: u8) -> SeqFlag {
        if byte == 0 {
            SeqFlag::Continuation
        } else if byte == 1 {
            SeqFlag::FirstSegment
        } else if byte == 2 {
            SeqFlag::LastSegment
        } else if byte == 3 {
            SeqFlag::Unsegmented
        } else {
            SeqFlag::Unknown
        }
    }
}

impl From<SeqFlag> for u16 {
    fn from(flag: SeqFlag) -> (bits: u16) {
        match flag {
            SeqFlag::Continuation => 0,
            SeqFlag::FirstSegment => 1,
            SeqFlag::LastSegment => 2,
            SeqFlag::Unsegmented => 3,
            SeqFlag::Unknown => 0,
        }
    }
}

impl vstd::std_specs::convert::FromSpecImpl<SeqFlag> for u16 {
    open spec fn obeys_from_spec() -> bool {
        true
    }

    open spec fn from_spec(flag: SeqFlag) -> u16 {
        flag.bits()
    }
}

/// The control word is the first word of the primary header. It holds the
/// version, the packet type, the secondary header flag and the APID.
#[derive(Debug, Copy, Clone, PartialEq, Eq, Structural)]
pub struct ControlWord(pub u16);

impl Default for ControlWord {
    fn default() -> (word: ControlWord)
        ensures
            word == ControlWord(0),
    {
        ControlWord(0)
    }
}

impl ControlWord {
    /// The version: the three most significant bits.
    pub open spec fn spec_version(&self) -> u16 {
        self.0 / 0x2000
    }

    /// The packet type bit: 1 for a command.
    pub open spec fn packet_type_bit(&self) -> u16 {
        (self.0 / 0x1000) % 2
    }

    /// The packet type.
    pub open spec fn spec_packet_type(&self) -> PacketType {
        if self.packet_type_bit() == 1 {
            PacketType::Command
        } else {
            PacketType::Data
        }
    }

    /// The secondary header bit: 1 if a secondary header is present.
    pub open spec fn secondary_header_bit(&self) -> u16 {
        (self.0 / 0x0800) % 2
    }

    /// The secondary header flag.
    pub open spec fn spec_secondary_header_flag(&self) -> SecondaryHeaderFlag {
        if self.secondary_header_bit() == 1 {
            SecondaryHeaderFlag::Present
        } else {
            SecondaryHeaderFlag::NotPresent
        }
    }

    /// The APID: the eleven least significant bits.
    pub open spec fn spec_apid(&self) -> u16 {
        self.0 % 0x0800
    }

    /// The control word with the given fields.
    pub open spec fn compose(
        version: u16,
        packet_type_bit: u16,
        secondary_header_bit: u16,
        apid: u16,
    ) -> int {
        version * 0x2000 + packet_type_bit * 0x1000 + secondary_header_bit * 0x0800 + apid
    }

    /// A control word is made of its four fields and nothing else.
    pub proof fn lemma_fields(&self)
        ensures
            self.0 == Self::compose(
                self.spec_version(),
                self.packet_type_bit(),
                self.secondary_header_bit(),
                self.spec_apid(),
            ),
            self.spec_version() <= 7,
            self.packet_type_bit() <= 1,
            self.secondary_header_bit() <= 1,
            self.spec_apid() <= 0x07FF,
    {
        let word: u16 = self.0;
        assert(word == (word / 0x2000) * 0x2000 + ((word / 0x1000) % 2) * 0x1000 + ((word
            / 0x0800) % 2) * 0x0800 + word % 0x0800) by (bit_vector);
    }

    /// The CCSDS version of the packet, 0 to 7.
    #[verifier::when_used_as_spec(spec_version)]
    pub fn version(&self) -> (version: u16)
        ensures
            version == self.spec_version(),
            version <= 7,
    {
        let word: u16 = self.0;
        assert((word & 0xE000) >> 13 == word / 0x2000) by (bit_vector);
        (word & 0xE000) >> 13
    }

    /// Sets the version to the three low bits of `version`. The other
    /// fields keep their values.
    pub fn set_version(&mut self, version: u16)
        ensures
            final(self).0 == Self::compose(
                version % 8,
                old(self).packet_type_bit(),
                old(self).secondary_header_bit(),
                old(self).spec_apid(),
            ),
            final(self).spec_version() == version % 8,
            final(self).spec_packet_type() == old(self).spec_packet_type(),
            final(self).spec_secondary_header_flag() == old(self).spec_secondary_header_flag(),
            final(self).spec_apid() == old(self).spec_apid(),
    {
        let word: u16 = self.0;
        let set: u16 = (word & 0x1FFF) | (version << 13);
        assert(set == (version % 8) * 0x2000 + ((word / 0x1000) % 2) * 0x1000 + ((word / 0x0800)
            % 2) * 0x0800 + word % 0x0800 && set / 0x2000 == version % 8 && (set / 0x1000) % 2 == (
        word / 0x1000) % 2 && (set / 0x0800) % 2 == (word / 0x0800) % 2 && set % 0x0800 == word
            % 0x0800) by (bit_vector)
            requires
                set == (word & 0x1FFF) | (version << 13),
        ;
        self.0 = set;
    }

    /// The packet type: telemetry or command.
    #[verifier::when_used_as_spec(spec_packet_type)]
    pub fn packet_type(&self) -> (packet_type: PacketType)
        ensures
            packet_type == self.spec_packet_type(),
            packet_type != PacketType::Unknown,
    {
        let word: u16 = self.0;
        assert((word & 0x1000) >> 12 == (word / 0x1000) % 2) by (bit_vector);
        PacketType::from(((word & 0x1000) >> 12) as u8)
    }

    /// Sets the packet type bit: to 1 for `Command`, to 0 for `Data` and
    /// for `Unknown`. The other fields keep their values.
    pub fn set_packet_type(&mut self, packet_type: PacketType)
        ensures
            final(self).0 == Self::compose(
                old(self).spec_version(),
                packet_type.bit(),
                old(self).secondary_header_bit(),
                old(self).spec_apid(),
            ),
            final(self).spec_version() == old(self).spec_version(),
            final(self).packet_type_bit() == packet_type.bit(),
            packet_type != PacketType::Unknown ==> final(self).spec_packet_type() == packet_type,
            final(self).spec_secondary_header_flag() == old(self).spec_secondary_header_flag(),
            final(self).spec_apid() == old(self).spec_apid(),
    {
        let word: u16 = self.0;
        let bit: u16 = u8::from(packet_type) as u16;
        let set: u16 = (word & 0xEFFF) | (bit << 12);
        assert(set == (word / 0x2000) * 0x2000 + bit * 0x1000 + ((word / 0x0800) % 2) * 0x0800
            + word % 0x0800 && set / 0x2000 == word / 0x2000 && (set / 0x1000) % 2 == bit && (set
            / 0x0800) % 2 == (word / 0x0800) % 2 && set % 0x0800 == word % 0x0800) by (bit_vector)
            requires
                set == (word & 0xEFFF) | (bit << 12),
                bit <= 1,
        ;
        self.0 = set;
    }

    /// The secondary header flag.
    #[verifier::when_used_as_spec(spec_secondary_header_flag)]
    pub fn secondary_header_flag(&self) -> (flag: SecondaryHeaderFlag)
        ensures
            flag == self.spec_secondary_header_flag(),
            flag != SecondaryHeaderFlag::Unknown,
    {
        let word: u16 = self.0;
        assert((word & 0x0800) >> 11 == (word / 0x0800) % 2) by (bit_vector);
        SecondaryHeaderFlag::from(((word & 0x0800) >> 11) as u8)
    }

    /// Sets the secondary header bit: to 1 for `Present`, to 0 for
    /// `NotPresent` and for `Unknown`. The other fields keep their values.
    pub fn set_secondary_header_flag(&mut self, sec_header_flag: SecondaryHeaderFlag)
        ensures
            final(self).0 == Self::compose(
                old(self).spec_version(),
                old(self).packet_type_bit(),
                sec_header_flag.bit(),
                old(self).spec_apid(),
            ),
            final(self).spec_version() == old(self).spec_version(),
            final(self).spec_packet_type() == old(self).spec_packet_type(),
            final(self).secondary_header_bit() == sec_header_flag.bit(),
            sec_header_flag != SecondaryHeaderFlag::Unknown
                ==> final(self).spec_secondary_header_flag() == sec_header_flag,
            final(self).spec_apid() == old(self).spec_apid(),
    {
        let word: u16 = self.0;
        let bit: u16 = u8::from(sec_header_flag) as u16;
        let set: u16 = (word & 0xF7FF) | (bit << 11);
        assert(set == (word / 0x2000) * 0x2000 + ((word / 0x1000) % 2) * 0x1000 + bit * 0x0800
            + word % 0x0800 && set / 0x2000 == word / 0x2000 && (set / 0x1000) % 2 == (word
            / 0x1000) % 2 && (set / 0x0800) % 2 == bit && set % 0x0800 == word % 0x0800)
            by (bit_vector)
            requires
                set == (word & 0xF7FF) | (bit << 11),
                bit <= 1,
        ;
        self.0 = set;
    }

    /// The APID, 0 to 2047.
    #[verifier::when_used_as_spec(spec_apid)]
    pub fn apid(&self) -> (apid: u16)
        ensures
            apid == self.spec_apid(),
            apid <= 0x07FF,
    {
        let word: u16 = self.0;
        assert(word & 0x07FF == word % 0x0800) by (bit_vector);
        word & 0x07FF
    }

    /// Sets the APID to the eleven low bits of `apid`. The other fields keep
    /// their values.
    pub fn set_apid(&mut self, apid: u16)
        ensures
            final(self).0 == Self::compose(
                old(self).spec_version(),
                old(self).packet_type_bit(),
                old(self).secondary_header_bit(),
                apid % 0x0800,
            ),
            final(self).spec_version() == old(self).spec_version(),
            final(self).spec_packet_type() == old(self).spec_packet_type(),
            final(self).spec_secondary_header_flag() == old(self).spec_secondary_header_flag(),
            final(self).spec_apid() == apid % 0x0800,
    {
        let word: u16 = self.0;
        let set: u16 = (word & 0xF800) | (apid & 0x07FF);
        assert(set == (word / 0x2000) * 0x2000 + ((word / 0x1000) % 2) * 0x1000 + ((word / 0x0800)
            % 2) * 0x0800 + apid % 0x0800 && set / 0x2000 == word / 0x2000 && (set / 0x1000) % 2
            == (word / 0x1000) % 2 && (set / 0x0800) % 2 == (word / 0x0800) % 2 && set % 0x0800
            == apid % 0x0800) by (bit_vector)
            requires
                set == (word & 0xF800) | (apid & 0x07FF),
        ;
        self.0 = set;
    }
}

/// The sequence word is the second word of the primary header. It holds a
/// sequence count and the flag that says how to read it.
#[derive(Debug, Copy, Clone, PartialEq, Eq, Structural)]
pub struct SequenceWord(pub u16);

impl Default for SequenceWord {
    fn default() -> (word: SequenceWord)
        ensures
            word == SequenceWord(0),
    {
        SequenceWord(0)
    }
}

impl SequenceWord {
    /// The sequence flag bits: the two most significant bits.
    pub open spec fn sequence_type_bits(&self) -> u16 {
        self.0 / 0x4000
    }

    /// The sequence flag.
    pub open spec fn spec_sequence_type(&self) -> SeqFlag {
        let bits = self.sequence_type_bits();
        if bits == 0 {
            SeqFlag::Continuation
        } else if bits == 1 {
            SeqFlag::FirstSegment
        } else if bits == 2 {
            SeqFlag::LastSegment
        } else {
            SeqFlag::Unsegmented
        }
    }

    /// The sequence count: the fourteen least significant bits.
    pub open spec fn spec_sequence_count(&self) -> u16 {
        self.0 % 0x4000
    }

    /// The sequence word with the given fields.
    pub open spec fn compose(sequence_type_bits: u16, sequence_count: u16) -> int {
        sequence_type_bits * 0x4000 + sequence_count
    }

    /// A sequence word is made of its two fields and nothing else.
    pub proof fn lemma_fields(&self)
        ensures
            self.0 == Self::compose(self.sequence_type_bits(), self.spec_sequence_count()),
            self.sequence_type_bits() <= 3,
            self.spec_sequence_type().bits() == self.sequence_type_bits(),
            self.spec_sequence_count() <= 0x3FFF,
    {
    }

    /// The sequence flag.
    #[verifier::when_used_as_spec(spec_sequence_type)]
    pub fn sequence_type(&self) -> (flag: SeqFlag)
        ensures
            flag == self.spec_sequence_type(),
            flag != SeqFlag::Unknown,
    {
        let word: u16 = self.0;
        assert(word >> 14 == word / 0x4000) by (bit_vector);
        SeqFlag::from((word >> 14) as u8)
    }

    /// Sets the sequence flag (`Unknown` is written as 0, like
    /// `Continuation`). The sequence count keeps its value.
    pub fn set_sequence_type(&mut self, seq_flag: SeqFlag)
        ensures
            final(self).0 == Self::compose(seq_flag.bits(), old(self).spec_sequence_count()),
            final(self).sequence_type_bits() == seq_flag.bits(),
            seq_flag != SeqFlag::Unknown ==> final(self).spec_sequence_type() == seq_flag,
            final(self).spec_sequence_count() == old(self).spec_sequence_count(),
    {
        let word: u16 = self.0;
        let bits: u16 = u16::from(seq_flag);
        let set: u16 = (word & 0x3FFF) | (bits << 14);
        assert(set == bits * 0x4000 + word % 0x4000 && set / 0x4000 == bits && set % 0x4000 == word
            % 0x4000) by (bit_vector)
            requires
                set == (word & 0x3FFF) | (bits << 14),
                bits <= 3,
        ;
        self.0 = set;
    }

    /// The sequence count, 0 to 16383.
    #[verifier::when_used_as_spec(spec_sequence_count)]
    pub fn sequence_count(&self) -> (count: u16)
        ensures
            count == self.spec_sequence_count(),
            count <= 0x3FFF,
    {
        let word: u16 = self.0;
        assert(word & 0x3FFF == word % 0x4000) by (bit_vector);
        word & 0x3FFF
    }

    /// Sets the sequence count to the fourteen low bits of `seq_count`. The
    /// sequence flag keeps its value.
    pub fn set_sequence_count(&mut self, seq_count: u16)
        ensures
            final(self).0 == Self::compose(old(self).sequence_type_bits(), seq_count % 0x4000),
            final(self).spec_sequence_type() == old(self).spec_sequence_type(),
            final(self).spec_sequence_count() == seq_count % 0x4000,
    {
        let word: u16 = self.0;
        let set: u16 = (word & 0xC000) | (seq_count & 0x3FFF);
        assert(set == (word / 0x4000) * 0x4000 + seq_count % 0x4000 && set / 0x4000 == word
            / 0x4000 && set % 0x4000 == seq_count % 0x4000) by (bit_vector)
            requires
                set == (word & 0xC000) | (seq_count & 0x3FFF),
        ;
        self.0 = set;
    }
}

/// The length word is the third word of the primary header. It holds the
/// length field: the number of bytes in the data section, less one.
#[derive(Debug, Copy, Clone, PartialEq, Eq, Structural)]
pub struct LengthWord(pub u16);

impl Default for LengthWord {
    fn default() -> (word: LengthWord)
        ensures
            word == LengthWord(0),
    {
        LengthWord(0)
    }
}

impl LengthWord {
    /// The length field.
    pub open spec fn spec_length_field(&self) -> u16 {
        self.0
    }

    /// The length field.
    #[verifier::when_used_as_spec(spec_length_field)]
    pub fn length_field(&self) -> (length: u16)
        ensures
            length == self.spec_length_field(),
    {
        self.0
    }

    /// Sets the length field.
    pub fn set_length_field(&mut self, length: u16)
        ensures
            final(self).spec_length_field() == length,
    {
        self.0 = length;
    }
}

/// A CCSDS primary header: the control word, the sequence word and the
/// length word, each held as the number it denotes. The byte order of the
/// wire matters only when a header is decoded from bytes or encoded to them.
#[derive(Debug, Clone, Copy, PartialEq, Eq, Structural)]
pub struct PrimaryHeader {
    pub control: ControlWord,
    pub sequence: SequenceWord,
    pub length: LengthWord,
}

impl Default for PrimaryHeader {
    fn default() -> (header: PrimaryHeader)
        ensures
            header == (PrimaryHeader {
                control: ControlWord(0),
                sequence: SequenceWord(0),
                length: LengthWord(0),
            }),
    {
        PrimaryHeader { control: ControlWord(0), sequence: SequenceWord(0), length: LengthWord(0) }
    }
}

impl PrimaryHeader {
    /// The header that the first six bytes of `bytes` denote in the given
    /// byte order.
    pub open spec fn spec_decode(bytes: Seq<u8>, order: Endianness) -> PrimaryHeader
        recommends
            bytes.len() >= 6,
    {
        PrimaryHeader {
            control: ControlWord(word_of_bytes(bytes[0], bytes[1], order)),
            sequence: SequenceWord(word_of_bytes(bytes[2], bytes[3], order)),
            length: LengthWord(word_of_bytes(bytes[4], bytes[5], order)),
        }
    }

    /// The six bytes that denote this header in the given byte order.
    pub open spec fn spec_encode(&self, order: Endianness) -> Seq<u8> {
        let control = bytes_of_word(self.control.0, order);
        let sequence = bytes_of_word(self.sequence.0, order);
        let length = bytes_of_word(self.length.0, order);
        seq![control.0, control.1, sequence.0, sequence.1, length.0, length.1]
    }

    /// The length of the packet in bytes, primary header included.
    pub open spec fn spec_packet_length(&self) -> u32 {
        (self.length.0 + 7) as u32
    }

    /// The length of the data section in bytes.
    pub open spec fn spec_data_length(&self) -> u32 {
        (self.length.0 + 1) as u32
    }

    /// Decodes a header from six bytes in the given byte order.
    pub fn decode(bytes: [u8; 6], order: Endianness) -> (header: PrimaryHeader)
        ensures
            header == Self::spec_decode(bytes@, order),
    {
        PrimaryHeader {
            control: ControlWord(read_word(bytes[0], bytes[1], order)),
            sequence: SequenceWord(read_word(bytes[2], bytes[3], order)),
            length: LengthWord(read_word(bytes[4], bytes[5], order)),
        }
    }

    /// Decodes a header from the first six bytes of a slice in the given
    /// byte order. There is no header in fewer than six bytes.
    pub fn decode_from_slice(bytes: &[u8], order: Endianness) -> (header: Option<PrimaryHeader>)
        ensures
            bytes@.len() < 6 ==> header is None,
            bytes@.len() >= 6 ==> header == Some(Self::spec_decode(bytes@.subrange(0, 6), order)),
    {
        if bytes.len() >= CCSDS_PRI_HEADER_SIZE_BYTES as usize {
            let header_bytes: [u8; 6] = [
                bytes[0],
                bytes[1],
                bytes[2],
                bytes[3],
                bytes[4],
                bytes[5],
            ];
            Some(Self::decode(header_bytes, order))
        } else {
            None
        }
    }

    /// Encodes the header as six bytes in the given byte order.
    pub fn encode(&self, order: Endianness) -> (bytes: [u8; 6])
        ensures
            bytes@ == self.spec_encode(order),
    {
        let control = write_word(self.control.0, order);
        let sequence = write_word(self.sequence.0, order);
        let length = write_word(self.length.0, order);
        let bytes: [u8; 6] = [
            control[0],
            control[1],
            sequence[0],
            sequence[1],
            length[0],
            length[1],
        ];
        assert(bytes@ =~= self.spec_encode(order));
        bytes
    }

    /// Decodes a header from six bytes in the byte order of the standard,
    /// most significant byte first.
    pub fn new(bytes: [u8; 6]) -> (header: PrimaryHeader)
        ensures
            header == Self::spec_decode(bytes@, Endianness::Big),
    {
        Self::decode(bytes, Endianness::Big)
    }

    /// Decodes a header from the first six bytes of a slice in the byte
    /// order of the standard. There is no header in fewer than six bytes.
    pub fn from_slice(bytes: &[u8]) -> (header: Option<PrimaryHeader>)
        ensures
            bytes@.len() < 6 ==> header is None,
            bytes@.len() >= 6 ==> header == Some(
                Self::spec_decode(bytes@.subrange(0, 6), Endianness::Big),
            ),
    {
        Self::decode_from_slice(bytes, Endianness::Big)
    }

    /// The length of the packet in bytes, primary header included: the
    /// length field and 7.
    #[verifier::when_used_as_spec(spec_packet_length)]
    pub fn packet_length(&self) -> (length: u32)
        ensures
            length == self.spec_packet_length(),
            length == self.length.spec_length_field() + 7,
            7 <= length <= 65542,
    {
        self.length.length_field() as u32 + CCSDS_PRI_HEADER_SIZE_BYTES
            + CCSDS_MIN_DATA_LENGTH_BYTES
    }

    /// The length of the data section in bytes: the length field and 1.
    #[verifier::when_used_as_spec(spec_data_length)]
    pub fn data_length(&self) -> (length: u32)
        ensures
            length == self.spec_data_length(),
            length == self.length.spec_length_field() + 1,
            1 <= length <= 65536,
    {
        self.length.length_field() as u32 + CCSDS_MIN_DATA_LENGTH_BYTES
    }

    /// Sets the length field so that the packet is `packet_length` bytes
    /// long, primary header included, and gives the length field written.
    /// No packet is shorter than 7 bytes: for such a length the header is
    /// left as it is and nothing is given.
    pub fn set_packet_length(&mut self, packet_length: u16) -> (written: Option<u16>)
        ensures
            packet_length < 7 ==> written is None && *final(self) == *old(self),
            packet_length >= 7 ==> written == Some((packet_length - 7) as u16)
                && final(self).length.spec_length_field() == packet_length - 7
                && final(self).spec_packet_length() == packet_length
                && final(self).control == old(self).control
                && final(self).sequence == old(self).sequence,
    {
        if packet_length < 7 {
            None
        } else {
            let length: u16 = packet_length - 7;
            self.length.set_length_field(length);
            Some(length)
        }
    }

    /// A header that is encoded and decoded again in the same byte order is
    /// the header that was encoded.
    pub proof fn lemma_decode_encode(&self, order: Endianness)
        ensures
            Self::spec_decode(self.spec_encode(order), order) == *self,
            self.spec_encode(order).len() == 6,
    {
        lemma_word_round_trip(self.control.0, order);
        lemma_word_round_trip(self.sequence.0, order);
        lemma_word_round_trip(self.length.0, order);
    }

    /// Six bytes that are decoded and encoded again in the same byte order
    /// are the six bytes that were decoded.
    pub proof fn lemma_encode_decode(bytes: Seq<u8>, order: Endianness)
        requires
            bytes.len() == 6,
        ensures
            Self::spec_decode(bytes, order).spec_encode(order) == bytes,
    {
        lemma_bytes_round_trip(bytes[0], bytes[1], order);
        lemma_bytes_round_trip(bytes[2], bytes[3], order);
        lemma_bytes_round_trip(bytes[4], bytes[5], order);
        assert(Self::spec_decode(bytes, order).spec_encode(order) =~= bytes);
    }

    /// Two headers with the same fields are the same header.
    pub proof fn lemma_fields_determine_header(&self, other: &PrimaryHeader)
        requires
            self.control.spec_version() == other.control.spec_version(),
            self.control.spec_packet_type() == other.control.spec_packet_type(),
            self.control.spec_secondary_header_flag() == other.control.spec_secondary_header_flag(),
            self.control.spec_apid() == other.control.spec_apid(),
            self.sequence.spec_sequence_type() == other.sequence.spec_sequence_type(),
            self.sequence.spec_sequence_count() == other.sequence.spec_sequence_count(),
            self.length.spec_length_field() == other.length.spec_length_field(),
        ensures
            *self == *other,
    {
        self.control.lemma_fields();
        other.control.lemma_fields();
        self.sequence.lemma_fields();
        other.sequence.lemma_fields();
    }

    /// Decoding reads the first six bytes and no others.
    pub proof fn lemma_decode_prefix(bytes: Seq<u8>, order: Endianness)
        requires
            bytes.len() >= 6,
        ensures
            Self::spec_decode(bytes, order) == Self::spec_decode(bytes.subrange(0, 6), order),
    {
    }
}

} // verus!
