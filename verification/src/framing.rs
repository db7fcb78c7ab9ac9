//! What the framer does, stated over sequences of bytes.
//!
//! A frame is what one packet occupies in the stream:
//!
//! ```text
//! [ sync bytes ][ prefix ][ primary header ][ data ][ footer ]
//! ```
//!
//! The prefix and the footer belong to another protocol and have fixed
//! lengths; the primary header and the data are the packet.
//!
//! The parser does not look at a buffer before it holds what surrounds the
//! data of one frame, that is the sync bytes, the prefix, the primary header
//! and the footer, and as many bytes more as the sync bytes and the prefix of
//! the frame behind it take.

use crate::buffer::contents;
use crate::byte_order::Endianness;
use crate::parser::CcsdsParserStatus;
use crate::primary_header::{PrimaryHeader, SecondaryHeaderFlag};
use bytes::BytesMut;
use vstd::prelude::*;

verus! {

/// A configuration as the framing rules see it.
pub struct ConfigView {
    pub allowed_apids: Option<Set<u16>>,
    pub max_packet_length: Option<u32>,
    pub min_packet_length: Option<u32>,
    pub secondary_header_required: bool,
    pub sync_bytes: Seq<u8>,
    pub keep_sync: bool,
    pub num_header_bytes: nat,
    pub keep_header: bool,
    pub num_footer_bytes: nat,
    pub keep_footer: bool,
    pub little_endian_header: bool,
}

impl ConfigView {
    /// The configuration that accepts every packet of version 0 and expects
    /// nothing around it.
    pub open spec fn plain() -> ConfigView {
        ConfigView {
            allowed_apids: None,
            max_packet_length: None,
            min_packet_length: None,
            secondary_header_required: false,
            sync_bytes: Seq::empty(),
            keep_sync: false,
            num_header_bytes: 0,
            keep_header: false,
            num_footer_bytes: 0,
            keep_footer: false,
            little_endian_header: false,
        }
    }

    /// The number of bytes of a frame that are not the packet.
    pub open spec fn overhead(&self) -> nat {
        self.sync_bytes.len() + self.num_header_bytes + self.num_footer_bytes
    }

    /// The index of the primary header in a frame: the length of the sync
    /// bytes and the prefix.
    pub open spec fn header_start(&self) -> nat {
        self.sync_bytes.len() + self.num_header_bytes
    }

    /// The length of the shortest buffer that the parser looks at: the sync
    /// bytes and the prefix, the six bytes of a primary header, the footer,
    /// and the sync bytes and the prefix once more.
    pub open spec fn min_buffer_len(&self) -> nat {
        self.header_start() + 6 + self.num_footer_bytes + self.header_start()
    }

    /// The byte order in which headers are read.
    pub open spec fn byte_order(&self) -> Endianness {
        Endianness::spec_of_little_endian(self.little_endian_header)
    }
}

/// A parser as the framing rules see it.
pub struct ParserView {
    /// The bytes received and not yet pulled or discarded.
    pub buffer: Seq<u8>,
    pub config: ConfigView,
    /// The number of bytes discarded so far.
    pub skipped_bytes: nat,
    /// Whether `next` has given up since bytes were last received.
    pub reached_end: bool,
}

impl ParserView {
    /// The count of discarded bytes fits in a `usize` even when every byte of
    /// the buffer is discarded. A buffer never holds more bytes than a
    /// `usize` counts, so this is so while the count is 0.
    pub open spec fn count_has_room(&self) -> bool {
        self.skipped_bytes == 0 || self.skipped_bytes + self.buffer.len() <= usize::MAX
    }
}

/// The primary header of the frame at the head of the buffer.
pub open spec fn header_at(config: ConfigView, buffer: Seq<u8>) -> PrimaryHeader
    recommends
        buffer.len() >= config.min_buffer_len(),
{
    PrimaryHeader::spec_decode(buffer.skip(config.header_start() as int), config.byte_order())
}

/// The length of the frame at the head of the buffer, as its header
/// announces it.
pub open spec fn frame_len(config: ConfigView, buffer: Seq<u8>) -> nat
    recommends
        buffer.len() >= config.min_buffer_len(),
{
    config.overhead() + header_at(config, buffer).spec_packet_length() as nat
}

/// The status of the buffer by the rules that the framer checks itself,
/// before it asks a validator or looks at the allowed APIDs. The rules are
/// tried in this order and the first that fails decides.
pub open spec fn framing_status(config: ConfigView, buffer: Seq<u8>) -> CcsdsParserStatus {
    let header = header_at(config, buffer);
    if buffer.len() < config.min_buffer_len() {
        CcsdsParserStatus::NotEnoughBytesForHeader
    } else if !config.sync_bytes.is_prefix_of(buffer) {
        CcsdsParserStatus::SyncNotFound
    } else if config.max_packet_length matches Some(max) && header.spec_packet_length() > max {
        CcsdsParserStatus::ExceedsMaxPacketLength
    } else if config.min_packet_length matches Some(min) && header.spec_packet_length() < min {
        CcsdsParserStatus::BelowMinPacketLength
    } else if buffer.len() < frame_len(config, buffer) {
        CcsdsParserStatus::NotEnoughBytesPacketLength
    } else if header.control.spec_version() != 0 {
        CcsdsParserStatus::InvalidCcsdsVersion
    } else if config.secondary_header_required && header.control.spec_secondary_header_flag()
        != SecondaryHeaderFlag::Present {
        CcsdsParserStatus::SecondaryHeaderInvalid
    } else {
        CcsdsParserStatus::ValidPacket
    }
}

/// The status of the buffer. Where the framer's own rules find nothing
/// wrong, the validator is asked about the whole frame, sync bytes to
/// footer, and then the APID is looked up.
pub open spec fn status_at(
    config: ConfigView,
    buffer: Seq<u8>,
    accepts: spec_fn(Seq<u8>) -> bool,
) -> CcsdsParserStatus {
    let framing = framing_status(config, buffer);
    if framing != CcsdsParserStatus::ValidPacket {
        framing
    } else if !accepts(buffer.take(frame_len(config, buffer) as int)) {
        CcsdsParserStatus::ValidationFailed
    } else if config.allowed_apids matches Some(allowed) && !allowed.contains(
        header_at(config, buffer).control.spec_apid(),
    ) {
        CcsdsParserStatus::ApidNotAllowed
    } else {
        CcsdsParserStatus::ValidPacket
    }
}

/// The number of bytes that resynchronisation discards: one for each
/// malformed position, up to the first position that is not malformed.
pub open spec fn resync_skips(
    config: ConfigView,
    buffer: Seq<u8>,
    accepts: spec_fn(Seq<u8>) -> bool,
) -> nat
    decreases buffer.len(),
{
    if status_at(config, buffer, accepts).spec_is_malformed() {
        1 + resync_skips(config, buffer.skip(1), accepts)
    } else {
        0
    }
}

/// The index in a valid frame at which the span that is pulled begins.
pub open spec fn span_start(config: ConfigView) -> nat {
    (if config.keep_sync {
        0
    } else {
        config.sync_bytes.len()
    }) + (if config.keep_header {
        0
    } else {
        config.num_header_bytes
    })
}

/// The length of the span that is pulled from a valid frame.
pub open spec fn span_len(config: ConfigView, buffer: Seq<u8>) -> nat {
    header_at(config, buffer).spec_packet_length() as nat + (if config.keep_sync {
        config.sync_bytes.len()
    } else {
        0
    }) + (if config.keep_header {
        config.num_header_bytes
    } else {
        0
    }) + (if config.keep_footer {
        config.num_footer_bytes
    } else {
        0
    })
}

/// The span that is pulled from the valid frame at the head of the buffer.
pub open spec fn extracted_span(config: ConfigView, buffer: Seq<u8>) -> Seq<u8> {
    buffer.subrange(
        span_start(config) as int,
        span_start(config) as int + span_len(config, buffer) as int,
    )
}

/// A packet pulled or not, and the parser afterwards.
pub struct Extraction {
    pub packet: Option<Seq<u8>>,
    pub parser: ParserView,
}

/// The bytes of a packet that was pulled, if one was.
pub open spec fn span_of(packet: Option<BytesMut>) -> Option<Seq<u8>> {
    match packet {
        Some(span) => Some(contents(&span)),
        None => None,
    }
}

/// What pulling a packet does: it discards bytes up to the first position
/// that is not malformed; if a valid frame stands there, the frame leaves the
/// buffer and its span is the packet.
pub open spec fn pull_outcome(parser: ParserView, accepts: spec_fn(Seq<u8>) -> bool) -> Extraction {
    let skips = resync_skips(parser.config, parser.buffer, accepts);
    let rest = parser.buffer.skip(skips as int);
    let skipped_bytes = parser.skipped_bytes + skips;
    if status_at(parser.config, rest, accepts) == CcsdsParserStatus::ValidPacket {
        Extraction {
            packet: Some(extracted_span(parser.config, rest)),
            parser: ParserView {
                buffer: rest.skip(frame_len(parser.config, rest) as int),
                skipped_bytes,
                ..parser
            },
        }
    } else {
        Extraction { packet: None, parser: ParserView { buffer: rest, skipped_bytes, ..parser } }
    }
}

/// The parser with one byte discarded from the head of its buffer, if it
/// holds one.
pub open spec fn reject_outcome(parser: ParserView) -> ParserView {
    if parser.buffer.len() > 0 {
        ParserView {
            buffer: parser.buffer.skip(1),
            skipped_bytes: parser.skipped_bytes + 1,
            ..parser
        }
    } else {
        parser
    }
}

/// What `next` does. Once it has given up it gives nothing until bytes are
/// received. Else it pulls; where that gives nothing and yet the buffer could
/// hold a frame, it discards one byte and pulls once more. It gives up when
/// it has no packet to give.
pub open spec fn next_outcome(parser: ParserView, accepts: spec_fn(Seq<u8>) -> bool) -> Extraction {
    let first = pull_outcome(parser, accepts);
    let second = pull_outcome(reject_outcome(first.parser), accepts);
    if parser.reached_end {
        Extraction { packet: None, parser }
    } else if first.packet is Some {
        first
    } else if status_at(first.parser.config, first.parser.buffer, accepts)
        == CcsdsParserStatus::NotEnoughBytesForHeader {
        Extraction { packet: None, parser: ParserView { reached_end: true, ..first.parser } }
    } else if second.packet is Some {
        second
    } else {
        Extraction { packet: None, parser: ParserView { reached_end: true, ..second.parser } }
    }
}

} // verus!
