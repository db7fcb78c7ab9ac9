//! The stream framer: a byte buffer and a configuration, fed with bytes as
//! they arrive and asked for packets.

use crate::buffer::{buffer_extend, buffer_range, contents, payload};
use crate::byte_order::Endianness;
use crate::framing::{
    extracted_span, frame_len, framing_status, header_at, next_outcome, pull_outcome,
    reject_outcome, resync_skips, span_len, span_of, span_start, status_at, ConfigView,
    ParserView,
};
use crate::laws::{lemma_resync_step, lemma_skips, lemma_valid_frame};
use crate::primary_header::{
    PrimaryHeader, SecondaryHeaderFlag, CCSDS_PRI_HEADER_SIZE_BYTES, CCSDS_VERSION,
};
use crate::validation::{accept_all, accept_any, ask, is_validator, lemma_accept_all, verdicts};
use bytes::{Buf, Bytes, BytesMut};
use vstd::prelude::*;

verus! {

/// What a parser finds at the head of its buffer. Only `ValidPacket` stands
/// for a packet that can be pulled.
#[derive(Debug, PartialEq, Eq, Copy, Clone, Structural)]
pub enum CcsdsParserStatus {
    /// The packet is valid.
    ValidPacket,
    /// The buffer is shorter than the shortest that the parser looks at: it
    /// does not hold the sync bytes and the prefix twice over, the six bytes
    /// of a primary header and the footer.
    NotEnoughBytesForHeader,
    /// The packet length is greater than the maximum configured.
    ExceedsMaxPacketLength,
    /// The packet length is smaller than the minimum configured.
    BelowMinPacketLength,
    /// The buffer does not hold as many bytes as the header announces.
    NotEnoughBytesPacketLength,
    /// The CCSDS version field is not 0.
    InvalidCcsdsVersion,
    /// A secondary header is required and the flag is not set.
    SecondaryHeaderInvalid,
    /// The validator of the caller does not accept the frame.
    ValidationFailed,
    /// The APID is not in the list of allowed APIDs.
    ApidNotAllowed,
    /// A sync marker is configured and the buffer does not begin with it.
    SyncNotFound,
}

impl CcsdsParserStatus {
    /// More bytes may turn what is at the head of the buffer into a packet.
    pub open spec fn spec_needs_more_bytes(&self) -> bool {
        *self == CcsdsParserStatus::NotEnoughBytesForHeader || *self
            == CcsdsParserStatus::NotEnoughBytesPacketLength
    }

    /// No packet begins at the head of the buffer, whatever bytes follow.
    pub open spec fn spec_is_malformed(&self) -> bool {
        *self != CcsdsParserStatus::ValidPacket && !self.spec_needs_more_bytes()
    }

    /// More bytes may turn what is at the head of the buffer into a packet.
    #[verifier::when_used_as_spec(spec_needs_more_bytes)]
    pub fn needs_more_bytes(&self) -> (waiting: bool)
        ensures
            waiting == self.spec_needs_more_bytes(),
    {
        match self {
            CcsdsParserStatus::NotEnoughBytesForHeader => true,
            CcsdsParserStatus::NotEnoughBytesPacketLength => true,
            _ => false,
        }
    }

    /// No packet begins at the head of the buffer, whatever bytes follow.
    #[verifier::when_used_as_spec(spec_is_malformed)]
    pub fn is_malformed(&self) -> (malformed: bool)
        ensures
            malformed == self.spec_is_malformed(),
    {
        match self {
            CcsdsParserStatus::ValidPacket => false,
            CcsdsParserStatus::NotEnoughBytesForHeader => false,
            CcsdsParserStatus::NotEnoughBytesPacketLength => false,
            _ => true,
        }
    }
}

/// The configuration of a parser, kept apart from the parser so that it can
/// be built and handed round on its own.
#[derive(Debug, PartialEq, Clone)]
pub struct CcsdsParserConfig {
    /// Either `None`, and any APID is valid, or the APIDs that are. A packet
    /// with another APID counts as malformed.
    pub allowed_apids: Option<Vec<u16>>,
    /// The greatest packet length that is valid, if there is one.
    pub max_packet_length: Option<u32>,
    /// The smallest packet length that is valid, if there is one.
    pub min_packet_length: Option<u32>,
    /// Whether a valid packet must have the secondary header flag set.
    pub secondary_header_required: bool,
    /// The bytes that must stand before each packet. Mostly empty.
    pub sync_bytes: Vec<u8>,
    /// Whether a pulled packet begins with the sync bytes.
    pub keep_sync: bool,
    /// The number of bytes of another protocol between the sync bytes and the
    /// primary header. Mostly 0.
    pub num_header_bytes: u32,
    /// Whether a pulled packet includes those bytes.
    pub keep_header: bool,
    /// The number of bytes of another protocol after the packet, such as a
    /// CRC. Mostly 0.
    pub num_footer_bytes: u32,
    /// Whether a pulled packet includes those bytes.
    pub keep_footer: bool,
    /// Whether headers are read least significant byte first, against the
    /// standard.
    pub little_endian_header: bool,
}

impl View for CcsdsParserConfig {
    type V = ConfigView;

    open spec fn view(&self) -> ConfigView {
        ConfigView {
            allowed_apids: match self.allowed_apids {
                Some(apids) => Some(apids@.to_set()),
                None => None,
            },
            max_packet_length: self.max_packet_length,
            min_packet_length: self.min_packet_length,
            secondary_header_required: self.secondary_header_required,
            sync_bytes: self.sync_bytes@,
            keep_sync: self.keep_sync,
            num_header_bytes: self.num_header_bytes as nat,
            keep_header: self.keep_header,
            num_footer_bytes: self.num_footer_bytes as nat,
            keep_footer: self.keep_footer,
            little_endian_header: self.little_endian_header,
        }
    }
}

impl CcsdsParserConfig {
    /// The configuration that accepts every packet of version 0 and expects
    /// nothing around it.
    pub fn new() -> (config: CcsdsParserConfig)
        ensures
            config@ == ConfigView::plain(),
    {
        CcsdsParserConfig {
            allowed_apids: None,
            max_packet_length: None,
            min_packet_length: None,
            secondary_header_required: false,
            sync_bytes: Vec::new(),
            keep_sync: false,
            num_header_bytes: 0,
            keep_header: false,
            num_footer_bytes: 0,
            keep_footer: false,
            little_endian_header: false,
        }
    }
}

/// A configuration and a byte buffer that can be asked for CCSDS packets. A
/// parser is made and configured, and then fed bytes. At any time it says
/// what stands at the head of its buffer, and gives the packet there if one
/// does.
pub struct CcsdsParser {
    /// The bytes received and not yet pulled or discarded.
    pub bytes: BytesMut,
    /// How to find packets in the buffer.
    pub config: CcsdsParserConfig,
    /// The number of bytes discarded so far because no packet began at them.
    pub skipped_bytes: usize,
    /// Whether `next` has given up since bytes were last received.
    pub reached_end: bool,
}

impl View for CcsdsParser {
    type V = ParserView;

    open spec fn view(&self) -> ParserView {
        ParserView {
            buffer: contents(&self.bytes),
            config: self.config@,
            skipped_bytes: self.skipped_bytes as nat,
            reached_end: self.reached_end,
        }
    }
}

/// Whether `haystack` begins with the bytes of `needle`.
fn starts_with(haystack: &[u8], needle: &[u8]) -> (found: bool)
    ensures
        found == needle@.is_prefix_of(haystack@),
{
    if needle.len() > haystack.len() {
        return false;
    }
    let mut index: usize = 0;
    while index < needle.len()
        invariant
            index <= needle@.len() <= haystack@.len(),
            forall|i: int| 0 <= i < index ==> haystack@[i] == needle@[i],
        decreases needle@.len() - index,
    {
        if haystack[index] != needle[index] {
            return false;
        }
        index += 1;
    }
    true
}

/// Whether `apid` is one of `apids`.
fn is_listed(apids: &Vec<u16>, apid: u16) -> (found: bool)
    ensures
        found == apids@.to_set().contains(apid),
{
    let mut index: usize = 0;
    while index < apids.len()
        invariant
            index <= apids@.len(),
            forall|i: int| 0 <= i < index ==> apids@[i] != apid,
        decreases apids@.len() - index,
    {
        if apids[index] == apid {
            return true;
        }
        index += 1;
    }
    false
}

impl CcsdsParser {
    /// A parser with an empty buffer and the plain configuration.
    pub fn new() -> (parser: Self)
        ensures
            parser@ == (ParserView {
                buffer: Seq::empty(),
                config: ConfigView::plain(),
                skipped_bytes: 0,
                reached_end: false,
            }),
    {
        CcsdsParser {
            bytes: BytesMut::new(),
            config: CcsdsParserConfig::new(),
            skipped_bytes: 0,
            reached_end: false,
        }
    }

    /// A parser with an empty buffer and the given configuration.
    pub fn with_config(config: CcsdsParserConfig) -> (parser: Self)
        ensures
            parser.config == config,
            parser@ == (ParserView {
                buffer: Seq::empty(),
                config: config@,
                skipped_bytes: 0,
                reached_end: false,
            }),
    {
        CcsdsParser { bytes: BytesMut::new(), config: config, skipped_bytes: 0, reached_end: false }
    }

    /// Allows an APID: it is added at the end of the list. If every APID was
    /// allowed, this one is from now on the only one that is.
    pub fn allow_apid(&mut self, apid: u16)
        ensures
            final(self).config.allowed_apids matches Some(apids) && apids@ == (
            match old(self).config.allowed_apids {
                Some(allowed) => allowed@.push(apid),
                None => seq![apid],
            }),
            final(self)@ == (ParserView {
                config: ConfigView {
                    allowed_apids: Some(
                        match old(self)@.config.allowed_apids {
                            Some(allowed) => allowed.insert(apid),
                            None => Set::<u16>::empty().insert(apid),
                        },
                    ),
                    ..old(self)@.config
                },
                ..old(self)@
            }),
    {
        match &mut self.config.allowed_apids {
            None => {
                let mut apids = Vec::new();
                apids.push(apid);
                proof {
                    Seq::<u16>::empty().lemma_push_to_set_commute(apid);
                    assert(Seq::<u16>::empty().to_set() =~= Set::<u16>::empty());
                }
                self.config.allowed_apids = Some(apids);
            },
            Some(apids) => {
                proof {
                    apids@.lemma_push_to_set_commute(apid);
                }
                apids.push(apid);
            },
        }
    }

    /// Feeds bytes to the parser: they are appended to the buffer. As there
    /// may be packets again, `next` takes up its work.
    pub fn recv_bytes(&mut self, new_bytes: Bytes)
        ensures
            final(self)@ == (ParserView {
                buffer: old(self)@.buffer + payload(&new_bytes),
                reached_end: false,
                ..old(self)@
            }),
            final(self).config == old(self).config,
    {
        buffer_extend(&mut self.bytes, new_bytes);
        self.reached_end = false;
    }

    /// Feeds bytes to the parser: they are appended to the buffer. As there
    /// may be packets again, `next` takes up its work.
    pub fn recv_slice(&mut self, new_bytes: &[u8])
        ensures
            final(self)@ == (ParserView {
                buffer: old(self)@.buffer + new_bytes@,
                reached_end: false,
                ..old(self)@
            }),
            final(self).config == old(self).config,
    {
        self.bytes.extend_from_slice(new_bytes);
        self.reached_end = false;
    }

    /// The primary header of the frame at the head of the buffer, if the
    /// buffer is as long as the shortest that the parser looks at.
    pub fn current_header(&self) -> (header: Option<PrimaryHeader>)
        ensures
            self@.buffer.len() < self@.config.min_buffer_len() ==> header is None,
            self@.buffer.len() >= self@.config.min_buffer_len() ==> header == Some(
                header_at(self@.config, self@.buffer),
            ),
            self@.buffer.len() <= usize::MAX,
    {
        let len = self.bytes.len();
        let sync_len = self.config.sync_bytes.len();
        let before_header: u128 = sync_len as u128 + self.config.num_header_bytes as u128;
        let min_length: u128 = before_header + CCSDS_PRI_HEADER_SIZE_BYTES as u128
            + self.config.num_footer_bytes as u128 + before_header;
        if (len as u128) < min_length {
            None
        } else {
            let start_of_header: usize = sync_len + self.config.num_header_bytes as usize;
            let end_of_header: usize = start_of_header + CCSDS_PRI_HEADER_SIZE_BYTES as usize;
            let header_bytes = buffer_range(&self.bytes, start_of_header, end_of_header);
            let order = Endianness::of_little_endian(self.config.little_endian_header);
            PrimaryHeader::decode_from_slice(header_bytes, order)
        }
    }

    /// The length of the frame that the header announces: the packet and
    /// what the configuration puts around it.
    fn full_packet_length(&self, header: &PrimaryHeader) -> (length: u128)
        ensures
            length == self@.config.overhead() + header.spec_packet_length(),
    {
        header.packet_length() as u128 + self.config.sync_bytes.len() as u128
            + self.config.num_header_bytes as u128 + self.config.num_footer_bytes as u128
    }

    /// The status of the buffer by the rules that need neither a validator
    /// nor the allowed APIDs.
    fn current_framing_status(&self) -> (status: CcsdsParserStatus)
        ensures
            status == framing_status(self@.config, self@.buffer),
            self@.buffer.len() <= usize::MAX,
    {
        let pri_header = match self.current_header() {
            Some(header) => header,
            None => {
                return CcsdsParserStatus::NotEnoughBytesForHeader;
            },
        };
        let sync_len = self.config.sync_bytes.len();
        if sync_len > 0 {
            let head = buffer_range(&self.bytes, 0, sync_len);
            if !starts_with(head, self.config.sync_bytes.as_slice()) {
                return CcsdsParserStatus::SyncNotFound;
            }
        }
        if let Some(max_length) = self.config.max_packet_length {
            if pri_header.packet_length() > max_length {
                return CcsdsParserStatus::ExceedsMaxPacketLength;
            }
        }
        if let Some(min_length) = self.config.min_packet_length {
            if pri_header.packet_length() < min_length {
                return CcsdsParserStatus::BelowMinPacketLength;
            }
        }
        if (self.bytes.len() as u128) < self.full_packet_length(&pri_header) {
            return CcsdsParserStatus::NotEnoughBytesPacketLength;
        }
        if pri_header.control.version() != CCSDS_VERSION as u16 {
            return CcsdsParserStatus::InvalidCcsdsVersion;
        }
        if self.config.secondary_header_required && pri_header.control.secondary_header_flag()
            != SecondaryHeaderFlag::Present {
            return CcsdsParserStatus::SecondaryHeaderInvalid;
        }
        CcsdsParserStatus::ValidPacket
    }

    /// Whether the allowed APIDs admit the frame at the head of the buffer.
    fn current_apid_allowed(&self) -> (allowed: bool)
        requires
            self@.buffer.len() >= self@.config.min_buffer_len(),
        ensures
            allowed == !(self@.config.allowed_apids matches Some(apids) && !apids.contains(
                header_at(self@.config, self@.buffer).control.spec_apid(),
            )),
    {
        match &self.config.allowed_apids {
            None => true,
            Some(apid_list) => is_listed(apid_list, self.current_header().unwrap().control.apid()),
        }
    }

    /// What stands at the head of the buffer, where a validator of the
    /// caller is asked about each frame that passes the parser's own rules.
    pub fn current_status_with<F: Fn(&[u8]) -> bool>(&self, validator: &F) -> (status:
        CcsdsParserStatus)
        requires
            is_validator(validator),
        ensures
            status == status_at(self@.config, self@.buffer, verdicts(validator)),
            self@.buffer.len() <= usize::MAX,
    {
        let framing = self.current_framing_status();
        if framing != CcsdsParserStatus::ValidPacket {
            return framing;
        }
        let header = self.current_header().unwrap();
        let frame_length: usize = self.full_packet_length(&header) as usize;
        let frame = buffer_range(&self.bytes, 0, frame_length);
        if !ask(validator, frame) {
            return CcsdsParserStatus::ValidationFailed;
        }
        if !self.current_apid_allowed() {
            return CcsdsParserStatus::ApidNotAllowed;
        }
        CcsdsParserStatus::ValidPacket
    }

    /// What stands at the head of the buffer.
    pub fn current_status(&self) -> (status: CcsdsParserStatus)
        ensures
            status == status_at(self@.config, self@.buffer, accept_any()),
            self@.buffer.len() <= usize::MAX,
    {
        proof {
            lemma_accept_all();
        }
        self.current_status_with(&accept_all)
    }

    /// Tells the parser that no packet begins at the head of the buffer: the
    /// first byte is discarded. The parser does so itself while it looks for
    /// a packet; a caller does so when it finds fault with a packet that the
    /// parser could not find. In an empty buffer there is nothing to
    /// discard.
    pub fn reject(&mut self)
        requires
            old(self)@.count_has_room(),
        ensures
            final(self)@ == reject_outcome(old(self)@),
            final(self).config == old(self).config,
            final(self)@.count_has_room(),
    {
        if self.bytes.len() > 0 {
            self.bytes.advance(1);
            self.skipped_bytes += 1;
        }
    }

    /// Where the span of the valid frame at the head of the buffer begins,
    /// how long it is, and how many bytes of the frame follow it.
    fn span_bounds(&self) -> (bounds: (usize, usize, usize))
        requires
            self@.config.min_buffer_len() <= self@.buffer.len(),
            frame_len(self@.config, self@.buffer) <= self@.buffer.len(),
        ensures
            bounds.0 == span_start(self@.config),
            bounds.1 == span_len(self@.config, self@.buffer),
            bounds.0 + bounds.1 + bounds.2 == frame_len(self@.config, self@.buffer),
    {
        let header = self.current_header().unwrap();
        let sync_len = self.config.sync_bytes.len();
        let num_header_bytes = self.config.num_header_bytes as usize;
        let num_footer_bytes = self.config.num_footer_bytes as usize;

        // What stands in front of the packet is part of the span if it is
        // kept. Otherwise the span begins behind it.
        let mut packet_length: usize = header.packet_length() as usize;
        let mut start: usize = 0;
        if self.config.keep_sync {
            packet_length += sync_len;
        } else {
            start += sync_len;
        }
        if self.config.keep_header {
            packet_length += num_header_bytes;
        } else {
            start += num_header_bytes;
        }
        // The footer is part of the span if it is kept. Otherwise it is
        // dropped once the span has been taken.
        let mut dropped_footer: usize = num_footer_bytes;
        if self.config.keep_footer {
            packet_length += num_footer_bytes;
            dropped_footer = 0;
        }
        (start, packet_length, dropped_footer)
    }

    /// Takes a span out of the buffer, with the bytes in front of it and
    /// `after` bytes that follow it, and gives the span.
    fn take_span(&mut self, start: usize, len: usize, after: usize) -> (span: BytesMut)
        requires
            start + len + after <= old(self)@.buffer.len(),
        ensures
            contents(&span) == old(self)@.buffer.subrange(start as int, start + len),
            contents(&final(self).bytes) == old(self)@.buffer.skip(start + len + after),
            final(self).config == old(self).config,
            final(self).skipped_bytes == old(self).skipped_bytes,
            final(self).reached_end == old(self).reached_end,
    {
        proof {
            lemma_skips(self@.buffer, start as int, len as int);
            lemma_skips(self@.buffer, start + len, after as int);
        }
        self.bytes.advance(start);
        let span = self.bytes.split_to(len);
        self.bytes.advance(after);
        span
    }

    /// Takes the valid frame at the head of the buffer out of it and gives
    /// its span.
    fn extract(&mut self) -> (packet: BytesMut)
        requires
            old(self)@.config.min_buffer_len() <= old(self)@.buffer.len(),
            frame_len(old(self)@.config, old(self)@.buffer) <= old(self)@.buffer.len(),
        ensures
            contents(&packet) == extracted_span(old(self)@.config, old(self)@.buffer),
            contents(&final(self).bytes) == old(self)@.buffer.skip(
                frame_len(old(self)@.config, old(self)@.buffer) as int,
            ),
            final(self).config == old(self).config,
            final(self).skipped_bytes == old(self).skipped_bytes,
            final(self).reached_end == old(self).reached_end,
    {
        let (start, len, after) = self.span_bounds();
        self.take_span(start, len, after)
    }

    /// Discards bytes up to the first position that is not malformed, and
    /// gives the status of that position.
    fn resync_with<F: Fn(&[u8]) -> bool>(&mut self, validator: &F) -> (status: CcsdsParserStatus)
        requires
            is_validator(validator),
            old(self)@.count_has_room(),
        ensures
            final(self)@ == (ParserView {
                buffer: old(self)@.buffer.skip(
                    resync_skips(old(self)@.config, old(self)@.buffer, verdicts(validator)) as int,
                ),
                skipped_bytes: old(self)@.skipped_bytes + resync_skips(
                    old(self)@.config,
                    old(self)@.buffer,
                    verdicts(validator),
                ),
                ..old(self)@
            }),
            status == status_at(final(self)@.config, final(self)@.buffer, verdicts(validator)),
            !status.spec_is_malformed(),
            final(self).config == old(self).config,
            final(self)@.skipped_bytes + final(self)@.buffer.len() <= usize::MAX,
    {
        let ghost before = self@;
        let ghost accepts = verdicts(validator);
        let ghost mut skips: nat = 0;
        let mut parser_status = self.current_status_with(validator);
        proof {
            lemma_skips(before.buffer, 0, 0);
        }
        while parser_status.is_malformed()
            invariant
                is_validator(validator),
                accepts == verdicts(validator),
                self.config == old(self).config,
                before.skipped_bytes + before.buffer.len() <= usize::MAX,
                skips <= before.buffer.len(),
                self@ == (ParserView {
                    buffer: before.buffer.skip(skips as int),
                    skipped_bytes: before.skipped_bytes + skips,
                    ..before
                }),
                parser_status == status_at(self@.config, self@.buffer, accepts),
                resync_skips(before.config, before.buffer, accepts) == skips + resync_skips(
                    before.config,
                    self@.buffer,
                    accepts,
                ),
            decreases before.buffer.len() - skips,
        {
            // This is a stretch of invalid bytes: advance one byte and look
            // for a header again.
            proof {
                lemma_resync_step(before.config, self@.buffer, accepts);
                lemma_skips(before.buffer, skips as int, 1);
                skips = skips + 1;
            }
            self.reject();
            parser_status = self.current_status_with(validator);
        }
        proof {
            lemma_resync_step(before.config, self@.buffer, accepts);
        }
        parser_status
    }

    /// Gives the next packet, if the buffer holds one, where a validator of
    /// the caller is asked about each frame that passes the parser's own
    /// rules. Bytes at which no packet begins are discarded on the way.
    /// Where more bytes are needed to tell whether a packet begins at the
    /// head of the buffer, the parser waits there and gives nothing.
    pub fn pull_packet_with<F: Fn(&[u8]) -> bool>(&mut self, validator: &F) -> (packet: Option<
        BytesMut,
    >)
        requires
            is_validator(validator),
            old(self)@.count_has_room(),
        ensures
            final(self)@ == pull_outcome(old(self)@, verdicts(validator)).parser,
            span_of(packet) == pull_outcome(old(self)@, verdicts(validator)).packet,
            final(self).config == old(self).config,
            final(self)@.count_has_room(),
    {
        let parser_status = self.resync_with(validator);
        // If there are not enough bytes to tell whether a packet begins
        // here, wait for more.
        if parser_status != CcsdsParserStatus::ValidPacket {
            return None;
        }
        proof {
            lemma_valid_frame(self@.config, self@.buffer, verdicts(validator));
        }
        Some(self.extract())
    }

    /// Gives the next packet, if the buffer holds one. Bytes at which no
    /// packet begins are discarded on the way. Where more bytes are needed
    /// to tell whether a packet begins at the head of the buffer, the parser
    /// waits there and gives nothing.
    pub fn pull_packet(&mut self) -> (packet: Option<BytesMut>)
        requires
            old(self)@.count_has_room(),
        ensures
            final(self)@ == pull_outcome(old(self)@, accept_any()).parser,
            span_of(packet) == pull_outcome(old(self)@, accept_any()).packet,
            final(self).config == old(self).config,
            final(self)@.count_has_room(),
    {
        proof {
            lemma_accept_all();
        }
        self.pull_packet_with(&accept_all)
    }

    /// Gives the next packet as an iterator would, where a validator of the
    /// caller is asked about each frame that passes the parser's own rules.
    ///
    /// Where pulling gives nothing although the buffer could hold a frame,
    /// what stands at its head may be invalid bytes that announce a long
    /// packet: one byte is discarded and a packet is pulled once more. When
    /// there is no packet to give, the parser remembers it, and gives
    /// nothing more until it is fed bytes.
    pub fn next_with<F: Fn(&[u8]) -> bool>(&mut self, validator: &F) -> (packet: Option<BytesMut>)
        requires
            is_validator(validator),
            old(self)@.count_has_room(),
        ensures
            final(self)@ == next_outcome(old(self)@, verdicts(validator)).parser,
            span_of(packet) == next_outcome(old(self)@, verdicts(validator)).packet,
            final(self).config == old(self).config,
            final(self)@.count_has_room(),
    {
        if self.reached_end {
            return None;
        }
        match self.pull_packet_with(validator) {
            Some(bytes) => Some(bytes),
            None => {
                if self.current_status_with(validator)
                    != CcsdsParserStatus::NotEnoughBytesForHeader {
                    self.reject();
                    let packet = self.pull_packet_with(validator);
                    if packet.is_none() {
                        self.reached_end = true;
                    }
                    packet
                } else {
                    self.reached_end = true;
                    None
                }
            },
        }
    }

    /// Gives the next packet as an iterator would.
    ///
    /// Where pulling gives nothing although the buffer could hold a frame,
    /// what stands at its head may be invalid bytes that announce a long
    /// packet: one byte is discarded and a packet is pulled once more. When
    /// there is no packet to give, the parser remembers it, and gives
    /// nothing more until it is fed bytes.
    pub fn next(&mut self) -> (packet: Option<BytesMut>)
        requires
            old(self)@.count_has_room(),
        ensures
            final(self)@ == next_outcome(old(self)@, accept_any()).parser,
            span_of(packet) == next_outcome(old(self)@, accept_any()).packet,
            final(self).config == old(self).config,
            final(self)@.count_has_room(),
    {
        proof {
            lemma_accept_all();
        }
        self.next_with(&accept_all)
    }
}

} // verus!
