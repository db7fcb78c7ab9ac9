//! Laws of the framer: what holds of the framing rules on every buffer and
//! under every configuration.

use crate::framing::{
    extracted_span, frame_len, framing_status, header_at, next_outcome, pull_outcome,
    reject_outcome, resync_skips, span_len, span_start, status_at, ConfigView, ParserView,
};
use crate::parser::CcsdsParserStatus;
use vstd::prelude::*;

verus! {

/// Skipping twice is skipping once, and what is taken behind a skip is a
/// stretch of the whole.
pub(crate) proof fn lemma_skips(buffer: Seq<u8>, first: int, second: int)
    requires
        0 <= first,
        0 <= second,
        first + second <= buffer.len(),
    ensures
        buffer.skip(0) == buffer,
        buffer.skip(first).skip(second) == buffer.skip(first + second),
        buffer.skip(first).take(second) == buffer.subrange(first, first + second),
{
    assert(buffer.skip(0) =~= buffer);
    assert(buffer.skip(first).skip(second) =~= buffer.skip(first + second));
    assert(buffer.skip(first).take(second) =~= buffer.subrange(first, first + second));
}

/// Bytes appended to a buffer stand behind every suffix of it and change no
/// stretch of it.
proof fn lemma_appended(buffer: Seq<u8>, more: Seq<u8>, from: int, to: int)
    requires
        0 <= from <= to <= buffer.len(),
    ensures
        (buffer + more).skip(from) == buffer.skip(from) + more,
        (buffer + more).take(to) == buffer.take(to),
        (buffer + more).subrange(from, to) == buffer.subrange(from, to),
{
    assert((buffer + more).skip(from) =~= buffer.skip(from) + more);
    assert((buffer + more).take(to) =~= buffer.take(to));
    assert((buffer + more).subrange(from, to) =~= buffer.subrange(from, to));
}

/// A valid frame lies whole in a buffer that the parser looks at, and its
/// span lies in the frame.
pub proof fn lemma_valid_frame(
    config: ConfigView,
    buffer: Seq<u8>,
    accepts: spec_fn(Seq<u8>) -> bool,
)
    requires
        status_at(config, buffer, accepts) == CcsdsParserStatus::ValidPacket,
    ensures
        framing_status(config, buffer) == CcsdsParserStatus::ValidPacket,
        config.min_buffer_len() <= buffer.len(),
        config.overhead() + 7 <= frame_len(config, buffer) <= buffer.len(),
        span_start(config) + span_len(config, buffer) <= frame_len(config, buffer),
        span_len(config, buffer) >= 7,
{
}

/// One step of resynchronisation: at a malformed position, which lies in a
/// buffer that the parser looks at, one byte is discarded and the search
/// goes on behind it; at any other position nothing is discarded.
pub proof fn lemma_resync_step(
    config: ConfigView,
    buffer: Seq<u8>,
    accepts: spec_fn(Seq<u8>) -> bool,
)
    ensures
        status_at(config, buffer, accepts).spec_is_malformed() ==> buffer.len()
            >= config.min_buffer_len() >= 6 && resync_skips(config, buffer, accepts) == 1
            + resync_skips(config, buffer.skip(1), accepts),
        !status_at(config, buffer, accepts).spec_is_malformed() ==> resync_skips(
            config,
            buffer,
            accepts,
        ) == 0,
{
}

/// A buffer of fewer than seven bytes is malformed in one case only: it
/// holds six bytes, the configuration puts nothing around a packet, and a
/// bound on the packet length refuses what the six bytes announce.
pub proof fn lemma_malformed_short_buffer(
    config: ConfigView,
    buffer: Seq<u8>,
    accepts: spec_fn(Seq<u8>) -> bool,
)
    requires
        status_at(config, buffer, accepts).spec_is_malformed(),
        buffer.len() < 7,
    ensures
        buffer.len() == 6,
        config.overhead() == 0,
        status_at(config, buffer, accepts) == CcsdsParserStatus::ExceedsMaxPacketLength
            || status_at(config, buffer, accepts) == CcsdsParserStatus::BelowMinPacketLength,
        config.max_packet_length is Some || config.min_packet_length is Some,
{
}

/// Resynchronisation ends at a position that is not malformed. It discards
/// no byte of a buffer that is shorter than the shortest that the parser
/// looks at, so at least five bytes are left wherever it discards any.
pub proof fn lemma_resync(config: ConfigView, buffer: Seq<u8>, accepts: spec_fn(Seq<u8>) -> bool)
    ensures
        resync_skips(config, buffer, accepts) <= buffer.len(),
        resync_skips(config, buffer, accepts) > 0 ==> resync_skips(config, buffer, accepts)
            + config.min_buffer_len() <= buffer.len() + 1,
        config.min_buffer_len() >= 6,
        !status_at(
            config,
            buffer.skip(resync_skips(config, buffer, accepts) as int),
            accepts,
        ).spec_is_malformed(),
    decreases buffer.len(),
{
    lemma_resync_step(config, buffer, accepts);
    if resync_skips(config, buffer, accepts) > 0 {
        let rest = buffer.skip(1);
        lemma_resync(config, rest, accepts);
        lemma_skips(buffer, 1, resync_skips(config, rest, accepts) as int);
    } else {
        lemma_skips(buffer, 0, 0);
    }
}

/// Resynchronisation discards malformed positions only: every position
/// before the one at which it ends is malformed.
pub proof fn lemma_resync_discards_malformed(
    config: ConfigView,
    buffer: Seq<u8>,
    accepts: spec_fn(Seq<u8>) -> bool,
    k: int,
)
    requires
        0 <= k < resync_skips(config, buffer, accepts),
    ensures
        status_at(config, buffer.skip(k), accepts).spec_is_malformed(),
    decreases buffer.len(),
{
    lemma_resync_step(config, buffer, accepts);
    lemma_resync(config, buffer, accepts);
    if k == 0 {
        lemma_skips(buffer, 0, 0);
    } else {
        lemma_resync_discards_malformed(config, buffer.skip(1), accepts, k - 1);
        lemma_skips(buffer, 1, k - 1);
    }
}

/// The last six bytes of the buffer are not a malformed head. This is so
/// under every configuration that puts something around a packet or sets no
/// bound on the packet length.
pub open spec fn last_six_wait(
    config: ConfigView,
    buffer: Seq<u8>,
    accepts: spec_fn(Seq<u8>) -> bool,
) -> bool {
    buffer.len() >= 6 ==> !status_at(
        config,
        buffer.skip(buffer.len() - 6),
        accepts,
    ).spec_is_malformed()
}

/// Without a bound on the packet length, or with anything around a packet,
/// the last six bytes of a buffer are not a malformed head.
pub proof fn lemma_last_six_wait(
    config: ConfigView,
    buffer: Seq<u8>,
    accepts: spec_fn(Seq<u8>) -> bool,
)
    requires
        config.overhead() > 0 || (config.max_packet_length is None
            && config.min_packet_length is None),
    ensures
        last_six_wait(config, buffer, accepts),
{
    if buffer.len() >= 6 {
        let tail = buffer.skip(buffer.len() - 6);
        if status_at(config, tail, accepts).spec_is_malformed() {
            lemma_malformed_short_buffer(config, tail, accepts);
        }
    }
}

/// Where the last six bytes of the buffer are not a malformed head,
/// resynchronisation leaves at least six bytes wherever it discards any.
pub proof fn lemma_resync_leaves_six(
    config: ConfigView,
    buffer: Seq<u8>,
    accepts: spec_fn(Seq<u8>) -> bool,
)
    requires
        last_six_wait(config, buffer, accepts),
    ensures
        resync_skips(config, buffer, accepts) == 0 || resync_skips(config, buffer, accepts) + 6
            <= buffer.len(),
{
    let skips = resync_skips(config, buffer, accepts) as int;
    lemma_resync(config, buffer, accepts);
    if skips > 0 && skips + 6 > buffer.len() {
        lemma_resync_discards_malformed(config, buffer, accepts, skips - 1);
    }
}

/// Pulling without a packet: nothing but the bytes discarded leaves the
/// buffer, and more bytes are needed to go on.
pub proof fn lemma_pull_nothing(parser: ParserView, accepts: spec_fn(Seq<u8>) -> bool)
    requires
        pull_outcome(parser, accepts).packet is None,
    ensures
        ({
            let outcome = pull_outcome(parser, accepts);
            let skips = resync_skips(parser.config, parser.buffer, accepts);
            &&& skips <= parser.buffer.len()
            &&& skips == 0 || skips + parser.config.min_buffer_len() <= parser.buffer.len() + 1
            &&& outcome.parser == (ParserView {
                buffer: parser.buffer.skip(skips as int),
                skipped_bytes: parser.skipped_bytes + skips,
                ..parser
            })
            &&& status_at(parser.config, outcome.parser.buffer, accepts).spec_needs_more_bytes()
        }),
{
    lemma_resync(parser.config, parser.buffer, accepts);
}

/// Pulling takes bytes from the head of the buffer and nothing else: what is
/// left is a suffix of what was there. The bytes discarded are counted, and
/// the count and the buffer together do not grow.
pub proof fn lemma_pull_outcome(parser: ParserView, accepts: spec_fn(Seq<u8>) -> bool)
    ensures
        ({
            let outcome = pull_outcome(parser, accepts);
            let skips = resync_skips(parser.config, parser.buffer, accepts);
            let taken = parser.buffer.len() - outcome.parser.buffer.len();
            &&& outcome.parser.config == parser.config
            &&& outcome.parser.reached_end == parser.reached_end
            &&& outcome.parser.skipped_bytes == parser.skipped_bytes + skips
            &&& skips <= taken <= parser.buffer.len()
            &&& outcome.parser.buffer == parser.buffer.skip(taken)
        }),
{
    if pull_outcome(parser, accepts).packet is None {
        lemma_pull_nothing(parser, accepts);
    } else {
        lemma_pulled_packet(parser, accepts);
    }
}

/// A packet that is pulled is a stretch of the bytes that leave the buffer:
/// it begins behind the bytes that are discarded, or behind the sync bytes
/// and the prefix that follow them and are not kept, and it is at least seven
/// bytes long.
pub proof fn lemma_pulled_packet(parser: ParserView, accepts: spec_fn(Seq<u8>) -> bool)
    requires
        pull_outcome(parser, accepts).packet is Some,
    ensures
        ({
            let outcome = pull_outcome(parser, accepts);
            let span = outcome.packet->0;
            let skips = resync_skips(parser.config, parser.buffer, accepts) as int;
            let frame = frame_len(parser.config, parser.buffer.skip(skips)) as int;
            let start = skips + span_start(parser.config) as int;
            &&& outcome.parser.buffer == parser.buffer.skip(skips + frame)
            &&& skips + frame <= parser.buffer.len()
            &&& span == parser.buffer.subrange(start, start + span.len())
            &&& start + span.len() <= skips + frame
            &&& span.len() >= 7
        }),
{
    let config = parser.config;
    let skips = resync_skips(config, parser.buffer, accepts) as int;
    let rest = parser.buffer.skip(skips);
    lemma_resync(config, parser.buffer, accepts);
    lemma_valid_frame(config, rest, accepts);
    let start = span_start(config) as int;
    let len = span_len(config, rest) as int;
    lemma_skips(parser.buffer, skips, frame_len(config, rest) as int);
    lemma_skips(parser.buffer, skips, start);
    lemma_skips(rest, start, len);
    lemma_skips(parser.buffer, skips + start, len);
}

/// A status that does not ask for more bytes is settled: whatever bytes are
/// received later, the status of the same position stays what it is. So a
/// malformed position never turns into a packet, and a valid frame stays
/// valid.
pub proof fn lemma_settled_status(
    config: ConfigView,
    buffer: Seq<u8>,
    accepts: spec_fn(Seq<u8>) -> bool,
    more: Seq<u8>,
)
    requires
        !status_at(config, buffer, accepts).spec_needs_more_bytes(),
    ensures
        status_at(config, buffer + more, accepts) == status_at(config, buffer, accepts),
        header_at(config, buffer + more) == header_at(config, buffer),
        frame_len(config, buffer + more) == frame_len(config, buffer),
{
    let sync_len = config.sync_bytes.len() as int;
    lemma_appended(buffer, more, 0, sync_len);
    if buffer.len() >= frame_len(config, buffer) {
        lemma_appended(buffer, more, 0, frame_len(config, buffer) as int);
    }
}

/// Where resynchronisation ends at a position whose status is settled, it
/// discards the same bytes whatever bytes are received later.
proof fn lemma_resync_is_stable(
    config: ConfigView,
    buffer: Seq<u8>,
    accepts: spec_fn(Seq<u8>) -> bool,
    more: Seq<u8>,
)
    requires
        !status_at(
            config,
            buffer.skip(resync_skips(config, buffer, accepts) as int),
            accepts,
        ).spec_needs_more_bytes(),
    ensures
        resync_skips(config, buffer + more, accepts) == resync_skips(config, buffer, accepts),
    decreases buffer.len(),
{
    lemma_resync_step(config, buffer, accepts);
    lemma_resync_step(config, buffer + more, accepts);
    lemma_skips(buffer, 0, 0);
    if resync_skips(config, buffer, accepts) > 0 {
        let rest = buffer.skip(1);
        lemma_resync(config, rest, accepts);
        lemma_skips(buffer, 1, resync_skips(config, rest, accepts) as int);
        lemma_settled_status(config, buffer, accepts, more);
        lemma_resync_is_stable(config, rest, accepts, more);
        lemma_appended(buffer, more, 1, 1);
    } else {
        lemma_settled_status(config, buffer, accepts, more);
    }
}

/// A packet that can be pulled is not changed by bytes that are received
/// before it is pulled: the same bytes are discarded, the same packet comes
/// out, and the bytes received stand behind what is left.
pub proof fn lemma_pull_is_stable(
    parser: ParserView,
    accepts: spec_fn(Seq<u8>) -> bool,
    more: Seq<u8>,
)
    requires
        pull_outcome(parser, accepts).packet is Some,
    ensures
        ({
            let fed = ParserView { buffer: parser.buffer + more, ..parser };
            let outcome = pull_outcome(parser, accepts);
            &&& pull_outcome(fed, accepts).packet == outcome.packet
            &&& pull_outcome(fed, accepts).parser == (ParserView {
                buffer: outcome.parser.buffer + more,
                ..outcome.parser
            })
        }),
{
    let config = parser.config;
    let skips = resync_skips(config, parser.buffer, accepts) as int;
    let rest = parser.buffer.skip(skips);
    lemma_resync(config, parser.buffer, accepts);
    lemma_resync_is_stable(config, parser.buffer, accepts, more);
    lemma_settled_status(config, rest, accepts, more);
    lemma_valid_frame(config, rest, accepts);
    lemma_appended(parser.buffer, more, skips, skips);
    let frame = frame_len(config, rest) as int;
    let start = span_start(config) as int;
    lemma_appended(rest, more, frame, frame);
    lemma_appended(rest, more, start, start + span_len(config, rest) as int);
}

/// No valid frame begins anywhere in the buffer.
pub open spec fn no_packet_in(
    config: ConfigView,
    buffer: Seq<u8>,
    accepts: spec_fn(Seq<u8>) -> bool,
) -> bool {
    forall|k: int|
        0 <= k <= buffer.len() ==> #[trigger] status_at(config, buffer.skip(k), accepts)
            != CcsdsParserStatus::ValidPacket
}

/// The parser after `count` packets have been pulled, one after the other.
pub open spec fn after_pulls(
    parser: ParserView,
    accepts: spec_fn(Seq<u8>) -> bool,
    count: nat,
) -> ParserView
    decreases count,
{
    if count == 0 {
        parser
    } else {
        pull_outcome(after_pulls(parser, accepts, (count - 1) as nat), accepts).parser
    }
}

/// The parser after `next` has been called `count` times, one after the
/// other.
pub open spec fn after_nexts(
    parser: ParserView,
    accepts: spec_fn(Seq<u8>) -> bool,
    count: nat,
) -> ParserView
    decreases count,
{
    if count == 0 {
        parser
    } else {
        next_outcome(after_nexts(parser, accepts, (count - 1) as nat), accepts).parser
    }
}

/// What holds of a parser that was reached from `start` by discarding bytes
/// of a buffer in which no valid frame begins: it has the configuration of
/// `start` and a suffix of its buffer, in which no valid frame begins
/// either; the bytes that are missing are the bytes that were counted; and
/// none of them was discarded from a buffer shorter than the shortest that
/// the parser looks at, so that at least five bytes are left.
pub open spec fn discarded_from(
    parser: ParserView,
    start: ParserView,
    accepts: spec_fn(Seq<u8>) -> bool,
) -> bool {
    let discarded = parser.skipped_bytes - start.skipped_bytes;
    &&& parser.config == start.config
    &&& 0 <= discarded <= start.buffer.len()
    &&& parser.buffer == start.buffer.skip(discarded)
    &&& discarded == 0 || discarded + start.config.min_buffer_len() <= start.buffer.len() + 1
    &&& start.config.min_buffer_len() >= 6
    &&& no_packet_in(parser.config, parser.buffer, accepts)
}

/// Where no valid frame begins anywhere in a buffer, none begins anywhere in
/// a suffix of it.
proof fn lemma_no_packet_in_suffix(
    config: ConfigView,
    buffer: Seq<u8>,
    accepts: spec_fn(Seq<u8>) -> bool,
    from: int,
)
    requires
        no_packet_in(config, buffer, accepts),
        0 <= from <= buffer.len(),
    ensures
        no_packet_in(config, buffer.skip(from), accepts),
{
    assert forall|k: int| 0 <= k <= buffer.skip(from).len() implies #[trigger] status_at(
        config,
        buffer.skip(from).skip(k),
        accepts,
    ) != CcsdsParserStatus::ValidPacket by {
        lemma_skips(buffer, from, k);
    }
}

/// Discarding some bytes more keeps what `discarded_from` says.
proof fn lemma_discard_more(
    parser: ParserView,
    start: ParserView,
    accepts: spec_fn(Seq<u8>) -> bool,
    more: int,
)
    requires
        discarded_from(parser, start, accepts),
        0 <= more <= parser.buffer.len(),
        more == 0 || more + parser.config.min_buffer_len() <= parser.buffer.len() + 1,
    ensures
        discarded_from(
            ParserView {
                buffer: parser.buffer.skip(more),
                skipped_bytes: (parser.skipped_bytes + more) as nat,
                ..parser
            },
            start,
            accepts,
        ),
{
    let gone = parser.skipped_bytes - start.skipped_bytes;
    lemma_skips(start.buffer, gone, more);
    lemma_no_packet_in_suffix(parser.config, parser.buffer, accepts, more);
}

/// From a buffer in which no valid frame begins anywhere, one pull gives no
/// packet, and discards what resynchronisation discards.
proof fn lemma_pull_without_packet(
    parser: ParserView,
    start: ParserView,
    accepts: spec_fn(Seq<u8>) -> bool,
)
    requires
        discarded_from(parser, start, accepts),
    ensures
        pull_outcome(parser, accepts).packet is None,
        discarded_from(pull_outcome(parser, accepts).parser, start, accepts),
        pull_outcome(parser, accepts).parser.reached_end == parser.reached_end,
        pull_outcome(parser, accepts).parser.skipped_bytes == parser.skipped_bytes
            + resync_skips(parser.config, parser.buffer, accepts),
        status_at(
            parser.config,
            pull_outcome(parser, accepts).parser.buffer,
            accepts,
        ).spec_needs_more_bytes(),
{
    let skips = resync_skips(parser.config, parser.buffer, accepts) as int;
    lemma_resync(parser.config, parser.buffer, accepts);
    lemma_discard_more(parser, start, accepts, skips);
}

/// From a buffer in which no valid frame begins anywhere, pulling gives no
/// packet however often it is tried. The first pull discards what
/// resynchronisation discards, and the pulls after it discard nothing. No
/// byte is discarded from a buffer shorter than the shortest that the parser
/// looks at; and where the last six bytes are not a malformed head, at least
/// six bytes are left of a buffer of which any byte is discarded.
pub proof fn lemma_pulls_without_packet(
    parser: ParserView,
    accepts: spec_fn(Seq<u8>) -> bool,
    count: nat,
)
    requires
        no_packet_in(parser.config, parser.buffer, accepts),
    ensures
        pull_outcome(after_pulls(parser, accepts, count), accepts).packet is None,
        discarded_from(after_pulls(parser, accepts, count), parser, accepts),
        count > 0 ==> after_pulls(parser, accepts, count).skipped_bytes == parser.skipped_bytes
            + resync_skips(parser.config, parser.buffer, accepts),
        count > 0 ==> status_at(
            parser.config,
            after_pulls(parser, accepts, count).buffer,
            accepts,
        ).spec_needs_more_bytes(),
        last_six_wait(parser.config, parser.buffer, accepts) ==> after_pulls(
            parser,
            accepts,
            count,
        ).skipped_bytes == parser.skipped_bytes || after_pulls(parser, accepts, count).skipped_bytes
            - parser.skipped_bytes + 6 <= parser.buffer.len(),
    decreases count,
{
    if count == 0 {
        lemma_skips(parser.buffer, 0, 0);
        lemma_resync(parser.config, parser.buffer, accepts);
    } else {
        let before = after_pulls(parser, accepts, (count - 1) as nat);
        lemma_pulls_without_packet(parser, accepts, (count - 1) as nat);
        lemma_pull_without_packet(before, parser, accepts);
        lemma_resync_step(before.config, before.buffer, accepts);
        if last_six_wait(parser.config, parser.buffer, accepts) {
            lemma_resync_leaves_six(parser.config, parser.buffer, accepts);
        }
    }
    lemma_pull_without_packet(after_pulls(parser, accepts, count), parser, accepts);
}

/// From a buffer in which no valid frame begins anywhere, one call of `next`
/// gives no packet, and discards no byte of a buffer shorter than the
/// shortest that the parser looks at.
proof fn lemma_next_without_packet(
    parser: ParserView,
    start: ParserView,
    accepts: spec_fn(Seq<u8>) -> bool,
)
    requires
        discarded_from(parser, start, accepts),
    ensures
        next_outcome(parser, accepts).packet is None,
        next_outcome(parser, accepts).parser.reached_end,
        discarded_from(next_outcome(parser, accepts).parser, start, accepts),
{
    if !parser.reached_end {
        lemma_pull_without_packet(parser, start, accepts);
        let first = pull_outcome(parser, accepts).parser;
        lemma_discard_more(first, start, accepts, 0);
        lemma_skips(first.buffer, 0, 0);
        if status_at(first.config, first.buffer, accepts)
            != CcsdsParserStatus::NotEnoughBytesForHeader {
            lemma_discard_more(first, start, accepts, 1);
            lemma_pull_without_packet(reject_outcome(first), start, accepts);
            let second = pull_outcome(reject_outcome(first), accepts).parser;
            lemma_discard_more(second, start, accepts, 0);
            lemma_skips(second.buffer, 0, 0);
        }
    }
}

/// From a buffer in which no valid frame begins anywhere, `next` gives no
/// packet however often it is called, and all the calls together discard no
/// byte of a buffer shorter than the shortest that the parser looks at, so
/// that at least five bytes are left. After the first call the parser has
/// given up.
pub proof fn lemma_nexts_without_packet(
    parser: ParserView,
    accepts: spec_fn(Seq<u8>) -> bool,
    count: nat,
)
    requires
        no_packet_in(parser.config, parser.buffer, accepts),
    ensures
        next_outcome(after_nexts(parser, accepts, count), accepts).packet is None,
        discarded_from(after_nexts(parser, accepts, count), parser, accepts),
        count > 0 ==> after_nexts(parser, accepts, count).reached_end,
    decreases count,
{
    if count == 0 {
        lemma_skips(parser.buffer, 0, 0);
    } else {
        lemma_nexts_without_packet(parser, accepts, (count - 1) as nat);
        lemma_next_without_packet(
            after_nexts(parser, accepts, (count - 1) as nat),
            parser,
            accepts,
        );
    }
    lemma_next_without_packet(after_nexts(parser, accepts, count), parser, accepts);
}

} // verus!
