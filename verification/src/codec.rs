//! Streaming Space Packet codec: a resynchronizing state machine that
//! locates a literal marker in an unbounded byte stream held in a growable
//! `bytes::BytesMut` buffer and incrementally extracts length-prefixed,
//! optionally CRC-checked Space Packets.
use vstd::prelude::*;

use crate::crc16::CrcKind;
use crate::error::SpacePacketError;
use crate::{be16, be16_read, CompletePacket, CompletePacketView, SpacePacket, SpacePacketView};

verus! {

#[verifier::external_type_specification]
#[verifier::external_body]
/// Declares the outside buffer type `bytes::BytesMut` for use in
/// signatures; its contents are named by [`bytes_view`].
pub struct ExBytesMut(bytes::BytesMut);

/// The bytes currently held by a `bytes::BytesMut` buffer.
pub uninterp spec fn bytes_view(b: bytes::BytesMut) -> Seq<u8>;

/// Relies on bytes::BytesMut::len: the number of bytes the buffer holds.
#[verifier::external_body]
fn buf_len(b: &bytes::BytesMut) -> (r: usize)
    ensures
        r == bytes_view(*b).len(),
{
    b.len()
}

/// Relies on the AsRef<[u8]> impl of bytes::BytesMut: a borrowed view of
/// the buffer's bytes.
#[verifier::external_body]
fn buf_slice(b: &bytes::BytesMut) -> (r: &[u8])
    ensures
        r@ == bytes_view(*b),
{
    b.as_ref()
}

/// Relies on the bytes::Buf impl of bytes::BytesMut: advance discards the
/// first `cnt` bytes. It panics when `cnt` exceeds the buffer length, so
/// that input is excluded.
#[verifier::external_body]
fn buf_advance(b: &mut bytes::BytesMut, cnt: usize)
    requires
        cnt <= bytes_view(*old(b)).len(),
    ensures
        bytes_view(*final(b)) == bytes_view(*old(b)).skip(cnt as int),
{
    bytes::Buf::advance(b, cnt)
}

/// Relies on bytes::BytesMut::reserve: grows the capacity, leaving the
/// contents unchanged. It panics when the new capacity overflows usize, so
/// such input is excluded.
#[verifier::external_body]
fn buf_reserve(b: &mut bytes::BytesMut, additional: usize)
    requires
        bytes_view(*old(b)).len() + additional <= usize::MAX,
    ensures
        bytes_view(*final(b)) == bytes_view(*old(b)),
{
    b.reserve(additional)
}

/// Relies on bytes::BytesMut::extend_from_slice: appends the given bytes.
/// It reserves first, which panics when the new capacity overflows usize,
/// so such input is excluded.
#[verifier::external_body]
fn buf_extend(b: &mut bytes::BytesMut, extend: &[u8])
    requires
        bytes_view(*old(b)).len() + extend@.len() <= usize::MAX,
    ensures
        bytes_view(*final(b)) == bytes_view(*old(b)) + extend@,
{
    b.extend_from_slice(extend)
}

/// The decoder's two states: scanning for the synchronization marker, or
/// waiting for a complete length-prefixed frame.
#[derive(Clone, Copy, Debug, PartialEq, Eq, Structural)]
pub enum CodecState {
    /// Searching the buffer for the synchronization marker.
    Sync,
    /// The marker was consumed; waiting for a complete frame.
    Data,
}

/// The marker `m` occurs in `b` at offset `i`.
pub open spec fn marker_at(b: Seq<u8>, m: Seq<u8>, i: int) -> bool {
    &&& 0 <= i
    &&& i + m.len() <= b.len()
    &&& b.subrange(i, i + m.len()) == m
}

/// The offset of the first occurrence of `m` in `b`, if any. An empty
/// marker matches at offset zero.
pub open spec fn spec_find_marker(b: Seq<u8>, m: Seq<u8>) -> Option<int>
    decreases b.len(),
{
    if m.len() > b.len() {
        None
    } else if b.take(m.len() as int) =~= m {
        Some(0)
    } else {
        match spec_find_marker(b.skip(1), m) {
            Option::None => None,
            Option::Some(i) => Some(i + 1),
        }
    }
}

/// [`spec_find_marker`] returns exactly the first occurrence of the
/// marker: a match position with no match before it, or nothing when the
/// marker occurs nowhere.
pub proof fn lemma_find_marker_first(b: Seq<u8>, m: Seq<u8>)
    ensures
        match spec_find_marker(b, m) {
            Option::Some(i) => marker_at(b, m, i) && (forall|j: int|
                0 <= j < i ==> !marker_at(b, m, j)),
            Option::None => forall|j: int| !marker_at(b, m, j),
        },
    decreases b.len(),
{
    if m.len() > b.len() {
    } else if b.take(m.len() as int) =~= m {
        assert(b.subrange(0, m.len() as int) =~= b.take(m.len() as int));
    } else {
        let tail = b.skip(1);
        lemma_find_marker_first(tail, m);
        assert(!marker_at(b, m, 0)) by {
            assert(b.subrange(0, m.len() as int) =~= b.take(m.len() as int));
        }
        assert forall|j: int| 0 <= j && marker_at(tail, m, j) implies marker_at(b, m, j + 1) by {
            assert(b.subrange(j + 1, j + 1 + m.len()) =~= tail.subrange(j, j + m.len()));
        }
        assert forall|j: int| 1 <= j && marker_at(b, m, j) implies marker_at(tail, m, j - 1) by {
            assert(tail.subrange(j - 1, j - 1 + m.len()) =~= b.subrange(j, j + m.len()));
        }
    }
}

/// The bytes the decoder keeps while still scanning for a marker: all of
/// them while fewer than the marker length, else the last
/// `marker length - 1`, since a marker may straddle two appends.
pub open spec fn spec_sync_keep(b: Seq<u8>, m: Seq<u8>) -> Seq<u8> {
    if b.len() > m.len() - 1 {
        b.skip(b.len() - (m.len() - 1))
    } else {
        b
    }
}

/// Trimming a marker-free buffer to its last `marker length - 1` bytes
/// loses nothing: however the stream continues, the marker is found at the
/// correspondingly shifted offset — or not at all — and the bytes after it
/// are identical. This is why the decoder may discard scanned input while
/// waiting for a marker, even one split across chunk boundaries.
pub proof fn lemma_sync_keep_preserves_stream(b: Seq<u8>, m: Seq<u8>, s: Seq<u8>)
    requires
        m.len() >= 1,
        spec_find_marker(b, m) is None,
    ensures
        ({
            let keep = spec_sync_keep(b, m);
            let dropped = b.len() - keep.len();
            match spec_find_marker(b + s, m) {
                Option::Some(i) => spec_find_marker(keep + s, m) == Some(i - dropped) && (
                b + s).skip(i + m.len()) == (keep + s).skip(i - dropped + m.len()),
                Option::None => spec_find_marker(keep + s, m) is None,
            }
        }),
{
    let keep = spec_sync_keep(b, m);
    let d = b.len() - keep.len();
    assert(keep + s =~= (b + s).skip(d));
    lemma_find_marker_first(b, m);
    lemma_find_marker_first(b + s, m);
    lemma_find_marker_first(keep + s, m);
    // No marker can start in the dropped prefix: it would lie entirely
    // inside `b`, which holds none.
    assert forall|j: int| 0 <= j < d implies !marker_at(b + s, m, j) by {
        if marker_at(b + s, m, j) {
            assert((b + s).subrange(j, j + m.len()) =~= b.subrange(j, j + m.len()));
            assert(marker_at(b, m, j));
        }
    }
    // Positions at or past the dropped prefix correspond one to one.
    assert forall|j: int| d <= j && marker_at(b + s, m, j) implies marker_at(keep + s, m, j - d) by {
        assert((keep + s).subrange(j - d, j - d + m.len()) =~= (b + s).subrange(j, j + m.len()));
    }
    assert forall|j: int| 0 <= j && marker_at(keep + s, m, j) implies marker_at(b + s, m, j + d) by {
        assert((b + s).subrange(j + d, j + d + m.len()) =~= (keep + s).subrange(j, j + m.len()));
    }
    match spec_find_marker(b + s, m) {
        Option::Some(i) => {
            assert(d <= i);
            assert(marker_at(keep + s, m, i - d));
            match spec_find_marker(keep + s, m) {
                Option::Some(i2) => {
                    assert(!(i2 < i - d));
                    assert(!(i - d < i2)) by {
                        if i - d < i2 {
                            assert(marker_at(b + s, m, (i - d) + d));
                        }
                    }
                    assert((b + s).skip(i + m.len()) =~= (keep + s).skip(i - d + m.len()));
                },
                Option::None => {
                    assert(false);
                },
            }
        },
        Option::None => {
            if spec_find_marker(keep + s, m) is Some {
                let i2 = spec_find_marker(keep + s, m)->Some_0;
                assert(marker_at(b + s, m, i2 + d));
                assert(false);
            }
        },
    }
}

/// Outcome of one decoder step at the byte level: either more input is
/// needed, or the bytes of one complete frame were consumed.
pub enum StepFrame {
    /// No complete frame is buffered yet.
    NeedMore,
    /// The consumed frame bytes.
    Frame(Seq<u8>),
}

/// What the data phase does with buffer contents `b`: wait below seven
/// bytes (the minimum packet size), read the length field and wait until
/// the whole frame arrived, then consume it and return to marker search.
pub open spec fn spec_data_step(b: Seq<u8>) -> (CodecState, Seq<u8>, StepFrame) {
    if b.len() < 7 {
        (CodecState::Data, b, StepFrame::NeedMore)
    } else {
        let total = be16(b[4], b[5]) + 7;
        if b.len() < total {
            (CodecState::Data, b, StepFrame::NeedMore)
        } else {
            (CodecState::Sync, b.skip(total as int), StepFrame::Frame(b.take(total as int)))
        }
    }
}

/// What one decoder invocation does with state `state`, buffer contents
/// `b`, and marker `m`: the new state, the new buffer contents, and the
/// frame bytes consumed, if any.
pub open spec fn spec_codec_step(state: CodecState, b: Seq<u8>, m: Seq<u8>) -> (
    CodecState,
    Seq<u8>,
    StepFrame,
) {
    match state {
        CodecState::Data => spec_data_step(b),
        CodecState::Sync => match spec_find_marker(b, m) {
            Option::Some(i) => spec_data_step(b.skip(i + m.len())),
            Option::None => (CodecState::Sync, spec_sync_keep(b, m), StepFrame::NeedMore),
        },
    }
}

/// A decoder step that asked for more input loses nothing, however the
/// input was chunked: stepping again once the bytes `t` have arrived gives
/// exactly the state, buffer, and frame that a single step on the whole
/// input would have given. Applied step by step, feeding a stream in
/// arbitrarily small chunks — even ones splitting the marker — yields the
/// same frames as feeding it at once.
pub proof fn lemma_codec_step_chunk_invariant(state: CodecState, b: Seq<u8>, m: Seq<u8>, t: Seq<u8>)
    requires
        spec_codec_step(state, b, m).2 is NeedMore,
    ensures
        ({
            let (s1, b1, _) = spec_codec_step(state, b, m);
            spec_codec_step(s1, b1 + t, m) == spec_codec_step(state, b + t, m)
        }),
{
    let (s1, b1, _) = spec_codec_step(state, b, m);
    match state {
        CodecState::Data => {
            assert(b1 + t =~= b + t);
        },
        CodecState::Sync => {
            lemma_find_marker_first(b, m);
            match spec_find_marker(b, m) {
                Option::Some(i) => {
                    // The marker was already consumed; only the frame was
                    // incomplete. The same marker is still the first one in
                    // the grown input.
                    lemma_first_marker_stable_under_append(b, m, t);
                    assert((b + t).skip(i + m.len()) =~= b.skip(i + m.len()) + t);
                },
                Option::None => {
                    // No marker yet: the buffer was trimmed to its last
                    // `marker length - 1` bytes, which preserves every
                    // possible future match.
                    if m.len() == 0 {
                        assert(b.subrange(0, 0) =~= m);
                        assert(marker_at(b, m, 0));
                        assert(false);
                    }
                    let keep = spec_sync_keep(b, m);
                    let d = b.len() - keep.len();
                    lemma_sync_keep_preserves_stream(b, m, t);
                    if spec_find_marker(b + t, m) is None {
                        lemma_find_marker_first(b + t, m);
                        lemma_find_marker_first(keep + t, m);
                        assert(spec_sync_keep(keep + t, m) =~= spec_sync_keep(b + t, m)) by {
                            assert(keep + t =~= (b + t).skip(d));
                        }
                    }
                },
            }
        },
    }
}

/// A step that yields a frame consumes at least the seven bytes of a
/// minimal packet, so the buffer strictly shrinks.
proof fn lemma_step_frame_shrinks(state: CodecState, b: Seq<u8>, m: Seq<u8>)
    requires
        spec_codec_step(state, b, m).2 is Frame,
    ensures
        spec_codec_step(state, b, m).1.len() < b.len(),
{
    if state is Sync {
        lemma_find_marker_first(b, m);
    }
}

/// The first marker occurrence in `b` is still the first one after more
/// bytes are appended.
proof fn lemma_first_marker_stable_under_append(b: Seq<u8>, m: Seq<u8>, t: Seq<u8>)
    requires
        spec_find_marker(b, m) is Some,
    ensures
        spec_find_marker(b + t, m) == spec_find_marker(b, m),
{
    lemma_find_marker_first(b, m);
    lemma_find_marker_first(b + t, m);
    let i = spec_find_marker(b, m)->Some_0;
    assert(marker_at(b + t, m, i)) by {
        assert((b + t).subrange(i, i + m.len()) =~= b.subrange(i, i + m.len()));
    }
    assert forall|j: int| 0 <= j < i implies !marker_at(b + t, m, j) by {
        if marker_at(b + t, m, j) {
            assert((b + t).subrange(j, j + m.len()) =~= b.subrange(j, j + m.len()));
            assert(marker_at(b, m, j));
        }
    }
    match spec_find_marker(b + t, m) {
        Option::Some(i2) => {
            assert(!(i2 < i) && !(i < i2));
        },
        Option::None => {
            assert(false);
        },
    }
}

/// The data phase of a step that yields a frame commutes with the arrival
/// of more bytes: the same frame is consumed and the new bytes sit after
/// the remaining buffer.
proof fn lemma_data_step_frame_append(b: Seq<u8>, t: Seq<u8>)
    requires
        spec_data_step(b).2 is Frame,
    ensures
        ({
            let (s1, b1, f) = spec_data_step(b);
            spec_data_step(b + t) == (s1, b1 + t, f)
        }),
{
    let total = be16(b[4], b[5]) + 7;
    assert((b + t)[4] == b[4] && (b + t)[5] == b[5]);
    assert((b + t).take(total as int) =~= b.take(total as int));
    assert((b + t).skip(total as int) =~= b.skip(total as int) + t);
}

/// A step that yields a frame commutes with the arrival of more bytes: the
/// same frame is consumed and the new bytes sit after the remaining
/// buffer.
proof fn lemma_step_frame_append(state: CodecState, b: Seq<u8>, m: Seq<u8>, t: Seq<u8>)
    requires
        spec_codec_step(state, b, m).2 is Frame,
    ensures
        ({
            let (s1, b1, f) = spec_codec_step(state, b, m);
            spec_codec_step(state, b + t, m) == (s1, b1 + t, f)
        }),
{
    match state {
        CodecState::Data => {
            lemma_data_step_frame_append(b, t);
        },
        CodecState::Sync => {
            let i = spec_find_marker(b, m)->Some_0;
            lemma_find_marker_first(b, m);
            lemma_first_marker_stable_under_append(b, m, t);
            assert((b + t).skip(i + m.len()) =~= b.skip(i + m.len()) + t);
            lemma_data_step_frame_append(b.skip(i + m.len()), t);
        },
    }
}

/// Runs decoder steps on one buffer until a step reports that more input
/// is needed, collecting the consumed frames in order.
pub open spec fn spec_drain(state: CodecState, b: Seq<u8>, m: Seq<u8>) -> (
    CodecState,
    Seq<u8>,
    Seq<Seq<u8>>,
)
    decreases b.len(),
    via spec_drain_decreases
{
    let (s1, b1, f) = spec_codec_step(state, b, m);
    match f {
        StepFrame::NeedMore => (s1, b1, Seq::empty()),
        StepFrame::Frame(data) => {
            let (s2, b2, frames) = spec_drain(s1, b1, m);
            (s2, b2, seq![data] + frames)
        },
    }
}

#[via_fn]
proof fn spec_drain_decreases(state: CodecState, b: Seq<u8>, m: Seq<u8>) {
    if spec_codec_step(state, b, m).2 is Frame {
        lemma_step_frame_shrinks(state, b, m);
    }
}

/// Draining a buffer, letting the bytes `t` arrive, and draining again
/// yields the same frames in the same order — and the same final state and
/// buffer — as draining the whole input at once.
pub proof fn lemma_drain_append(state: CodecState, b: Seq<u8>, m: Seq<u8>, t: Seq<u8>)
    ensures
        ({
            let (s1, b1, fs1) = spec_drain(state, b, m);
            let (s2, b2, fs2) = spec_drain(s1, b1 + t, m);
            spec_drain(state, b + t, m) == (s2, b2, fs1 + fs2)
        }),
    decreases b.len(),
{
    let (sa, ba, f) = spec_codec_step(state, b, m);
    match f {
        StepFrame::NeedMore => {
            lemma_codec_step_chunk_invariant(state, b, m, t);
            let (sx, bx, fx) = spec_codec_step(state, b + t, m);
            match fx {
                StepFrame::NeedMore => {
                    assert(Seq::<Seq<u8>>::empty() + Seq::<Seq<u8>>::empty() =~= Seq::<
                        Seq<u8>,
                    >::empty());
                },
                StepFrame::Frame(data) => {
                    let (s2, b2, frames) = spec_drain(sx, bx, m);
                    assert(Seq::<Seq<u8>>::empty() + (seq![data] + frames) =~= seq![data]
                        + frames);
                },
            }
        },
        StepFrame::Frame(data) => {
            lemma_step_frame_shrinks(state, b, m);
            lemma_step_frame_append(state, b, m, t);
            lemma_drain_append(sa, ba, m, t);
            let (s1, b1, fs1) = spec_drain(sa, ba, m);
            let (s2, b2, fs2) = spec_drain(s1, b1 + t, m);
            assert((seq![data] + fs1) + fs2 =~= seq![data] + (fs1 + fs2));
        },
    }
}

/// The concatenation of a sequence of chunks.
pub open spec fn spec_concat_chunks(chunks: Seq<Seq<u8>>) -> Seq<u8>
    decreases chunks.len(),
{
    if chunks.len() == 0 {
        Seq::empty()
    } else {
        chunks[0] + spec_concat_chunks(chunks.skip(1))
    }
}

/// Feeds the chunks into the decoder one at a time, draining it to
/// quiescence after each, and collects every consumed frame in order.
pub open spec fn spec_feed_chunks(
    state: CodecState,
    b: Seq<u8>,
    m: Seq<u8>,
    chunks: Seq<Seq<u8>>,
) -> (CodecState, Seq<u8>, Seq<Seq<u8>>)
    decreases chunks.len(),
{
    if chunks.len() == 0 {
        (state, b, Seq::empty())
    } else {
        let (s1, b1, fs1) = spec_drain(state, b + chunks[0], m);
        let (s2, b2, fs2) = spec_feed_chunks(s1, b1, m, chunks.skip(1));
        (s2, b2, fs1 + fs2)
    }
}

/// However a byte stream is cut into chunks — even in the middle of the
/// marker or of a frame — feeding the chunks one at a time yields exactly
/// the state, the leftover bytes, and the frames of one run over the whole
/// stream. Noise before a marker is skipped either way, so no frame is
/// lost or invented by rechunking.
pub proof fn lemma_chunked_feeding_equals_whole(
    state: CodecState,
    b: Seq<u8>,
    m: Seq<u8>,
    chunks: Seq<Seq<u8>>,
)
    requires
        chunks.len() >= 1,
    ensures
        spec_feed_chunks(state, b, m, chunks) == spec_drain(
            state,
            b + spec_concat_chunks(chunks),
            m,
        ),
    decreases chunks.len(),
{
    let c0 = chunks[0];
    let rest = chunks.skip(1);
    let (s1, b1, fs1) = spec_drain(state, b + c0, m);
    if chunks.len() == 1 {
        assert(spec_feed_chunks(s1, b1, m, rest) == (s1, b1, Seq::<Seq<u8>>::empty()));
        assert(spec_concat_chunks(rest) =~= Seq::<u8>::empty());
        assert(b + spec_concat_chunks(chunks) =~= b + c0);
        assert(fs1 + Seq::<Seq<u8>>::empty() =~= fs1);
    } else {
        lemma_chunked_feeding_equals_whole(s1, b1, m, rest);
        lemma_drain_append(state, b + c0, m, spec_concat_chunks(rest));
        assert(b + spec_concat_chunks(chunks) =~= (b + c0) + spec_concat_chunks(rest));
    }
}

/// The decoded value that one consumed frame yields under the codec's CRC
/// setting, or the error it denotes.
pub open spec fn spec_frame_result(crc: Option<CrcKind>, data: Seq<u8>) -> Result<
    CompletePacketView,
    SpacePacketError,
> {
    match crc {
        Option::None => match SpacePacketView::spec_decode(data) {
            Ok(p) => Ok(CompletePacketView::Valid(p)),
            Err(e) => Err(e),
        },
        Option::Some(kind) => SpacePacketView::spec_decode_crc(kind, data),
    }
}

/// A codec used to extract Space Packets from a byte stream and to frame
/// them for transmission. It sweeps the input for the configured
/// synchronization marker, then parses one length-prefixed packet,
/// optionally CRC-checked, and resynchronizes after every frame.
pub struct SpacePacketCodec {
    /// The literal synchronization marker preceding each frame. May be
    /// empty, in which case it matches immediately.
    pub sync_marker: Vec<u8>,
    /// The decoder's current state.
    pub state: CodecState,
    /// When set, each frame carries a CRC-16 trailer checked under this
    /// parameterization.
    pub crc: Option<CrcKind>,
}

impl SpacePacketCodec {
    /// Creates a codec that scans for `sync_marker` and, when `crc` is
    /// set, validates each frame's CRC-16 trailer.
    pub fn new(sync_marker: Vec<u8>, crc: Option<CrcKind>) -> (r: Self)
        ensures
            r.sync_marker@ == sync_marker@,
            r.state == CodecState::Sync,
            r.crc == crc,
    {
        SpacePacketCodec { sync_marker, state: CodecState::Sync, crc }
    }

    /// Finds the first occurrence of the synchronization marker in
    /// `source`. An empty marker matches at offset zero.
    fn find_sync(&self, source: &[u8]) -> (r: Option<usize>)
        ensures
            match r {
                Some(i) => spec_find_marker(source@, self.sync_marker@) == Some(i as int),
                None => spec_find_marker(source@, self.sync_marker@) is None,
            },
    {
        let mlen = self.sync_marker.len();
        if mlen == 0 {
            assert(source@.take(0) =~= self.sync_marker@);
            return Some(0);
        }
        if source.len() < mlen {
            return None;
        }
        let mut i: usize = 0;
        while i <= source.len() - mlen
            invariant
                mlen == self.sync_marker@.len(),
                source@.len() >= mlen >= 1,
                i <= source@.len() - mlen + 1,
                forall|j: int| 0 <= j < i ==> !marker_at(source@, self.sync_marker@, j),
            decreases source@.len() - i,
        {
            if matches_at(source, self.sync_marker.as_slice(), i) {
                proof {
                    lemma_find_marker_first(source@, self.sync_marker@);
                    let found = spec_find_marker(source@, self.sync_marker@);
                    if found is None {
                        assert(false);
                    } else {
                        let i0 = found->Some_0;
                        assert(!(i0 < i) && !(i < i0));
                    }
                }
                return Some(i);
            }
            i += 1;
        }
        proof {
            lemma_find_marker_first(source@, self.sync_marker@);
            assert forall|j: int| !marker_at(source@, self.sync_marker@, j) by {
                if 0 <= j <= source@.len() - mlen {
                    assert(!marker_at(source@, self.sync_marker@, j));
                }
            }
            if spec_find_marker(source@, self.sync_marker@) is Some {
                assert(false);
            }
        }
        None
    }

    /// One step of the streaming decoder over the caller-owned growable
    /// buffer: skip input up to and past the marker, then wait for a
    /// complete length-prefixed frame, consume it, return to marker
    /// search, and decode it — a checksum mismatch is a decoded value, not
    /// an error. Returns `Ok(None)` whenever more input is needed.
    pub fn decode_frame(&mut self, buffer: &mut bytes::BytesMut) -> (r: Result<
        Option<CompletePacket>,
        SpacePacketError,
    >)
        ensures
            ({
                let (s2, b2, f) = spec_codec_step(
                    old(self).state,
                    bytes_view(*old(buffer)),
                    old(self).sync_marker@,
                );
                &&& final(self).sync_marker@ == old(self).sync_marker@
                &&& final(self).crc == old(self).crc
                &&& final(self).state == s2
                &&& bytes_view(*final(buffer)) == b2
                &&& match f {
                    StepFrame::NeedMore => r == Ok::<Option<CompletePacket>, SpacePacketError>(
                        None,
                    ),
                    StepFrame::Frame(data) => match spec_frame_result(old(self).crc, data) {
                        Ok(cpv) => (r matches Ok(Some(cp)) && cp@ == cpv),
                        Err(e) => r == Err::<Option<CompletePacket>, SpacePacketError>(e),
                    },
                }
            }),
    {
        let ghost b0 = bytes_view(*buffer);
        let ghost m = self.sync_marker@;
        let initial_len = buf_len(buffer);
        if self.state == CodecState::Sync {
            let found = {
                let src = buf_slice(buffer);
                self.find_sync(src)
            };
            match found {
                Some(index) => {
                    proof {
                        lemma_find_marker_first(b0, m);
                    }
                    buf_advance(buffer, index + self.sync_marker.len());
                    self.state = CodecState::Data;
                },
                None => {
                    proof {
                        lemma_find_marker_first(b0, m);
                        if m.len() == 0 {
                            assert(b0.subrange(0, 0) =~= m);
                            assert(marker_at(b0, m, 0));
                            assert(false);
                        }
                    }
                    if initial_len > self.sync_marker.len() - 1 {
                        buf_advance(buffer, initial_len - (self.sync_marker.len() - 1));
                    }
                    return Ok(None);
                },
            }
        }
        // Data phase: the buffer now starts where a frame should begin.
        let len = buf_len(buffer);
        if len < 7 {
            return Ok(None);
        }
        let packet_length: usize = {
            let src = buf_slice(buffer);
            be16_read(src[4], src[5]) as usize + 7
        };
        if len < packet_length {
            // The full frame has not arrived: make room for it and ask for
            // more bytes.
            buf_reserve(buffer, packet_length - len);
            return Ok(None);
        }
        let data: Vec<u8> = {
            let src = buf_slice(buffer);
            vstd::slice::slice_to_vec(vstd::slice::slice_subrange(src, 0, packet_length))
        };
        buf_advance(buffer, packet_length);
        // A frame-sized span was consumed whether or not it decodes:
        // return to marker search so one corrupted length field costs at
        // most one frame.
        self.state = CodecState::Sync;
        match self.crc {
            None => {
                match SpacePacket::decode(data.as_slice()) {
                    Ok(p) => Ok(Some(CompletePacket::Valid(p))),
                    Err(e) => {
                        proof {
                            assert(false);
                        }
                        Err(e)
                    },
                }
            },
            Some(kind) => {
                match SpacePacket::decode_crc(data.as_slice(), kind) {
                    Ok(cp) => Ok(Some(cp)),
                    Err(e) => Err(e),
                }
            },
        }
    }

    /// Frames `item` for transmission: appends the synchronization marker
    /// and then the packet's encoding — CRC-protected when the codec was
    /// built with a CRC parameterization — onto `dst`.
    pub fn encode_frame(&self, item: &SpacePacket, dst: &mut bytes::BytesMut)
        requires
            match self.crc {
                Option::None => item@.wf(),
                Option::Some(_) => item@.wf_crc(),
            },
            bytes_view(*old(dst)).len() + self.sync_marker@.len() + item@.payload.len() + 8
                <= usize::MAX,
        ensures
            bytes_view(*final(dst)) == bytes_view(*old(dst)) + self.sync_marker@ + (match self.crc {
                Option::None => item@.spec_encode(),
                Option::Some(kind) => item@.spec_encode_crc(kind),
            }),
    {
        let bytes: Vec<u8> = match self.crc {
            None => item.encode(),
            Some(kind) => item.encode_crc(kind),
        };
        buf_reserve(dst, self.sync_marker.len() + bytes.len());
        buf_extend(dst, self.sync_marker.as_slice());
        buf_extend(dst, bytes.as_slice());
    }
}

/// Whether the marker occurs in `source` at offset `i`.
fn matches_at(source: &[u8], marker: &[u8], i: usize) -> (r: bool)
    requires
        i + marker@.len() <= source@.len(),
    ensures
        r == marker_at(source@, marker@, i as int),
{
    let n = source.len();
    let mut k: usize = 0;
    while k < marker.len()
        invariant
            i + marker@.len() <= source@.len(),
            source@.len() == n,
            k <= marker@.len(),
            forall|t: int| 0 <= t < k ==> source@[i + t] == marker@[t],
        decreases marker@.len() - k,
    {
        if source[i + k] != marker[k] {
            proof {
                let ki: int = k as int;
                if marker_at(source@, marker@, i as int) {
                    assert(source@.subrange(i as int, i + marker@.len())[ki] == marker@[ki]);
                }
            }
            return false;
        }
        k += 1;
    }
    proof {
        assert(source@.subrange(i as int, i + marker@.len()) =~= marker@);
    }
    true
}

} // verus!
