//! Length-prefix framing over a byte stream. Every frame is a `u32`
//! little-endian payload length followed by that many payload bytes; a zero
//! length is a no-op frame. The reader is incremental: bytes arrive in
//! arbitrary pieces and complete frames are taken off the front.

use vstd::prelude::*;
use vstd::assert_seqs_equal;
use vstd::bytes::{
    lemma_auto_spec_u32_to_from_le_bytes, spec_u32_from_le_bytes, spec_u32_to_le_bytes,
    u32_to_le_bytes,
};
use vstd::slice::slice_subrange;

use crate::message::{Message, MsgView};
use crate::wire::{decode_message, encodable, encode_message, read_u32, spec_decode, spec_encode};

verus! {

/// The bytes of one frame around a payload.
pub open spec fn frame_bytes(payload: Seq<u8>) -> Seq<u8> {
    spec_u32_to_le_bytes(payload.len() as u32) + payload
}

/// A message whose encoding fits behind a `u32` length prefix.
pub open spec fn framable(m: MsgView) -> bool {
    encodable(m) && spec_encode(m).len() <= u32::MAX
}

/// The byte stream carrying the given messages, one frame each.
pub open spec fn spec_frames(msgs: Seq<MsgView>) -> Seq<u8>
    decreases msgs.len(),
{
    if msgs.len() == 0 {
        Seq::empty()
    } else {
        frame_bytes(spec_encode(msgs[0])) + spec_frames(msgs.drop_first())
    }
}

/// Take one frame off the front of `b`: `None` when fewer bytes than one
/// complete frame are present; otherwise the payload (`None` for a no-op
/// frame) and the remaining stream.
pub open spec fn take_frame(b: Seq<u8>) -> Option<(Option<Seq<u8>>, Seq<u8>)> {
    if b.len() >= 4 {
        let n = spec_u32_from_le_bytes(b.take(4)) as int;
        if n == 0 {
            Some((None, b.skip(4)))
        } else if b.len() - 4 >= n {
            Some((Some(b.subrange(4, 4 + n)), b.skip(4 + n)))
        } else {
            None
        }
    } else {
        None
    }
}

/// Decode a whole stream: the messages carried by `b`, in order, when `b` is
/// exactly a sequence of well-formed frames (no-op frames skipped); `None`
/// when the stream is truncated or some payload is malformed.
pub open spec fn spec_read_all(b: Seq<u8>) -> Option<Seq<MsgView>>
    decreases b.len(),
{
    if b.len() == 0 {
        Some(Seq::empty())
    } else {
        match take_frame(b) {
            None => None,
            Some((None, rest)) => spec_read_all(rest),
            Some((Some(p), rest)) => match spec_decode(p) {
                None => None,
                Some(m) => match spec_read_all(rest) {
                    None => None,
                    Some(ms) => Some(seq![m] + ms),
                },
            },
        }
    }
}

proof fn lemma_take_frame_of_framed(p: Seq<u8>, rest: Seq<u8>)
    requires
        0 < p.len() <= u32::MAX,
    ensures
        take_frame(frame_bytes(p) + rest) == Some((Some(p), rest)),
{
    lemma_auto_spec_u32_to_from_le_bytes();
    let whole = frame_bytes(p) + rest;
    assert_seqs_equal!(whole.take(4) == spec_u32_to_le_bytes(p.len() as u32));
    assert(spec_u32_from_le_bytes(whole.take(4)) == p.len() as u32);
    assert_seqs_equal!(whole.subrange(4, 4 + p.len() as int) == p);
    assert_seqs_equal!(whole.skip(4 + p.len() as int) == rest);
}

proof fn lemma_encode_len(m: MsgView)
    ensures
        spec_encode(m).len() >= 4,
{
    lemma_auto_spec_u32_to_from_le_bytes();
}

/// Reading a stream that starts with the frames of `msgs` yields `msgs`
/// followed by whatever the rest of the stream yields.
pub proof fn lemma_frames_prepend(msgs: Seq<MsgView>, tail: Seq<u8>)
    requires
        forall|i: int| 0 <= i < msgs.len() ==> framable(#[trigger] msgs[i]),
    ensures
        spec_read_all(spec_frames(msgs) + tail) == match spec_read_all(tail) {
            Some(ms) => Some(msgs + ms),
            None => None::<Seq<MsgView>>,
        },
    decreases msgs.len(),
{
    if msgs.len() == 0 {
        assert_seqs_equal!(spec_frames(msgs) + tail == tail);
        if spec_read_all(tail) is Some {
            assert_seqs_equal!(msgs + spec_read_all(tail)->Some_0 == spec_read_all(tail)->Some_0);
        }
    } else {
        let m0 = msgs[0];
        let p0 = spec_encode(m0);
        let rest_msgs = msgs.drop_first();
        lemma_encode_len(m0);
        let whole = spec_frames(msgs) + tail;
        assert_seqs_equal!(whole == frame_bytes(p0) + (spec_frames(rest_msgs) + tail));
        lemma_take_frame_of_framed(p0, spec_frames(rest_msgs) + tail);
        crate::wire::lemma_codec_round_trip(m0);
        lemma_frames_prepend(rest_msgs, tail);
        assert(whole.len() > 0);
        match spec_read_all(tail) {
            Some(ms) => {
                assert_seqs_equal!(seq![m0] + (rest_msgs + ms) == msgs + ms);
            },
            None => {},
        }
    }
}

/// The framing boundary law: writing the frames of any messages `msgs` and
/// reading them back yields exactly `msgs`, in order, for any count and mix
/// of variants.
pub proof fn lemma_stream_round_trip(msgs: Seq<MsgView>)
    requires
        forall|i: int| 0 <= i < msgs.len() ==> framable(#[trigger] msgs[i]),
    ensures
        spec_read_all(spec_frames(msgs)) == Some(msgs),
{
    lemma_frames_prepend(msgs, Seq::empty());
    assert_seqs_equal!(spec_frames(msgs) + Seq::<u8>::empty() == spec_frames(msgs));
    assert_seqs_equal!(msgs + Seq::<MsgView>::empty() == msgs);
}

/// A stray zero-length frame anywhere between frames is consumed as a no-op
/// and does not affect what the rest of the stream decodes to.
pub proof fn lemma_heartbeat_skipped(tail: Seq<u8>)
    ensures
        spec_read_all(spec_u32_to_le_bytes(0u32) + tail) == spec_read_all(tail),
{
    lemma_auto_spec_u32_to_from_le_bytes();
    let whole = spec_u32_to_le_bytes(0u32) + tail;
    assert_seqs_equal!(whole.take(4) == spec_u32_to_le_bytes(0u32));
    assert(spec_u32_from_le_bytes(whole.take(4)) == 0);
    assert_seqs_equal!(whole.skip(4) == tail);
    assert(whole.len() > 0);
}

/// Build the complete frame for one message: length prefix, then the encoded
/// payload. `None` exactly when the payload cannot fit behind a `u32` prefix.
pub fn frame_message(m: &Message) -> (r: Option<Vec<u8>>)
    ensures
        r matches Some(b) ==> framable(m@) && b@ == frame_bytes(spec_encode(m@)),
        r is None ==> !framable(m@),
{
    let payload = encode_message(m);
    if payload.len() as u64 <= u32::MAX as u64 {
        let mut out = u32_to_le_bytes(payload.len() as u32);
        let mut p = payload;
        out.append(&mut p);
        Some(out)
    } else {
        None
    }
}

/// What one attempt to take a frame off the buffered stream produced.
pub enum ReadOutcome {
    /// A complete frame whose payload decoded to this message.
    Frame(Message),
    /// A complete zero-length no-op frame.
    Heartbeat,
    /// The buffer does not yet hold one complete frame.
    NeedMore,
    /// A complete frame whose payload is not a well-formed encoding.
    Corrupt,
}

/// An incremental frame reader: bytes are fed in as they arrive and complete
/// frames are taken off the front.
pub struct FrameBuffer {
    buf: Vec<u8>,
    start: usize,
}

impl FrameBuffer {
    /// Internal consistency: the consumed prefix never passes the end.
    pub closed spec fn wf(&self) -> bool {
        self.start <= self.buf@.len()
    }

    /// The bytes received and not yet consumed.
    pub closed spec fn pending(&self) -> Seq<u8> {
        self.buf@.skip(self.start as int)
    }

    pub fn new() -> (r: Self)
        ensures
            r.wf(),
            r.pending() == Seq::<u8>::empty(),
    {
        FrameBuffer { buf: Vec::new(), start: 0 }
    }

    /// Append newly received bytes to the pending stream.
    pub fn feed(&mut self, data: &[u8])
        requires
            old(self).wf(),
        ensures
            final(self).wf(),
            final(self).pending() == old(self).pending() + data@,
    {
        // Reclaim the consumed prefix before growing the buffer.
        if self.start == self.buf.len() {
            self.buf.clear();
            self.start = 0;
        }
        self.buf.extend_from_slice(data);
        proof {
            assert_seqs_equal!(final(self).pending() == old(self).pending() + data@);
        }
    }

    /// Take one frame off the front, if a complete one is buffered.
    pub fn read_next(&mut self) -> (r: ReadOutcome)
        requires
            old(self).wf(),
        ensures
            final(self).wf(),
            match r {
                ReadOutcome::Frame(m) => take_frame(old(self).pending()) matches Some((op, rest))
                    && op matches Some(p) && spec_decode(p) == Some(m@) && final(self).pending()
                    == rest,
                ReadOutcome::Heartbeat => take_frame(old(self).pending()) == Some(
                    (None::<Seq<u8>>, final(self).pending()),
                ),
                ReadOutcome::NeedMore => take_frame(old(self).pending()) is None
                    && final(self).pending() == old(self).pending(),
                ReadOutcome::Corrupt => take_frame(old(self).pending()) matches Some((op, _))
                    && op matches Some(p) && spec_decode(p) is None
                    && final(self).pending() == old(self).pending(),
            },
    {
        let bytes = self.buf.as_slice();
        match read_u32(bytes, self.start) {
            None => {
                proof {
                    assert(take_frame(self.pending()) is None);
                }
                ReadOutcome::NeedMore
            },
            Some((n, p0)) => {
                proof {
                    assert(self.pending().take(4) =~= self.buf@.subrange(
                        self.start as int,
                        self.start as int + 4,
                    ));
                    assert(spec_u32_from_le_bytes(self.pending().take(4)) == n);
                }
                if n == 0 {
                    let ghost before = self.pending();
                    self.start = p0;
                    proof {
                        assert(final(self).pending() =~= before.skip(4));
                    }
                    ReadOutcome::Heartbeat
                } else {
                    let avail = self.buf.len() - p0;
                    if (n as u64) <= (avail as u64) {
                        let len = n as usize;
                        let payload = slice_subrange(bytes, p0, p0 + len);
                        proof {
                            assert(payload@ =~= self.pending().subrange(4, 4 + n as int));
                        }
                        match decode_message(payload) {
                            Some(m) => {
                                let ghost before = self.pending();
                                self.start = p0 + len;
                                proof {
                                    assert(final(self).pending() =~= before.skip(4 + n as int));
                                }
                                ReadOutcome::Frame(m)
                            },
                            None => ReadOutcome::Corrupt,
                        }
                    } else {
                        proof {
                            assert(self.pending().len() - 4 < n);
                        }
                        ReadOutcome::NeedMore
                    }
                }
            },
        }
    }
}

} // verus!
