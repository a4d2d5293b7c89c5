//! Framing decoder for the controller's serial protocol.
//!
//! The controller sends a continuous byte stream in which each logical
//! frame is twelve payload bytes immediately followed by the four-byte
//! ASCII marker `CKIE`. Each payload byte encodes one button with an
//! active-low convention: the value 255 means released, every other
//! value means pressed. The decoder accumulates bytes in a bounded scan
//! buffer, recognizes the marker, and emits one button-state snapshot
//! per recognized frame, discarding the first twenty frames as warm-up
//! against line noise on a freshly opened connection.

use vstd::prelude::*;

verus! {

/// Number of payload bytes in one frame.
pub const PAYLOAD_LEN: usize = 12;
/// Number of marker bytes closing one frame.
pub const MARKER_LEN: usize = 4;
/// Total bytes in one frame: payload followed by marker.
pub const FRAME_LEN: usize = 16;
/// Byte value meaning "button released" (active-low convention).
pub const RELEASED: u8 = 255;
/// Number of successfully decoded frames discarded as warm-up.
pub const WARMUP_FRAMES: u64 = 20;
/// Bound on the scan buffer; beyond it the oldest bytes are dropped.
pub const MAX_SCAN: usize = 1024;
/// Bytes kept when the scan buffer overflows: one byte short of a full
/// frame, so a partially received frame survives the cut.
pub const KEEP_ON_OVERFLOW: usize = 15;

/// Immutable snapshot of the twelve controller buttons, in the order
/// fixed by their payload positions.
#[derive(Clone, Copy, Debug, PartialEq, Eq, Structural)]
pub struct ControllerState {
    pub b: bool,
    pub y: bool,
    pub select: bool,
    pub start: bool,
    pub pad_up: bool,
    pub pad_down: bool,
    pub pad_left: bool,
    pub pad_right: bool,
    pub a: bool,
    pub x: bool,
    pub left: bool,
    pub right: bool,
}

/// A payload byte decodes to "pressed" unless it is the released value.
pub open spec fn button_pressed(byte: u8) -> bool {
    byte != RELEASED
}

/// The four marker bytes, the ASCII text `CKIE`.
pub open spec fn marker() -> Seq<u8> {
    seq![0x43u8, 0x4bu8, 0x49u8, 0x45u8]
}

/// The buffer's trailing bytes equal the marker.
pub open spec fn ends_with_marker(buf: Seq<u8>) -> bool {
    buf.len() >= MARKER_LEN && buf.subrange(buf.len() - MARKER_LEN, buf.len() as int) == marker()
}

/// The buffer holds a complete frame: it ends with the marker and has
/// room for the twelve payload bytes before it.
pub open spec fn frame_complete(buf: Seq<u8>) -> bool {
    ends_with_marker(buf) && buf.len() >= FRAME_LEN
}

/// The twelve payload bytes immediately preceding the trailing marker.
pub open spec fn frame_payload(buf: Seq<u8>) -> Seq<u8>
    recommends
        frame_complete(buf),
{
    buf.subrange(buf.len() - FRAME_LEN, buf.len() - MARKER_LEN)
}

/// The snapshot encoded by a twelve-byte payload.
pub open spec fn spec_decode_payload(p: Seq<u8>) -> ControllerState
    recommends
        p.len() == PAYLOAD_LEN,
{
    ControllerState {
        b: button_pressed(p[0]),
        y: button_pressed(p[1]),
        select: button_pressed(p[2]),
        start: button_pressed(p[3]),
        pad_up: button_pressed(p[4]),
        pad_down: button_pressed(p[5]),
        pad_left: button_pressed(p[6]),
        pad_right: button_pressed(p[7]),
        a: button_pressed(p[8]),
        x: button_pressed(p[9]),
        left: button_pressed(p[10]),
        right: button_pressed(p[11]),
    }
}

/// The button at payload position `i` of a snapshot, in the protocol's
/// fixed order.
pub open spec fn button_at(s: ControllerState, i: int) -> bool
    recommends
        0 <= i < PAYLOAD_LEN,
{
    if i == 0 {
        s.b
    } else if i == 1 {
        s.y
    } else if i == 2 {
        s.select
    } else if i == 3 {
        s.start
    } else if i == 4 {
        s.pad_up
    } else if i == 5 {
        s.pad_down
    } else if i == 6 {
        s.pad_left
    } else if i == 7 {
        s.pad_right
    } else if i == 8 {
        s.a
    } else if i == 9 {
        s.x
    } else if i == 10 {
        s.left
    } else {
        s.right
    }
}

/// Active-low decoding, position by position: in any payload, the byte
/// value 255 decodes to a released button and every other value to a
/// pressed one, at every position.
pub proof fn lemma_active_low(p: Seq<u8>, i: int)
    requires
        p.len() == PAYLOAD_LEN,
        0 <= i < PAYLOAD_LEN,
    ensures
        button_at(spec_decode_payload(p), i) == (p[i] != RELEASED),
{
}

/// The scan buffer after growing by one byte, bounded: past the maximum
/// scan window only the trailing bytes are kept.
pub open spec fn clip_buffer(buf: Seq<u8>) -> Seq<u8> {
    if buf.len() > MAX_SCAN {
        buf.subrange(buf.len() - KEEP_ON_OVERFLOW, buf.len() as int)
    } else {
        buf
    }
}

/// The scan buffer after one byte arrives: cleared when the byte
/// completes a frame, otherwise grown and clipped to the scan window.
pub open spec fn step_buffer(buf: Seq<u8>, byte: u8) -> Seq<u8> {
    if frame_complete(buf.push(byte)) {
        Seq::<u8>::empty()
    } else {
        clip_buffer(buf.push(byte))
    }
}

/// The warm-up counter after one byte arrives: it counts down once per
/// decoded frame until it reaches zero.
pub open spec fn step_warmup(buf: Seq<u8>, warmup_left: u64, byte: u8) -> u64 {
    if frame_complete(buf.push(byte)) && warmup_left > 0 {
        (warmup_left - 1) as u64
    } else {
        warmup_left
    }
}

/// The snapshot emitted when one byte arrives: only a byte that
/// completes a frame past the warm-up emits one.
pub open spec fn step_output(buf: Seq<u8>, warmup_left: u64, byte: u8) -> Option<ControllerState> {
    if frame_complete(buf.push(byte)) && warmup_left == 0 {
        Some(spec_decode_payload(frame_payload(buf.push(byte))))
    } else {
        None
    }
}

/// Decodes the twelve payload bytes starting at `start` in `bytes`.
pub fn decode_payload(bytes: &Vec<u8>, start: usize) -> (s: ControllerState)
    requires
        start + PAYLOAD_LEN <= bytes@.len(),
    ensures
        s == spec_decode_payload(bytes@.subrange(start as int, start + PAYLOAD_LEN)),
{
    // Binds the length so its usize bound is in scope for the index
    // arithmetic below.
    let _len: usize = bytes.len();
    let s = ControllerState {
        b: bytes[start] != RELEASED,
        y: bytes[start + 1] != RELEASED,
        select: bytes[start + 2] != RELEASED,
        start: bytes[start + 3] != RELEASED,
        pad_up: bytes[start + 4] != RELEASED,
        pad_down: bytes[start + 5] != RELEASED,
        pad_left: bytes[start + 6] != RELEASED,
        pad_right: bytes[start + 7] != RELEASED,
        a: bytes[start + 8] != RELEASED,
        x: bytes[start + 9] != RELEASED,
        left: bytes[start + 10] != RELEASED,
        right: bytes[start + 11] != RELEASED,
    };
    proof {
        let p = bytes@.subrange(start as int, start + PAYLOAD_LEN);
        assert(forall|i: int| 0 <= i < PAYLOAD_LEN ==> p[i] == bytes@[start + i]);
    }
    s
}

/// Incremental decoder over the raw byte stream: a bounded scan buffer
/// and the warm-up countdown.
pub struct FrameDecoder {
    buf: Vec<u8>,
    warmup_left: u64,
}

impl FrameDecoder {
    /// The bytes currently held in the scan buffer.
    pub closed spec fn buffer(&self) -> Seq<u8> {
        self.buf@
    }

    /// How many more decoded frames will be discarded as warm-up.
    pub closed spec fn warmup_left(&self) -> u64 {
        self.warmup_left
    }

    /// The scan buffer never outgrows its window and the warm-up never
    /// exceeds its initial count.
    pub closed spec fn wf(&self) -> bool {
        self.buf@.len() <= MAX_SCAN && self.warmup_left <= WARMUP_FRAMES
    }

    /// A fresh decoder: empty buffer, full warm-up ahead.
    pub fn new() -> (d: FrameDecoder)
        ensures
            d.wf(),
            d.buffer() == Seq::<u8>::empty(),
            d.warmup_left() == WARMUP_FRAMES,
    {
        FrameDecoder { buf: Vec::new(), warmup_left: WARMUP_FRAMES }
    }

    /// Feeds one byte from the stream. Returns the decoded snapshot
    /// when the byte completes a frame past the warm-up; a marker with
    /// too short a prefix is a protocol anomaly and scanning goes on.
    pub fn push_byte(&mut self, byte: u8) -> (r: Option<ControllerState>)
        requires
            old(self).wf(),
        ensures
            final(self).wf(),
            final(self).buffer() == step_buffer(old(self).buffer(), byte),
            final(self).warmup_left() == step_warmup(old(self).buffer(), old(self).warmup_left(), byte),
            r == step_output(old(self).buffer(), old(self).warmup_left(), byte),
    {
        self.buf.push(byte);
        let n = self.buf.len();
        if n >= FRAME_LEN && has_marker_suffix(&self.buf) {
            let state = decode_payload(&self.buf, n - FRAME_LEN);
            self.buf = Vec::new();
            if self.warmup_left > 0 {
                self.warmup_left = self.warmup_left - 1;
                None
            } else {
                Some(state)
            }
        } else {
            if self.buf.len() > MAX_SCAN {
                let mut kept: Vec<u8> = Vec::new();
                let mut i: usize = n - KEEP_ON_OVERFLOW;
                while i < n
                    invariant
                        n == self.buf.len(),
                        MAX_SCAN < n,
                        n - KEEP_ON_OVERFLOW <= i <= n,
                        kept@ == self.buf@.subrange(n - KEEP_ON_OVERFLOW, i as int),
                    decreases n - i,
                {
                    let b = self.buf[i];
                    kept.push(b);
                    i = i + 1;
                    proof {
                        assert(kept@ =~= self.buf@.subrange(n - KEEP_ON_OVERFLOW, i as int));
                    }
                }
                self.buf = kept;
            }
            None
        }
    }
}

/// The scan buffer after feeding a whole byte sequence, byte by byte.
pub open spec fn run_buffer(buf: Seq<u8>, bytes: Seq<u8>) -> Seq<u8>
    decreases bytes.len(),
{
    if bytes.len() == 0 {
        buf
    } else {
        run_buffer(step_buffer(buf, bytes[0]), bytes.drop_first())
    }
}

/// The warm-up counter after feeding a whole byte sequence.
pub open spec fn run_warmup(buf: Seq<u8>, warmup_left: u64, bytes: Seq<u8>) -> u64
    decreases bytes.len(),
{
    if bytes.len() == 0 {
        warmup_left
    } else {
        run_warmup(
            step_buffer(buf, bytes[0]),
            step_warmup(buf, warmup_left, bytes[0]),
            bytes.drop_first(),
        )
    }
}

/// All snapshots emitted while feeding a whole byte sequence, in order.
pub open spec fn run_outputs(buf: Seq<u8>, warmup_left: u64, bytes: Seq<u8>) -> Seq<ControllerState>
    decreases bytes.len(),
{
    if bytes.len() == 0 {
        Seq::<ControllerState>::empty()
    } else {
        let rest = run_outputs(
            step_buffer(buf, bytes[0]),
            step_warmup(buf, warmup_left, bytes[0]),
            bytes.drop_first(),
        );
        match step_output(buf, warmup_left, bytes[0]) {
            Some(s) => seq![s] + rest,
            None => rest,
        }
    }
}

/// Feeding `a` then `b` is feeding `a + b`: the run distributes over
/// concatenation, and the emitted snapshots concatenate in order.
pub proof fn lemma_run_split(buf: Seq<u8>, warmup_left: u64, a: Seq<u8>, b: Seq<u8>)
    ensures
        run_buffer(buf, a + b) == run_buffer(run_buffer(buf, a), b),
        run_warmup(buf, warmup_left, a + b) == run_warmup(
            run_buffer(buf, a),
            run_warmup(buf, warmup_left, a),
            b,
        ),
        run_outputs(buf, warmup_left, a + b) == run_outputs(buf, warmup_left, a) + run_outputs(
            run_buffer(buf, a),
            run_warmup(buf, warmup_left, a),
            b,
        ),
    decreases a.len(),
{
    if a.len() == 0 {
        assert(a + b =~= b);
        assert(run_outputs(buf, warmup_left, a) + run_outputs(buf, warmup_left, b) =~= run_outputs(
            buf,
            warmup_left,
            b,
        ));
    } else {
        let buf1 = step_buffer(buf, a[0]);
        let warm1 = step_warmup(buf, warmup_left, a[0]);
        assert((a + b)[0] == a[0]);
        assert((a + b).drop_first() =~= a.drop_first() + b);
        lemma_run_split(buf1, warm1, a.drop_first(), b);
        let mid_out = run_outputs(buf1, warm1, a.drop_first());
        let tail_out = run_outputs(
            run_buffer(buf1, a.drop_first()),
            run_warmup(buf1, warm1, a.drop_first()),
            b,
        );
        match step_output(buf, warmup_left, a[0]) {
            Some(s) => {
                assert((seq![s] + mid_out) + tail_out =~= seq![s] + (mid_out + tail_out));
            },
            None => {},
        }
    }
}

/// Feeding bytes that never complete a frame and never overflow the
/// scan window only grows the buffer: nothing is emitted.
proof fn lemma_feed_incomplete(buf: Seq<u8>, warmup_left: u64, bytes: Seq<u8>)
    requires
        buf.len() + bytes.len() <= MAX_SCAN,
        forall|i: int| 1 <= i <= bytes.len() ==> !frame_complete(buf + bytes.take(i)),
    ensures
        run_buffer(buf, bytes) == buf + bytes,
        run_warmup(buf, warmup_left, bytes) == warmup_left,
        run_outputs(buf, warmup_left, bytes) == Seq::<ControllerState>::empty(),
    decreases bytes.len(),
{
    if bytes.len() == 0 {
        assert(buf + bytes =~= buf);
    } else {
        let b0 = bytes[0];
        assert(buf + bytes.take(1) =~= buf.push(b0));
        assert(!frame_complete(buf.push(b0)));
        assert(step_buffer(buf, b0) == buf.push(b0));
        assert forall|i: int| 1 <= i <= bytes.drop_first().len() implies !frame_complete(
            buf.push(b0) + bytes.drop_first().take(i),
        ) by {
            assert(buf.push(b0) + bytes.drop_first().take(i) =~= buf + bytes.take(i + 1));
        }
        lemma_feed_incomplete(buf.push(b0), warmup_left, bytes.drop_first());
        assert(buf.push(b0) + bytes.drop_first() =~= buf + bytes);
    }
}

/// One clean frame — any twelve payload bytes followed by the marker —
/// fed into an empty scan buffer decodes exactly once: nothing is
/// emitted before its last byte, and that byte empties the buffer and
/// emits the payload's snapshot, unless the warm-up discards it.
pub proof fn lemma_clean_frame(payload: Seq<u8>, warmup_left: u64)
    requires
        payload.len() == PAYLOAD_LEN,
    ensures
        run_buffer(Seq::<u8>::empty(), payload + marker()) == Seq::<u8>::empty(),
        run_warmup(Seq::<u8>::empty(), warmup_left, payload + marker()) == (if warmup_left > 0 {
            (warmup_left - 1) as u64
        } else {
            0u64
        }),
        run_outputs(Seq::<u8>::empty(), warmup_left, payload + marker()) == (if warmup_left == 0 {
            seq![spec_decode_payload(payload)]
        } else {
            Seq::<ControllerState>::empty()
        }),
{
    let frame = payload + marker();
    let head = frame.take(FRAME_LEN - 1);
    let last = frame.skip(FRAME_LEN - 1);
    assert(frame.len() == FRAME_LEN);
    assert(head + last =~= frame);
    let empty = Seq::<u8>::empty();
    assert forall|i: int| 1 <= i <= head.len() implies !frame_complete(empty + head.take(i)) by {
        assert((empty + head.take(i)).len() == i);
    }
    lemma_feed_incomplete(empty, warmup_left, head);
    assert(empty + head =~= head);
    lemma_run_split(empty, warmup_left, head, last);
    assert(last.len() == 1);
    let grown = head.push(last[0]);
    assert(grown =~= frame);
    assert(frame.subrange(frame.len() - MARKER_LEN, frame.len() as int) =~= marker());
    assert(frame_complete(grown));
    assert(frame_payload(grown) =~= payload);
    let buf2 = step_buffer(head, last[0]);
    let warm2 = step_warmup(head, warmup_left, last[0]);
    let none_left = last.drop_first();
    assert(none_left.len() == 0);
    assert(run_buffer(buf2, none_left) == buf2);
    assert(run_warmup(buf2, warm2, none_left) == warm2);
    assert(run_outputs(buf2, warm2, none_left) == Seq::<ControllerState>::empty());
    assert(run_buffer(head, last) == buf2);
    assert(run_warmup(head, warmup_left, last) == warm2);
    if warmup_left == 0 {
        assert(run_outputs(head, warmup_left, last) =~= seq![spec_decode_payload(payload)]);
        assert(run_outputs(empty, warmup_left, frame) =~= seq![spec_decode_payload(payload)]);
    } else {
        assert(run_outputs(empty, warmup_left, frame) =~= Seq::<ControllerState>::empty());
    }
}

/// The same frame repeated `k` times over the byte stream.
pub open spec fn repeat_frames(frame: Seq<u8>, k: nat) -> Seq<u8>
    decreases k,
{
    if k == 0 {
        Seq::<u8>::empty()
    } else {
        frame + repeat_frames(frame, (k - 1) as nat)
    }
}

/// Decoding is idempotent per frame: feeding the same clean frame `k`
/// times from an empty buffer emits the payload's snapshot and nothing
/// else, once per repetition past the warm-up discard.
pub proof fn lemma_repeated_frames(payload: Seq<u8>, warmup_left: u64, k: nat)
    requires
        payload.len() == PAYLOAD_LEN,
    ensures
        run_buffer(Seq::<u8>::empty(), repeat_frames(payload + marker(), k)) == Seq::<u8>::empty(),
        run_outputs(Seq::<u8>::empty(), warmup_left, repeat_frames(payload + marker(), k)).len()
            == (if k > warmup_left {
            k - warmup_left
        } else {
            0
        }),
        forall|i: int|
            0 <= i < run_outputs(
                Seq::<u8>::empty(),
                warmup_left,
                repeat_frames(payload + marker(), k),
            ).len() ==> run_outputs(
                Seq::<u8>::empty(),
                warmup_left,
                repeat_frames(payload + marker(), k),
            )[i] == spec_decode_payload(payload),
    decreases k,
{
    let empty = Seq::<u8>::empty();
    let frame = payload + marker();
    if k > 0 {
        let rest = repeat_frames(frame, (k - 1) as nat);
        assert(repeat_frames(frame, k) == frame + rest);
        lemma_run_split(empty, warmup_left, frame, rest);
        lemma_clean_frame(payload, warmup_left);
        let warm1 = if warmup_left > 0 {
            (warmup_left - 1) as u64
        } else {
            0u64
        };
        lemma_repeated_frames(payload, warm1, (k - 1) as nat);
        let first = run_outputs(empty, warmup_left, frame);
        let outs_rest = run_outputs(empty, warm1, rest);
        assert(run_outputs(empty, warmup_left, repeat_frames(frame, k)) == first + outs_rest);
    }
}

/// The buffer's trailing bytes equal the marker text.
fn has_marker_suffix(buf: &Vec<u8>) -> (r: bool)
    ensures
        r == ends_with_marker(buf@),
{
    let n = buf.len();
    if n < MARKER_LEN {
        return false;
    }
    let r = buf[n - 4] == 0x43 && buf[n - 3] == 0x4b && buf[n - 2] == 0x49 && buf[n - 1] == 0x45;
    proof {
        let tail = buf@.subrange(n - MARKER_LEN, n as int);
        if r {
            assert(tail =~= marker());
        } else {
            if tail == marker() {
                assert(buf@[n - 4] == tail[0]);
                assert(buf@[n - 3] == tail[1]);
                assert(buf@[n - 2] == tail[2]);
                assert(buf@[n - 1] == tail[3]);
            }
        }
    }
    r
}

} // verus!
