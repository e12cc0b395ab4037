//! beast — decoding of the Beast binary protocol.
//!
//! Beast wraps Mode S messages for transport over TCP:
//! `<0x1A> <type> <6-byte MLAT timestamp> <1-byte signal> <message bytes>`.
//!
//! Type bytes:
//! - `0x31` ('1') → 2-byte Mode-AC message
//! - `0x32` ('2') → 7-byte Mode-S short message
//! - `0x33` ('3') → 14-byte Mode-S long message (includes ADS-B)
//!
//! Any `0x1A` within the payload is escaped as `0x1A 0x1A`.
//!
//! The decoder here is a state machine fed one byte at a time; whoever owns
//! the connection reads the bytes and hands them over.

use vstd::prelude::*;
use crate::clock::instant_now;

verus! {

/// The start-of-frame marker, also the escape byte inside a frame.
pub const FRAME_MARK: u8 = 0x1A;

/// A decoded Beast frame.
#[derive(Debug, Clone)]
pub struct BeastFrame {
    /// MLAT 48-bit timestamp (12 MHz clock ticks)
    pub mlat_timestamp: u64,
    /// Signal level (0–255)
    pub signal: u8,
    /// Raw Mode S message bytes (2, 7, or 14 bytes)
    pub message: Vec<u8>,
    /// When this frame was decoded (local monotonic clock)
    pub received_at: std::time::Instant,
}

#[verifier::external_type_specification]
#[verifier::external_body]
pub struct ExIoError(std::io::Error);

/// Errors from reading a Beast stream.
#[derive(Debug)]
pub enum BeastError {
    Io(std::io::Error),
    ConnectionClosed,
    InvalidType(u8),
}

impl BeastError {
    /// The error for a failed read: an unexpected end of file means the
    /// peer closed the connection; anything else is an I/O error.
    pub fn from_read_failure(err: std::io::Error, unexpected_eof: bool) -> (r: BeastError)
        ensures
            unexpected_eof ==> r is ConnectionClosed,
            !unexpected_eof ==> r == BeastError::Io(err),
    {
        if unexpected_eof {
            BeastError::ConnectionClosed
        } else {
            BeastError::Io(err)
        }
    }
}

/// Length of the Mode S message carried by a frame of type `t`.
pub open spec fn message_len(t: u8) -> Option<nat> {
    if t == 0x31 {
        Some(2)
    } else if t == 0x32 {
        Some(7)
    } else if t == 0x33 {
        Some(14)
    } else {
        None
    }
}

/// Where the decoder stands in the byte stream.
#[derive(Debug, Clone, Copy, PartialEq, Eq, Structural)]
pub enum BeastPhase {
    /// Looking for a start-of-frame marker; other bytes are skipped.
    Scan,
    /// A marker was seen; the next (unescaped) byte is the frame type.
    Kind,
    /// Reading timestamp, signal and message of a frame of known type.
    Body,
}

/// The decoder's state as the protocol sees it.
#[verifier::ext_equal]
pub struct DecoderModel {
    pub phase: BeastPhase,
    /// The previous byte was a `0x1A` inside a frame, not yet paired.
    pub escape: bool,
    /// Message length of the frame being read (0 outside a frame body).
    pub msg_len: nat,
    /// Unescaped payload bytes read so far (timestamp, signal, message).
    pub body: Seq<u8>,
}

/// The fields of a decoded frame, without its arrival time.
#[verifier::ext_equal]
pub struct FrameData {
    pub mlat_timestamp: u64,
    pub signal: u8,
    pub message: Seq<u8>,
}

/// The state between frames.
pub open spec fn idle() -> DecoderModel {
    DecoderModel { phase: BeastPhase::Scan, escape: false, msg_len: 0, body: Seq::empty() }
}

/// The states the decoder can be in.
pub open spec fn model_ok(m: DecoderModel) -> bool {
    match m.phase {
        BeastPhase::Scan => !m.escape && m.msg_len == 0 && m.body.len() == 0,
        BeastPhase::Kind => m.msg_len == 0 && m.body.len() == 0,
        BeastPhase::Body => (m.msg_len == 2 || m.msg_len == 7 || m.msg_len == 14) && m.body.len()
            < 7 + m.msg_len,
    }
}

/// Big-endian value of the first six bytes of `s`.
pub open spec fn be48(s: Seq<u8>) -> u64 {
    (s[0] as u64) << 40u64 | (s[1] as u64) << 32u64 | (s[2] as u64) << 24u64 | (s[3] as u64)
        << 16u64 | (s[4] as u64) << 8u64 | (s[5] as u64)
}

/// The frame carried by a complete payload.
pub open spec fn frame_of(body: Seq<u8>) -> FrameData {
    FrameData { mlat_timestamp: be48(body), signal: body[6], message: body.subrange(7, body.len() as int) }
}

/// Accept one more unescaped payload byte.
pub open spec fn take_payload(m: DecoderModel, b: u8) -> (DecoderModel, Option<FrameData>) {
    let body = m.body.push(b);
    if body.len() == 7 + m.msg_len {
        (idle(), Some(frame_of(body)))
    } else {
        (DecoderModel { phase: BeastPhase::Body, escape: false, msg_len: m.msg_len, body }, None)
    }
}

/// One step of the protocol: the state after byte `b`, and the frame that
/// this byte completes, if any.
pub open spec fn step(m: DecoderModel, b: u8) -> (DecoderModel, Option<FrameData>) {
    match m.phase {
        BeastPhase::Scan => if b == FRAME_MARK {
            (DecoderModel { phase: BeastPhase::Kind, escape: false, msg_len: 0, body: Seq::empty() }, None)
        } else {
            (m, None)
        },
        BeastPhase::Kind => if m.escape {
            // the type byte is the escaped marker, which names no frame type
            (idle(), None)
        } else if b == FRAME_MARK {
            (DecoderModel { phase: BeastPhase::Kind, escape: true, msg_len: 0, body: Seq::empty() }, None)
        } else {
            match message_len(b) {
                Some(l) => (DecoderModel { phase: BeastPhase::Body, escape: false, msg_len: l, body: Seq::empty() }, None),
                None => (idle(), None),
            }
        },
        BeastPhase::Body => if m.escape {
            // a marker inside a frame stands for a payload `0x1A`, whether or
            // not the byte after it doubles it
            take_payload(m, FRAME_MARK)
        } else if b == FRAME_MARK {
            (DecoderModel { phase: BeastPhase::Body, escape: true, msg_len: m.msg_len, body: m.body }, None)
        } else {
            take_payload(m, b)
        },
    }
}

/// The state after feeding `bytes` from state `m`, and the frames decoded
/// on the way, in order.
pub open spec fn run(m: DecoderModel, bytes: Seq<u8>) -> (DecoderModel, Seq<FrameData>)
    decreases bytes.len(),
{
    if bytes.len() == 0 {
        (m, Seq::empty())
    } else {
        let (m1, frames) = run(m, bytes.drop_last());
        let (m2, out) = step(m1, bytes.last());
        match out {
            Some(f) => (m2, frames.push(f)),
            None => (m2, frames),
        }
    }
}

/// The fields of an executable frame.
pub open spec fn frame_data(f: BeastFrame) -> FrameData {
    FrameData { mlat_timestamp: f.mlat_timestamp, signal: f.signal, message: f.message@ }
}

/// Every step keeps the decoder in a state it can be in.
pub proof fn lemma_step_ok(m: DecoderModel, b: u8)
    requires
        model_ok(m),
    ensures
        model_ok(step(m, b).0),
{
}

/// Inside a frame, a marker stands for a payload `0x1A` whatever byte
/// follows it: the byte after a lone marker gives the same as a second
/// marker, and in the type position an escaped marker names no frame type,
/// so the decoder goes back to looking for a frame.
pub proof fn lemma_lone_marker_is_payload(m: DecoderModel, b: u8)
    requires
        model_ok(m),
        m.escape,
    ensures
        m.phase == BeastPhase::Body ==> step(m, b) == step(m, FRAME_MARK),
        m.phase == BeastPhase::Body && m.body.len() + 1 < 7 + m.msg_len ==> step(m, b).0.body == m.body.push(
            FRAME_MARK,
        ) && step(m, b).1 is None,
        m.phase == BeastPhase::Kind ==> step(m, b).0 == idle() && step(m, b).1 is None,
{
}

/// A marker between frames starts a frame; any other byte is skipped.
pub proof fn lemma_scan_waits_for_marker(b: u8)
    ensures
        b == FRAME_MARK ==> step(idle(), b).0.phase == BeastPhase::Kind && step(idle(), b).1 is None,
        b != FRAME_MARK ==> step(idle(), b) == (idle(), None::<FrameData>),
{
}

// ───────────────────────────── Encoding ─────────────────────────────

/// A payload byte as it travels on the wire: `0x1A` is doubled.
pub open spec fn escape_byte(b: u8) -> Seq<u8> {
    if b == FRAME_MARK {
        seq![FRAME_MARK, FRAME_MARK]
    } else {
        seq![b]
    }
}

/// A payload as it travels on the wire.
pub open spec fn escape_payload(s: Seq<u8>) -> Seq<u8>
    decreases s.len(),
{
    if s.len() == 0 {
        Seq::empty()
    } else {
        escape_payload(s.drop_last()) + escape_byte(s.last())
    }
}

/// The six big-endian bytes of a 48-bit timestamp.
pub open spec fn be48_bytes(t: u64) -> Seq<u8> {
    seq![
        (t >> 40u64) as u8,
        (t >> 32u64) as u8,
        (t >> 24u64) as u8,
        (t >> 16u64) as u8,
        (t >> 8u64) as u8,
        t as u8,
    ]
}

/// The wire form of a frame of type `kind`.
pub open spec fn encode_frame(kind: u8, f: FrameData) -> Seq<u8> {
    seq![FRAME_MARK, kind] + escape_payload(be48_bytes(f.mlat_timestamp) + seq![f.signal] + f.message)
}

/// Feeding `a` then `b` is feeding `a + b`.
pub proof fn lemma_run_concat(m: DecoderModel, a: Seq<u8>, b: Seq<u8>)
    ensures
        run(m, a + b).0 == run(run(m, a).0, b).0,
        run(m, a + b).1 == run(m, a).1 + run(run(m, a).0, b).1,
    decreases b.len(),
{
    if b.len() == 0 {
        assert(a + b =~= a);
        assert(run(m, a).1 + run(run(m, a).0, b).1 =~= run(m, a).1);
    } else {
        lemma_run_concat(m, a, b.drop_last());
        assert((a + b).drop_last() =~= a + b.drop_last());
        assert((a + b).last() == b.last());
        let m1 = run(m, a).0;
        let (m2, out) = step(run(m1, b.drop_last()).0, b.last());
        match out {
            Some(f) => {
                assert(run(m, a).1 + run(m1, b.drop_last()).1.push(f) =~= (run(m, a).1 + run(
                    m1,
                    b.drop_last(),
                ).1).push(f));
            },
            None => {},
        }
    }
}

/// Bytes other than the marker leave a decoder between frames untouched.
pub proof fn lemma_run_skips_noise(g: Seq<u8>)
    requires
        !g.contains(FRAME_MARK),
    ensures
        run(idle(), g).0 == idle(),
        run(idle(), g).1 == Seq::<FrameData>::empty(),
    decreases g.len(),
{
    if g.len() > 0 {
        assert(!g.drop_last().contains(FRAME_MARK)) by {
            if g.drop_last().contains(FRAME_MARK) {
                let k = choose|k: int| 0 <= k < g.drop_last().len() && g.drop_last()[k] == FRAME_MARK;
                assert(g[k] == FRAME_MARK);
            }
        }
        lemma_run_skips_noise(g.drop_last());
        assert(g[g.len() - 1] != FRAME_MARK);
    }
}

/// Reading escaped payload bytes inside a frame appends them to the body,
/// as long as the frame is not complete.
pub proof fn lemma_run_payload(l: nat, p: Seq<u8>, x: Seq<u8>)
    requires
        p.len() + x.len() < 7 + l,
    ensures
        run(DecoderModel { phase: BeastPhase::Body, escape: false, msg_len: l, body: p }, escape_payload(x)).0
            == (DecoderModel { phase: BeastPhase::Body, escape: false, msg_len: l, body: p + x }),
        run(DecoderModel { phase: BeastPhase::Body, escape: false, msg_len: l, body: p }, escape_payload(x)).1
            == Seq::<FrameData>::empty(),
    decreases x.len(),
{
    let m = DecoderModel { phase: BeastPhase::Body, escape: false, msg_len: l, body: p };
    if x.len() == 0 {
        assert(p + x =~= p);
    } else {
        let y = x.drop_last();
        let b = x.last();
        lemma_run_payload(l, p, y);
        lemma_run_concat(m, escape_payload(y), escape_byte(b));
        let mid = DecoderModel { phase: BeastPhase::Body, escape: false, msg_len: l, body: p + y };
        reveal_with_fuel(run, 3);
        assert((p + y).push(b) =~= p + x);
        if b == FRAME_MARK {
            let e = escape_byte(b);
            assert(e.drop_last() =~= seq![FRAME_MARK]);
            assert(seq![FRAME_MARK].drop_last() =~= Seq::<u8>::empty());
            assert(run(mid, e.drop_last()).0 == step(mid, FRAME_MARK).0);
        } else {
            assert(escape_byte(b).drop_last() =~= Seq::<u8>::empty());
        }
        assert(Seq::<FrameData>::empty() + Seq::<FrameData>::empty() =~= Seq::<FrameData>::empty());
    }
}

/// The last payload byte completes the frame and returns to idle.
pub proof fn lemma_run_last_payload_byte(l: nat, p: Seq<u8>, b: u8)
    requires
        p.len() + 1 == 7 + l,
    ensures
        run(DecoderModel { phase: BeastPhase::Body, escape: false, msg_len: l, body: p }, escape_byte(b)).0
            == idle(),
        run(DecoderModel { phase: BeastPhase::Body, escape: false, msg_len: l, body: p }, escape_byte(b)).1
            == seq![frame_of(p.push(b))],
{
    let m = DecoderModel { phase: BeastPhase::Body, escape: false, msg_len: l, body: p };
    reveal_with_fuel(run, 3);
    if b == FRAME_MARK {
        let e = escape_byte(b);
        assert(e.drop_last() =~= seq![FRAME_MARK]);
        assert(seq![FRAME_MARK].drop_last() =~= Seq::<u8>::empty());
    } else {
        assert(escape_byte(b).drop_last() =~= Seq::<u8>::empty());
    }
    assert(Seq::<FrameData>::empty().push(frame_of(p.push(b))) =~= seq![frame_of(p.push(b))]);
}

proof fn lemma_be48_roundtrip(t: u64)
    requires
        t < 0x1_0000_0000_0000,
    ensures
        be48(be48_bytes(t)) == t,
{
    let s = be48_bytes(t);
    let b0 = (t >> 40u64) as u8;
    let b1 = (t >> 32u64) as u8;
    let b2 = (t >> 24u64) as u8;
    let b3 = (t >> 16u64) as u8;
    let b4 = (t >> 8u64) as u8;
    let b5 = t as u8;
    assert(s[0] == b0 && s[1] == b1 && s[2] == b2 && s[3] == b3 && s[4] == b4 && s[5] == b5);
    assert((b0 as u64) << 40u64 | (b1 as u64) << 32u64 | (b2 as u64) << 24u64 | (b3 as u64) << 16u64
        | (b4 as u64) << 8u64 | (b5 as u64) == t) by (bit_vector)
        requires
            t < 0x1_0000_0000_0000,
            b0 == (t >> 40u64) as u8,
            b1 == (t >> 32u64) as u8,
            b2 == (t >> 24u64) as u8,
            b3 == (t >> 16u64) as u8,
            b4 == (t >> 8u64) as u8,
            b5 == t as u8,
    ;
}

/// Decoding is the inverse of encoding: a decoder between frames that is
/// fed bytes without a marker and then one encoded frame of a known type
/// yields exactly that frame and is between frames again.
pub proof fn lemma_decode_encoded_frame(noise: Seq<u8>, kind: u8, f: FrameData)
    requires
        !noise.contains(FRAME_MARK),
        message_len(kind) == Some(f.message.len()),
        f.mlat_timestamp < 0x1_0000_0000_0000,
    ensures
        run(idle(), noise + encode_frame(kind, f)).0 == idle(),
        run(idle(), noise + encode_frame(kind, f)).1 == seq![f],
{
    let l = f.message.len();
    let payload = be48_bytes(f.mlat_timestamp) + seq![f.signal] + f.message;
    assert(payload.len() == 7 + l);
    lemma_run_skips_noise(noise);
    lemma_run_concat(idle(), noise, encode_frame(kind, f));
    let head = seq![FRAME_MARK, kind];
    reveal_with_fuel(run, 3);
    lemma_run_concat(idle(), head, escape_payload(payload));
    assert(head.drop_last() =~= seq![FRAME_MARK]);
    assert(seq![FRAME_MARK].drop_last() =~= Seq::<u8>::empty());
    let start = DecoderModel { phase: BeastPhase::Body, escape: false, msg_len: l, body: Seq::empty() };
    assert(run(idle(), head).0 == start);
    assert(run(idle(), head).1 =~= Seq::<FrameData>::empty());
    let y = payload.drop_last();
    let b = payload.last();
    assert(escape_payload(payload) == escape_payload(y) + escape_byte(b));
    lemma_run_payload(l, Seq::empty(), y);
    lemma_run_concat(start, escape_payload(y), escape_byte(b));
    assert(Seq::<u8>::empty() + y =~= y);
    lemma_run_last_payload_byte(l, y, b);
    assert(y.push(b) =~= payload);
    lemma_be48_roundtrip(f.mlat_timestamp);
    assert(be48_bytes(f.mlat_timestamp) =~= payload.subrange(0, 6));
    assert(frame_of(payload).message =~= f.message);
    assert(frame_of(payload) =~= f);
    assert(Seq::<FrameData>::empty() + Seq::<FrameData>::empty() =~= Seq::<FrameData>::empty());
    assert(Seq::<FrameData>::empty() + seq![f] =~= seq![f]);
}

/// Incremental Beast frame decoder.
pub struct BeastDecoder {
    phase: BeastPhase,
    escape: bool,
    msg_len: usize,
    buf: Vec<u8>,
}

impl View for BeastDecoder {
    type V = DecoderModel;

    closed spec fn view(&self) -> DecoderModel {
        DecoderModel { phase: self.phase, escape: self.escape, msg_len: self.msg_len as nat, body: self.buf@ }
    }
}

impl BeastDecoder {
    /// Well-formedness: the decoder is in one of the protocol's states.
    pub open spec fn wf(&self) -> bool {
        model_ok(self@)
    }

    /// A decoder waiting for the start of a frame.
    pub fn new() -> (r: BeastDecoder)
        ensures
            r.wf(),
            r@ == idle(),
    {
        let r = BeastDecoder { phase: BeastPhase::Scan, escape: false, msg_len: 0, buf: Vec::new() };
        assert(r@.body =~= Seq::<u8>::empty());
        r
    }

    fn reset(&mut self)
        ensures
            final(self)@ == idle(),
    {
        self.phase = BeastPhase::Scan;
        self.escape = false;
        self.msg_len = 0;
        self.buf.clear();
        assert(self@.body =~= Seq::<u8>::empty());
    }

    /// Feed one byte of the stream. Returns the frame this byte completes.
    pub fn push(&mut self, byte: u8) -> (r: Option<BeastFrame>)
        requires
            old(self).wf(),
        ensures
            final(self).wf(),
            final(self)@ == step(old(self)@, byte).0,
            r is Some <==> step(old(self)@, byte).1 is Some,
            r matches Some(f) ==> frame_data(f) == step(old(self)@, byte).1->0,
    {
        proof {
            lemma_step_ok(self@, byte);
        }
        match self.phase {
            BeastPhase::Scan => {
                if byte == FRAME_MARK {
                    self.phase = BeastPhase::Kind;
                }
                assert(self@ =~= step(old(self)@, byte).0);
                None
            },
            BeastPhase::Kind => {
                if self.escape {
                    self.escape = false;
                    self.phase = BeastPhase::Scan;
                } else if byte == FRAME_MARK {
                    self.escape = true;
                } else {
                    if byte == 0x31 {
                        self.phase = BeastPhase::Body;
                        self.msg_len = 2;
                    } else if byte == 0x32 {
                        self.phase = BeastPhase::Body;
                        self.msg_len = 7;
                    } else if byte == 0x33 {
                        self.phase = BeastPhase::Body;
                        self.msg_len = 14;
                    } else {
                        self.phase = BeastPhase::Scan;
                    }
                }
                None
            },
            BeastPhase::Body => {
                if !self.escape && byte == FRAME_MARK {
                    self.escape = true;
                    None
                } else {
                    let payload = if self.escape { FRAME_MARK } else { byte };
                    self.escape = false;
                    self.buf.push(payload);
                    if self.buf.len() == 7 + self.msg_len {
                        let b = &self.buf;
                        let mlat_timestamp = (b[0] as u64) << 40u64 | (b[1] as u64) << 32u64 | (b[2] as u64)
                            << 24u64 | (b[3] as u64) << 16u64 | (b[4] as u64) << 8u64 | (b[5] as u64);
                        let signal = b[6];
                        let message = self.buf.split_off(7);
                        let ghost body = old(self)@.body.push(payload);
                        assert(message@ =~= body.subrange(7, body.len() as int));
                        self.reset();
                        Some(BeastFrame { mlat_timestamp, signal, message, received_at: instant_now() })
                    } else {
                        None
                    }
                }
            },
        }
    }

    /// Feed a run of bytes of the stream. Returns the frames they complete,
    /// in order.
    pub fn push_all(&mut self, bytes: &[u8]) -> (frames: Vec<BeastFrame>)
        requires
            old(self).wf(),
        ensures
            final(self).wf(),
            final(self)@ == run(old(self)@, bytes@).0,
            frames@.map_values(|f: BeastFrame| frame_data(f)) == run(old(self)@, bytes@).1,
    {
        let ghost start = self@;
        let mut frames: Vec<BeastFrame> = Vec::new();
        let mut i: usize = 0;
        assert(bytes@.take(0) =~= Seq::<u8>::empty());
        assert(frames@.map_values(|f: BeastFrame| frame_data(f)) =~= Seq::<FrameData>::empty());
        while i < bytes.len()
            invariant
                i <= bytes@.len(),
                self.wf(),
                self@ == run(start, bytes@.take(i as int)).0,
                frames@.map_values(|f: BeastFrame| frame_data(f)) == run(start, bytes@.take(i as int)).1,
            decreases bytes@.len() - i,
        {
            let ghost prefix = bytes@.take(i as int);
            assert(bytes@.take(i + 1).drop_last() =~= prefix);
            assert(bytes@.take(i + 1).last() == bytes@[i as int]);
            let ghost before = frames@;
            if let Some(f) = self.push(bytes[i]) {
                frames.push(f);
                assert(frames@.map_values(|f: BeastFrame| frame_data(f)) =~= before.map_values(
                    |f: BeastFrame| frame_data(f),
                ).push(frame_data(f)));
            }
            i = i + 1;
        }
        assert(bytes@.take(i as int) =~= bytes@);
        frames
    }
}

} // verus!
