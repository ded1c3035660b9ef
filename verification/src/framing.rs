//! Byte-stream framing on the serial and TCP links.
//!
//! Messages travel as COBS-encoded frames terminated by a 0x00 byte. The assembler
//! collects the bytes of one frame (bounded), hands the whole frame out at the
//! delimiter, and discards a frame that overruns its buffer. Decoding a frame into
//! a message is the caller's business. The link handshake watcher recognizes the
//! ASCII word `HELLO` in a byte stream.

use vstd::prelude::*;

verus! {

/// Capacity of a frame buffer (bytes).
pub const FRAME_CAPACITY: usize = 128;

/// The frame delimiter.
pub const DELIMITER: u8 = 0x00;

/// Pending bytes and emitted frame after feeding one byte.
pub open spec fn assemble_step(pending: Seq<u8>, b: u8) -> (Seq<u8>, Option<Seq<u8>>) {
    if b == DELIMITER {
        if pending.len() > 0 {
            (Seq::empty(), Some(pending))
        } else {
            (Seq::empty(), None)
        }
    } else if pending.len() < FRAME_CAPACITY {
        (pending.push(b), None)
    } else {
        (Seq::empty(), None)
    }
}

/// Pending bytes and all frames emitted after feeding a byte stream.
pub open spec fn assemble(pending: Seq<u8>, bytes: Seq<u8>) -> (Seq<u8>, Seq<Seq<u8>>)
    decreases bytes.len(),
{
    if bytes.len() == 0 {
        (pending, Seq::empty())
    } else {
        let (p1, out) = assemble_step(pending, bytes[0]);
        let (p2, rest) = assemble(p1, bytes.drop_first());
        match out {
            Some(f) => (p2, seq![f] + rest),
            None => (p2, rest),
        }
    }
}

/// A frame body as it travels: non-empty, within capacity, free of delimiters.
pub open spec fn frame_ok(f: Seq<u8>) -> bool {
    &&& 0 < f.len() <= FRAME_CAPACITY
    &&& forall|i: int| 0 <= i < f.len() ==> f[i] != DELIMITER
}

/// Collects the bytes of one frame between delimiters.
pub struct FrameAssembler {
    buf: Vec<u8>,
}

impl View for FrameAssembler {
    type V = Seq<u8>;

    closed spec fn view(&self) -> Seq<u8> {
        self.buf@
    }
}

/// Pending bytes are within capacity and free of delimiters.
pub open spec fn pending_ok(p: Seq<u8>) -> bool {
    &&& p.len() <= FRAME_CAPACITY
    &&& forall|i: int| 0 <= i < p.len() ==> p[i] != DELIMITER
}

impl FrameAssembler {
    /// An assembler with nothing pending.
    pub fn new() -> (r: FrameAssembler)
        ensures
            r@ == Seq::<u8>::empty(),
    {
        FrameAssembler { buf: Vec::new() }
    }

    /// Number of bytes pending.
    pub fn len(&self) -> (r: usize)
        ensures
            r == self@.len(),
    {
        self.buf.len()
    }

    /// Drop whatever is pending (on link loss).
    pub fn clear(&mut self)
        ensures
            final(self)@ == Seq::<u8>::empty(),
    {
        self.buf = Vec::new();
    }

    /// Feed one byte: at a delimiter a non-empty frame is handed out; a byte beyond
    /// the capacity discards the frame in progress (and itself).
    pub fn push(&mut self, b: u8) -> (frame: Option<Vec<u8>>)
        requires
            pending_ok(old(self)@),
        ensures
            pending_ok(final(self)@),
            final(self)@ == assemble_step(old(self)@, b).0,
            frame matches Some(f) ==> assemble_step(old(self)@, b).1 == Some(f@),
            frame is None ==> assemble_step(old(self)@, b).1 is None,
            frame matches Some(f) ==> frame_ok(f@),
    {
        if b == DELIMITER {
            if self.buf.len() > 0 {
                let mut frame: Vec<u8> = Vec::new();
                std::mem::swap(&mut frame, &mut self.buf);
                Some(frame)
            } else {
                None
            }
        } else if self.buf.len() < FRAME_CAPACITY {
            self.buf.push(b);
            None
        } else {
            self.buf = Vec::new();
            None
        }
    }
}

// ── laws ──

/// A frame written as its bytes and a delimiter is read back whole, and the
/// assembler is left empty: from an empty assembler, `f ++ [0]` yields exactly `[f]`.
pub proof fn lemma_frame_round_trip(f: Seq<u8>)
    requires
        frame_ok(f),
    ensures
        assemble(Seq::empty(), f.push(DELIMITER)) == (Seq::<u8>::empty(), seq![f]),
{
    lemma_collect(Seq::empty(), f, f.len() as int);
    let d = seq![DELIMITER];
    assert(f.subrange(0, f.len() as int) + d =~= f.push(DELIMITER));
    assert(f.subrange(0, f.len() as int) =~= f);
    assert(assemble(Seq::empty(), f.subrange(0, f.len() as int) + d) == assemble(f.subrange(0, f.len() as int), d));
    assert(d.drop_first() =~= Seq::<u8>::empty());
    assert(d[0] == DELIMITER);
    assert(assemble(Seq::<u8>::empty(), Seq::<u8>::empty()) == (Seq::<u8>::empty(), Seq::<Seq<u8>>::empty()));
    assert(assemble_step(f, d[0]) == (Seq::<u8>::empty(), Some(f)));
    assert(assemble(f, d) == (Seq::<u8>::empty(), seq![f] + Seq::<Seq<u8>>::empty()));
    assert(seq![f] + Seq::<Seq<u8>>::empty() =~= seq![f]);
}

/// Feeding the first `k` bytes of a delimiter-free body accumulates them, emitting nothing.
proof fn lemma_collect(pending: Seq<u8>, f: Seq<u8>, k: int)
    requires
        frame_ok(f),
        pending.len() == 0,
        0 <= k <= f.len(),
    ensures
        forall|tail: Seq<u8>| #[trigger] assemble(pending, f.subrange(0, k) + tail) == assemble(f.subrange(0, k), tail),
    decreases k,
{
    if k > 0 {
        lemma_collect(pending, f, k - 1);
        assert forall|tail: Seq<u8>| #[trigger] assemble(pending, f.subrange(0, k) + tail) == assemble(f.subrange(0, k), tail) by {
            let s = f.subrange(0, k - 1);
            let t2 = seq![f[k - 1]] + tail;
            assert(f.subrange(0, k) + tail =~= s + t2);
            assert(assemble(pending, s + t2) == assemble(s, t2));
            assert(t2[0] == f[k - 1]);
            assert(t2.drop_first() =~= tail);
            assert(s.push(f[k - 1]) =~= f.subrange(0, k));
        }
    } else {
        assert forall|tail: Seq<u8>| #[trigger] assemble(pending, f.subrange(0, k) + tail) == assemble(f.subrange(0, k), tail) by {
            assert(f.subrange(0, k) + tail =~= tail);
            assert(pending =~= f.subrange(0, k));
        }
    }
}

/// Every frame the assembler hands out, over any byte stream, is non-empty,
/// within capacity and free of delimiters.
pub proof fn lemma_frames_are_clean(pending: Seq<u8>, bytes: Seq<u8>)
    requires
        pending_ok(pending),
    ensures
        forall|i: int| 0 <= i < assemble(pending, bytes).1.len() ==> frame_ok(#[trigger] assemble(pending, bytes).1[i]),
        pending_ok(assemble(pending, bytes).0),
    decreases bytes.len(),
{
    if bytes.len() > 0 {
        let (p1, out) = assemble_step(pending, bytes[0]);
        assert(pending_ok(p1));
        lemma_frames_are_clean(p1, bytes.drop_first());
    }
}

/// What is left of a delimiter-free run after the assembler's overflows: each time
/// the buffer is full the next byte discards it, so every block of
/// `FRAME_CAPACITY + 1` bytes from the start is lost and the rest is kept.
pub open spec fn after_overflows(r: Seq<u8>) -> Seq<u8> {
    r.subrange(r.len() - (r.len() as int) % (FRAME_CAPACITY as int + 1), r.len() as int)
}

/// Feeding the first `k` bytes of a delimiter-free run to an empty assembler leaves
/// what survives their overflows pending, emitting nothing.
proof fn lemma_run_prefix(r: Seq<u8>, k: int)
    requires
        forall|i: int| 0 <= i < r.len() ==> r[i] != DELIMITER,
        0 <= k <= r.len(),
    ensures
        forall|tail: Seq<u8>| #[trigger] assemble(Seq::empty(), r.take(k) + tail) == assemble(after_overflows(r.take(k)), tail),
    decreases k,
{
    if k == 0 {
        assert forall|tail: Seq<u8>| #[trigger] assemble(Seq::empty(), r.take(k) + tail) == assemble(after_overflows(r.take(k)), tail) by {
            assert(r.take(0) + tail =~= tail);
            assert(after_overflows(r.take(0)) =~= Seq::<u8>::empty());
        }
    } else {
        lemma_run_prefix(r, k - 1);
        let j = k - 1;
        let q = after_overflows(r.take(j));
        let m = j % 129;
        assert(j == 129 * (j / 129) + m);
        assert(q =~= r.subrange(j - m, j));
        let b = r[j];
        assert forall|tail: Seq<u8>| #[trigger] assemble(Seq::empty(), r.take(k) + tail) == assemble(after_overflows(r.take(k)), tail) by {
            let t2 = seq![b] + tail;
            assert(r.take(k) + tail =~= r.take(j) + t2);
            assert(assemble(Seq::empty(), r.take(j) + t2) == assemble(q, t2));
            assert(t2[0] == b);
            assert(t2.drop_first() =~= tail);
            if m < 128 {
                assert(k % 129 == m + 1);
                assert(q.push(b) =~= after_overflows(r.take(k)));
            } else {
                assert(k % 129 == 0);
                assert(after_overflows(r.take(k)) =~= Seq::<u8>::empty());
            }
        }
    }
}

/// Frames come run by run. A delimiter-free run followed by a delimiter yields one
/// frame, the bytes that survive its overflows (the whole run when it fits the
/// buffer), or no frame when nothing survives; after it the stream is framed anew.
/// A run with no delimiter after it yields nothing and stays pending.
pub proof fn lemma_frames_run_by_run(r: Seq<u8>, tail: Seq<u8>)
    requires
        forall|i: int| 0 <= i < r.len() ==> r[i] != DELIMITER,
    ensures
        assemble(Seq::empty(), r) == (after_overflows(r), Seq::<Seq<u8>>::empty()),
        assemble(Seq::empty(), r.push(DELIMITER) + tail).1 == (if after_overflows(r).len() > 0 {
            seq![after_overflows(r)]
        } else {
            Seq::<Seq<u8>>::empty()
        }) + assemble(Seq::empty(), tail).1,
        after_overflows(r).len() <= FRAME_CAPACITY,
        r.len() <= FRAME_CAPACITY ==> after_overflows(r) == r,
{
    lemma_run_prefix(r, r.len() as int);
    assert(r.take(r.len() as int) =~= r);
    let q = after_overflows(r);
    assert(assemble(Seq::empty(), r + Seq::<u8>::empty()) == assemble(q, Seq::<u8>::empty()));
    assert(r + Seq::<u8>::empty() =~= r);
    let t2 = seq![DELIMITER] + tail;
    assert(r.push(DELIMITER) + tail =~= r + t2);
    assert(assemble(Seq::empty(), r + t2) == assemble(q, t2));
    assert(t2[0] == DELIMITER);
    assert(t2.drop_first() =~= tail);
    if q.len() == 0 {
        assert(Seq::<Seq<u8>>::empty() + assemble(Seq::empty(), tail).1 =~= assemble(Seq::empty(), tail).1);
    }
    if r.len() <= FRAME_CAPACITY {
        assert(r.len() % 129 == r.len());
        assert(q =~= r);
    }
}

/// Watches a byte stream for the link handshake word `HELLO`.
pub struct HelloWatcher {
    window: [u8; 5],
}

/// The handshake word.
pub open spec fn hello_word() -> Seq<u8> {
    seq![0x48u8, 0x45u8, 0x4Cu8, 0x4Cu8, 0x4Fu8]
}

impl View for HelloWatcher {
    type V = Seq<u8>;

    closed spec fn view(&self) -> Seq<u8> {
        self.window@
    }
}

impl HelloWatcher {
    /// A watcher that has seen nothing (window of five zero bytes).
    pub fn new() -> (r: HelloWatcher)
        ensures
            r@ == seq![0u8, 0u8, 0u8, 0u8, 0u8],
    {
        let r = HelloWatcher { window: [0u8; 5] };
        assert(r@ =~= seq![0u8, 0u8, 0u8, 0u8, 0u8]);
        r
    }

    /// Slide one byte into the window; true when the last five bytes spell `HELLO`.
    pub fn push(&mut self, b: u8) -> (seen: bool)
        ensures
            final(self)@ == old(self)@.drop_first().push(b),
            seen == (final(self)@ == hello_word()),
    {
        let w1 = self.window[1];
        let w2 = self.window[2];
        let w3 = self.window[3];
        let w4 = self.window[4];
        self.window = [w1, w2, w3, w4, b];
        assert(self.window@ =~= old(self)@.drop_first().push(b));
        let seen = self.window[0] == 0x48 && self.window[1] == 0x45 && self.window[2] == 0x4C && self.window[3] == 0x4C
            && self.window[4] == 0x4F;
        assert(seen == (self.window@ =~= hello_word()));
        seen
    }
}

/// Whatever came before, the five bytes of `HELLO` in a row are recognized.
pub proof fn lemma_hello_recognized(w: Seq<u8>)
    requires
        w.len() == 5,
    ensures
        w.drop_first().push(0x48u8).drop_first().push(0x45u8).drop_first().push(0x4Cu8).drop_first().push(
            0x4Cu8,
        ).drop_first().push(0x4Fu8) == hello_word(),
{
    assert(w.drop_first().push(0x48u8).drop_first().push(0x45u8).drop_first().push(0x4Cu8).drop_first().push(
        0x4Cu8,
    ).drop_first().push(0x4Fu8) =~= hello_word());
}

} // verus!
