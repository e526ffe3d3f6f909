use vstd::prelude::*;

use crate::encode::EncodeType;

verus! {

/// Capacity of the decoder's working buffer: a frame terminator must appear
/// within this many accumulated bytes, or the span is force-emitted.
pub const BUF_CAP: usize = 1024;

/// The byte sequence that the zero-byte-stuffing encoder produces for a
/// payload. The encoding depends on the payload alone.
pub uninterp spec fn cobs_encoding_of(payload: Seq<u8>) -> Seq<u8>;

/// The payload that the zero-byte-stuffing decoder recovers from an encoded
/// span, or `None` when the span is malformed. The result depends on the
/// span alone.
pub uninterp spec fn cobs_decoding_of(encoded: Seq<u8>) -> Option<Seq<u8>>;

/// Relies on cobs::encode_vec: the encoded output never contains the zero
/// sentinel, is at most one byte per started run of 254 longer than the
/// payload, and is recovered exactly by cobs::decode_vec once the zero
/// terminator is appended.
#[verifier::external_body]
fn cobs_encode(src: &Vec<u8>) -> (r: Vec<u8>)
    ensures
        r@ == cobs_encoding_of(src@),
        forall|i: int| 0 <= i < r@.len() ==> r@[i] != 0,
        r@.len() <= src@.len() + src@.len() / 254 + 1,
        cobs_decoding_of(r@.push(0)) == Some(src@),
{
    cobs::encode_vec(src)
}

/// Relies on cobs::decode_vec: decodes one zero-byte-stuffed span (the zero
/// terminator included), or reports a malformed span as an error.
#[verifier::external_body]
fn cobs_decode(src: &Vec<u8>) -> (r: Option<Vec<u8>>)
    ensures
        match r {
            Some(v) => cobs_decoding_of(src@) == Some(v@),
            None => cobs_decoding_of(src@) is None,
        },
{
    match cobs::decode_vec(src) {
        Ok(v) => Some(v),
        Err(_) => None,
    }
}

/// The byte that ends a frame in a terminated framing mode.
pub open spec fn terminator_byte(mode: EncodeType) -> u8 {
    match mode {
        EncodeType::CRLF => 0x0a,
        _ => 0x00,
    }
}

/// The frame emitted when a terminator completes the accumulated span
/// `acc` (terminator included): line-terminated spans pass through
/// verbatim, zero-byte-stuffed spans are decoded and a malformed span
/// yields no frame.
pub open spec fn emitted_frame(mode: EncodeType, acc: Seq<u8>) -> Option<Seq<u8>> {
    match mode {
        EncodeType::COBS => cobs_decoding_of(acc),
        _ => Some(acc),
    }
}

/// One step of the terminated-mode decoder: append the byte; on a
/// terminator emit the completed span's frame, on reaching capacity
/// force-emit the accumulated span verbatim; reset the accumulator after
/// every emission, normal or forced.
pub open spec fn feed_byte(mode: EncodeType, acc: Seq<u8>, b: u8) -> (Seq<u8>, Option<Seq<u8>>) {
    let grown = acc.push(b);
    if b == terminator_byte(mode) {
        (Seq::<u8>::empty(), emitted_frame(mode, grown))
    } else if grown.len() >= BUF_CAP {
        (Seq::<u8>::empty(), Some(grown))
    } else {
        (grown, None)
    }
}

/// The terminated-mode decoder folded over a whole input: the final
/// accumulator contents and the frames emitted, in order.
pub open spec fn feed_bytes(mode: EncodeType, acc: Seq<u8>, input: Seq<u8>) -> (Seq<u8>, Seq<Seq<u8>>)
    decreases input.len(),
{
    if input.len() == 0 {
        (acc, Seq::<Seq<u8>>::empty())
    } else {
        let stepped = feed_byte(mode, acc, input[0]);
        let rest = feed_bytes(mode, stepped.0, input.drop_first());
        (
            rest.0,
            match stepped.1 {
                Some(f) => seq![f] + rest.1,
                None => rest.1,
            },
        )
    }
}

/// The frames that one raw chunk yields: the chunk itself when it is
/// non-empty, nothing otherwise.
pub open spec fn raw_frames(chunk: Seq<u8>) -> Seq<Seq<u8>> {
    if chunk.len() == 0 {
        Seq::<Seq<u8>>::empty()
    } else {
        seq![chunk]
    }
}

/// One chunk consumed under a framing mode: raw chunks pass through
/// without touching the accumulator, terminated modes fold byte by byte.
pub open spec fn consume_chunk(mode: EncodeType, acc: Seq<u8>, chunk: Seq<u8>) -> (Seq<u8>, Seq<Seq<u8>>) {
    if mode == EncodeType::Raw {
        (acc, raw_frames(chunk))
    } else {
        feed_bytes(mode, acc, chunk)
    }
}

/// The view of an optionally emitted frame.
pub open spec fn frame_view(fr: Option<Vec<u8>>) -> Option<Seq<u8>> {
    match fr {
        Some(f) => Some(f@),
        None => None,
    }
}

/// Frame decoder: turns a stream of raw byte chunks into discrete frames
/// under the framing mode chosen at construction, buffering at most
/// [`BUF_CAP`] bytes at any time.
pub struct Decoder {
    mode: EncodeType,
    acc: Vec<u8>,
}

impl Decoder {
    pub closed spec fn mode_spec(self) -> EncodeType {
        self.mode
    }

    /// The bytes currently buffered while waiting for a terminator.
    pub closed spec fn acc_spec(self) -> Seq<u8> {
        self.acc@
    }

    /// The accumulator always has room for one more byte, and raw mode
    /// never accumulates.
    pub closed spec fn well_formed(self) -> bool {
        &&& self.acc@.len() < BUF_CAP
        &&& (self.mode == EncodeType::Raw ==> self.acc@.len() == 0)
    }

    pub fn new(mode: EncodeType) -> (d: Self)
        ensures
            d.well_formed(),
            d.mode_spec() == mode,
            d.acc_spec() == Seq::<u8>::empty(),
    {
        Decoder { mode, acc: Vec::new() }
    }

    /// How many bytes the decoder is currently buffering.
    pub fn buffered_len(&self) -> (n: usize)
        ensures
            n == self.acc_spec().len(),
    {
        self.acc.len()
    }

    /// Feed one byte under a terminated framing mode, following
    /// [`feed_byte`]: at most one frame comes out, and the accumulator is
    /// reset after every emission.
    pub fn push_byte(&mut self, b: u8) -> (fr: Option<Vec<u8>>)
        requires
            old(self).well_formed(),
            old(self).mode_spec() != EncodeType::Raw,
        ensures
            final(self).well_formed(),
            final(self).mode_spec() == old(self).mode_spec(),
            final(self).acc_spec() == feed_byte(old(self).mode_spec(), old(self).acc_spec(), b).0,
            frame_view(fr) == feed_byte(old(self).mode_spec(), old(self).acc_spec(), b).1,
    {
        self.acc.push(b);
        let term: u8 = match self.mode {
            EncodeType::CRLF => 0x0a,
            _ => 0x00,
        };
        if b == term {
            let fr = match self.mode {
                EncodeType::COBS => cobs_decode(&self.acc),
                _ => {
                    let mut span: Vec<u8> = Vec::new();
                    core::mem::swap(&mut span, &mut self.acc);
                    Some(span)
                },
            };
            self.acc.clear();
            fr
        } else if self.acc.len() >= BUF_CAP {
            let mut span: Vec<u8> = Vec::new();
            core::mem::swap(&mut span, &mut self.acc);
            Some(span)
        } else {
            None
        }
    }

    /// Consume one chunk of device bytes, in arrival order, and return the
    /// frames it completes, preserving their relative order.
    pub fn push_chunk(&mut self, chunk: &Vec<u8>) -> (frames: Vec<Vec<u8>>)
        requires
            old(self).well_formed(),
        ensures
            final(self).well_formed(),
            final(self).mode_spec() == old(self).mode_spec(),
            final(self).acc_spec() == consume_chunk(
                old(self).mode_spec(),
                old(self).acc_spec(),
                chunk@,
            ).0,
            frames.deep_view() == consume_chunk(
                old(self).mode_spec(),
                old(self).acc_spec(),
                chunk@,
            ).1,
    {
        let ghost m = self.mode;
        let ghost acc0 = self.acc@;
        let mut frames: Vec<Vec<u8>> = Vec::new();
        if matches!(self.mode, EncodeType::Raw) {
            if chunk.len() > 0 {
                let copy = chunk.clone();
                assert(copy@ =~= chunk@);
                frames.push(copy);
            }
            assert(frames.deep_view() =~~= raw_frames(chunk@));
            return frames;
        }
        let mut i: usize = 0;
        while i < chunk.len()
            invariant
                i <= chunk.len(),
                self.well_formed(),
                self.mode_spec() == m,
                m != EncodeType::Raw,
                self.acc_spec() == feed_bytes(m, acc0, chunk@.take(i as int)).0,
                frames.deep_view() == feed_bytes(m, acc0, chunk@.take(i as int)).1,
            decreases chunk.len() - i,
        {
            let ghost done = chunk@.take(i as int);
            let fr = self.push_byte(chunk[i]);
            proof {
                lemma_feed_bytes_snoc(m, acc0, done, chunk@[i as int]);
                assert(chunk@.take(i as int + 1) =~= done.push(chunk@[i as int]));
            }
            match fr {
                Some(f) => {
                    let ghost dv = frames.deep_view();
                    frames.push(f);
                    assert(frames.deep_view() =~~= dv.push(f@));
                },
                None => {},
            }
            i += 1;
        }
        proof {
            assert(chunk@.take(chunk@.len() as int) =~= chunk@);
        }
        frames
    }
}

/// Build one zero-byte-stuffed wire frame: the payload's encoding followed
/// by the zero terminator. The last two clauses state the round trip: fed
/// back through the zero-byte-stuffed decoder, the frame yields exactly one
/// frame equal to the original payload, and the accumulator ends empty.
pub fn encode_frame(payload: &Vec<u8>) -> (r: Vec<u8>)
    requires
        payload@.len() + payload@.len() / 254 + 2 <= BUF_CAP,
    ensures
        r@ == cobs_encoding_of(payload@).push(0),
        r@.len() <= BUF_CAP,
        feed_bytes(EncodeType::COBS, Seq::<u8>::empty(), r@).0 == Seq::<u8>::empty(),
        feed_bytes(EncodeType::COBS, Seq::<u8>::empty(), r@).1 == seq![payload@],
{
    let mut enc = cobs_encode(payload);
    enc.push(0);
    proof {
        let e = cobs_encoding_of(payload@);
        lemma_terminated_segment(EncodeType::COBS, Seq::<u8>::empty(), e);
        assert(Seq::<u8>::empty() + e =~= e);
        assert(cobs_decoding_of(e.push(0)) == Some(payload@));
        assert(feed_bytes(EncodeType::COBS, Seq::<u8>::empty(), e.push(0)).1 =~= seq![payload@]);
    }
    enc
}

/// Bounded buffering: an input span of exactly [`BUF_CAP`] bytes in which
/// no terminator appears makes the decoder force-emit one frame of exactly
/// [`BUF_CAP`] bytes and reset its accumulator. (That the accumulator never
/// exceeds the capacity at any point stands in [`Decoder::well_formed`],
/// which every decoder operation preserves, and in
/// [`lemma_feed_bytes_keeps_bound`].)
pub proof fn lemma_bounded_buffering(mode: EncodeType, s: Seq<u8>)
    requires
        mode != EncodeType::Raw,
        s.len() == BUF_CAP,
        forall|i: int| 0 <= i < s.len() ==> s[i] != terminator_byte(mode),
    ensures
        feed_bytes(mode, Seq::<u8>::empty(), s).0 == Seq::<u8>::empty(),
        feed_bytes(mode, Seq::<u8>::empty(), s).1 == seq![s],
{
    lemma_fill_to_cap(mode, Seq::<u8>::empty(), s);
    assert(Seq::<u8>::empty() + s =~= s);
}

/// An input stream that goes on for the buffer capacity or more without a
/// terminator makes the decoder force-emit, and the first frame out is
/// exactly the stream's first [`BUF_CAP`] bytes.
pub proof fn lemma_overflow_emits_capacity_frame(mode: EncodeType, s: Seq<u8>)
    requires
        mode != EncodeType::Raw,
        s.len() >= BUF_CAP,
        forall|i: int| 0 <= i < s.len() ==> s[i] != terminator_byte(mode),
    ensures
        feed_bytes(mode, Seq::<u8>::empty(), s).1.len() >= 1,
        feed_bytes(mode, Seq::<u8>::empty(), s).1[0] == s.take(BUF_CAP as int),
        s.take(BUF_CAP as int).len() == BUF_CAP,
{
    let head = s.take(BUF_CAP as int);
    let tail = s.skip(BUF_CAP as int);
    assert(head + tail =~= s);
    lemma_feed_bytes_append(mode, Seq::<u8>::empty(), head, tail);
    lemma_bounded_buffering(mode, head);
}

/// The terminated-mode fold keeps the accumulator under the buffer
/// capacity, whatever bytes arrive.
pub proof fn lemma_feed_bytes_keeps_bound(mode: EncodeType, acc: Seq<u8>, input: Seq<u8>)
    requires
        acc.len() < BUF_CAP,
    ensures
        feed_bytes(mode, acc, input).0.len() < BUF_CAP,
    decreases input.len(),
{
    if input.len() > 0 {
        lemma_feed_bytes_keeps_bound(mode, feed_byte(mode, acc, input[0]).0, input.drop_first());
    }
}

/// Line-terminated framing: two spans free of line feeds, each followed by
/// one line feed, come out of the decoder as exactly two frames, each one
/// keeping its terminator.
pub proof fn lemma_line_frames(a: Seq<u8>, b: Seq<u8>)
    requires
        a.len() < BUF_CAP,
        b.len() < BUF_CAP,
        forall|i: int| 0 <= i < a.len() ==> a[i] != 0x0a,
        forall|i: int| 0 <= i < b.len() ==> b[i] != 0x0a,
    ensures
        feed_bytes(EncodeType::CRLF, Seq::<u8>::empty(), a.push(0x0a) + b.push(0x0a)).0
            == Seq::<u8>::empty(),
        feed_bytes(EncodeType::CRLF, Seq::<u8>::empty(), a.push(0x0a) + b.push(0x0a)).1
            == seq![a.push(0x0a), b.push(0x0a)],
{
    let m = EncodeType::CRLF;
    let fst = a.push(0x0a);
    let snd = b.push(0x0a);
    lemma_feed_bytes_append(m, Seq::<u8>::empty(), fst, snd);
    lemma_terminated_segment(m, Seq::<u8>::empty(), a);
    assert(Seq::<u8>::empty() + a =~= a);
    lemma_terminated_segment(m, Seq::<u8>::empty(), b);
    assert(Seq::<u8>::empty() + b =~= b);
    assert(seq![fst] + seq![snd] =~= seq![fst, snd]);
}

/// Bytes free of the terminator and short of the capacity only accumulate:
/// no frame is emitted.
proof fn lemma_feed_no_terminator(mode: EncodeType, acc: Seq<u8>, s: Seq<u8>)
    requires
        acc.len() + s.len() < BUF_CAP,
        forall|i: int| 0 <= i < s.len() ==> s[i] != terminator_byte(mode),
    ensures
        feed_bytes(mode, acc, s).0 == acc + s,
        feed_bytes(mode, acc, s).1 == Seq::<Seq<u8>>::empty(),
    decreases s.len(),
{
    if s.len() == 0 {
        assert(acc + s =~= acc);
    } else {
        let grown = acc.push(s[0]);
        lemma_feed_no_terminator(mode, grown, s.drop_first());
        assert(grown + s.drop_first() =~= acc + s);
    }
}

/// Filling the accumulator to exactly the capacity with terminator-free
/// bytes force-emits the whole accumulated span as one frame and resets.
proof fn lemma_fill_to_cap(mode: EncodeType, acc: Seq<u8>, s: Seq<u8>)
    requires
        s.len() >= 1,
        acc.len() + s.len() == BUF_CAP,
        forall|i: int| 0 <= i < s.len() ==> s[i] != terminator_byte(mode),
    ensures
        feed_bytes(mode, acc, s).0 == Seq::<u8>::empty(),
        feed_bytes(mode, acc, s).1 == seq![acc + s],
    decreases s.len(),
{
    let grown = acc.push(s[0]);
    if s.len() == 1 {
        reveal_with_fuel(feed_bytes, 2);
        assert(grown =~= acc + s);
        assert(seq![grown] + Seq::<Seq<u8>>::empty() =~= seq![acc + s]);
    } else {
        lemma_fill_to_cap(mode, grown, s.drop_first());
        assert(grown + s.drop_first() =~= acc + s);
    }
}

/// A terminator-free span followed by one terminator byte yields exactly
/// the frame that completing the span emits, and resets the accumulator.
proof fn lemma_terminated_segment(mode: EncodeType, acc: Seq<u8>, s: Seq<u8>)
    requires
        mode != EncodeType::Raw,
        acc.len() + s.len() < BUF_CAP,
        forall|i: int| 0 <= i < s.len() ==> s[i] != terminator_byte(mode),
    ensures
        feed_bytes(mode, acc, s.push(terminator_byte(mode))).0 == Seq::<u8>::empty(),
        feed_bytes(mode, acc, s.push(terminator_byte(mode))).1 == (match emitted_frame(
            mode,
            (acc + s).push(terminator_byte(mode)),
        ) {
            Some(f) => seq![f],
            None => Seq::<Seq<u8>>::empty(),
        }),
{
    let term = terminator_byte(mode);
    lemma_feed_no_terminator(mode, acc, s);
    lemma_feed_bytes_snoc(mode, acc, s, term);
    match emitted_frame(mode, (acc + s).push(term)) {
        Some(f) => {
            assert(Seq::<Seq<u8>>::empty().push(f) =~= seq![f]);
        },
        None => {},
    }
}

/// Folding one more byte after a prefix steps the fold's state once and
/// appends at most one frame.
proof fn lemma_feed_bytes_snoc(mode: EncodeType, acc: Seq<u8>, s: Seq<u8>, b: u8)
    ensures
        ({
            let pre = feed_bytes(mode, acc, s);
            let stepped = feed_byte(mode, pre.0, b);
            let whole = feed_bytes(mode, acc, s.push(b));
            &&& whole.0 == stepped.0
            &&& whole.1 == (match stepped.1 {
                Some(f) => pre.1.push(f),
                None => pre.1,
            })
        }),
    decreases s.len(),
{
    let pre = feed_bytes(mode, acc, s);
    let stepped = feed_byte(mode, pre.0, b);
    let whole = feed_bytes(mode, acc, s.push(b));
    if s.len() == 0 {
        reveal_with_fuel(feed_bytes, 2);
        assert(s.push(b)[0] == b);
        assert(s.push(b).drop_first() =~= Seq::<u8>::empty());
        match stepped.1 {
            Some(f) => {
                assert(whole.1 =~= pre.1.push(f));
            },
            None => {},
        }
    } else {
        reveal_with_fuel(feed_bytes, 2);
        let acc1 = feed_byte(mode, acc, s[0]).0;
        let fr0 = feed_byte(mode, acc, s[0]).1;
        assert(s.push(b)[0] == s[0]);
        assert(s.push(b).drop_first() =~= s.drop_first().push(b));
        lemma_feed_bytes_snoc(mode, acc1, s.drop_first(), b);
        let tail_pre = feed_bytes(mode, acc1, s.drop_first());
        let tail_stepped = feed_byte(mode, tail_pre.0, b);
        match fr0 {
            Some(f0) => {
                match tail_stepped.1 {
                    Some(f) => {
                        assert(whole.1 =~= (seq![f0] + tail_pre.1).push(f));
                        assert(pre.1.push(f) =~= (seq![f0] + tail_pre.1).push(f));
                    },
                    None => {},
                }
            },
            None => {},
        }
    }
}

/// The fold over a concatenation is the fold over the first part followed
/// by the fold over the second, with the frames concatenated in order.
proof fn lemma_feed_bytes_append(mode: EncodeType, acc: Seq<u8>, s: Seq<u8>, t: Seq<u8>)
    ensures
        feed_bytes(mode, acc, s + t).0 == feed_bytes(mode, feed_bytes(mode, acc, s).0, t).0,
        feed_bytes(mode, acc, s + t).1 == feed_bytes(mode, acc, s).1 + feed_bytes(
            mode,
            feed_bytes(mode, acc, s).0,
            t,
        ).1,
    decreases s.len(),
{
    if s.len() == 0 {
        assert(s + t =~= t);
        assert(Seq::<Seq<u8>>::empty() + feed_bytes(mode, acc, t).1 =~= feed_bytes(mode, acc, t).1);
    } else {
        let acc1 = feed_byte(mode, acc, s[0]).0;
        assert((s + t)[0] == s[0]);
        assert((s + t).drop_first() =~= s.drop_first() + t);
        lemma_feed_bytes_append(mode, acc1, s.drop_first(), t);
        let mid = feed_bytes(mode, acc1, s.drop_first());
        let tail = feed_bytes(mode, mid.0, t);
        match feed_byte(mode, acc, s[0]).1 {
            Some(f) => {
                assert(seq![f] + (mid.1 + tail.1) =~= (seq![f] + mid.1) + tail.1);
            },
            None => {},
        }
    }
}

} // verus!
