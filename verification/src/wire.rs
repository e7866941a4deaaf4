//! The wire codec: big-endian integers and the two frame kinds that travel
//! over the byte stream once the handshake is done.
//!
//! | frame | bytes | fields                                           |
//! |-------|-------|--------------------------------------------------|
//! | data  | 16+N  | type(4)=1, length(4)=N, counter(8), payload(N)   |
//! | exit  | 8     | type(4)=2, reason(4)=0                           |
use vstd::prelude::*;

verus! {

/// Largest payload a data frame may carry: the size of the receive buffer.
pub const MAX_PAYLOAD: usize = 4096;

/// Type tag of a data frame.
pub const DATA_FRAME: u32 = 1;

/// Type tag of an exit frame.
pub const EXIT_FRAME: u32 = 2;

/// The only exit reason the protocol knows: a normal shutdown.
pub const EXIT_NORMAL: u32 = 0;

/// Bytes in front of a data frame's payload: type, length and counter.
pub const DATA_HEADER_LEN: usize = 16;

/// Bytes of a whole exit frame.
pub const EXIT_FRAME_LEN: usize = 8;

/// Bytes of a frame's type tag.
pub const TAG_LEN: usize = 4;

/// The four bytes of `v` in network byte order, most significant first.
pub open spec fn be32(v: u32) -> Seq<u8> {
    seq![
        (v / 0x100_0000) as u8,
        (v / 0x1_0000 % 0x100) as u8,
        (v / 0x100 % 0x100) as u8,
        (v % 0x100) as u8,
    ]
}

/// The eight bytes of `v` in network byte order, most significant first.
pub open spec fn be64(v: u64) -> Seq<u8> {
    be32((v / 0x1_0000_0000) as u32) + be32((v % 0x1_0000_0000) as u32)
}

/// The number that four bytes spell in network byte order.
pub open spec fn be32_value(s: Seq<u8>) -> u32
    recommends
        s.len() == 4,
{
    (s[0] * 0x100_0000 + s[1] * 0x1_0000 + s[2] * 0x100 + s[3]) as u32
}

/// Reading back what `be32` wrote gives the number that was written.
pub proof fn lemma_be32_round_trip(v: u32)
    ensures
        be32(v).len() == 4,
        be32_value(be32(v)) == v,
{
}

/// Writing what `be32_value` read gives back the same four bytes.
pub proof fn lemma_be32_value_round_trip(s: Seq<u8>)
    requires
        s.len() == 4,
    ensures
        be32(be32_value(s)) == s,
{
    let a = s[0] as int;
    let b = s[1] as int;
    let c = s[2] as int;
    let d = s[3] as int;
    let v = a * 0x100_0000 + b * 0x1_0000 + c * 0x100 + d;
    assert(v / 0x100_0000 == a);
    assert(v / 0x1_0000 == a * 0x100 + b);
    assert(v / 0x100 == a * 0x1_0000 + b * 0x100 + c);
    assert(v % 0x100 == d);
    assert(be32(be32_value(s)) =~= s);
}

/// Distinct numbers have distinct encodings.
pub proof fn lemma_be32_injective(a: u32, b: u32)
    requires
        be32(a) == be32(b),
    ensures
        a == b,
{
    lemma_be32_round_trip(a);
    lemma_be32_round_trip(b);
}

/// Appends a copy of `src` to `out`.
pub fn put_bytes(out: &mut Vec<u8>, src: &[u8])
    ensures
        final(out)@ == old(out)@ + src@,
{
    let mut i: usize = 0;
    while i < src.len()
        invariant
            i <= src.len(),
            out@ == old(out)@ + src@.subrange(0, i as int),
        decreases src.len() - i,
    {
        out.push(src[i]);
        i += 1;
        assert(out@ =~= old(out)@ + src@.subrange(0, i as int));
    }
    assert(src@.subrange(0, i as int) =~= src@);
}

/// Appends `v` to `out` in network byte order.
pub fn put_u32(out: &mut Vec<u8>, v: u32)
    ensures
        final(out)@ == old(out)@ + be32(v),
{
    let b0: u8 = (v / 0x100_0000) as u8;
    let b1: u8 = (v / 0x1_0000 % 0x100) as u8;
    let b2: u8 = (v / 0x100 % 0x100) as u8;
    let b3: u8 = (v % 0x100) as u8;
    out.push(b0);
    out.push(b1);
    out.push(b2);
    out.push(b3);
    assert(out@ =~= old(out)@ + be32(v));
}

/// Appends `v` to `out` in network byte order.
pub fn put_u64(out: &mut Vec<u8>, v: u64)
    ensures
        final(out)@ == old(out)@ + be64(v),
{
    let high: u32 = (v / 0x1_0000_0000) as u32;
    let low: u32 = (v % 0x1_0000_0000) as u32;
    put_u32(out, high);
    put_u32(out, low);
    assert(out@ =~= old(out)@ + be64(v));
}

/// Reads the number that the four bytes from `at` on spell in network byte
/// order.
pub fn get_u32(buf: &[u8], at: usize) -> (v: u32)
    requires
        at + 4 <= buf@.len(),
    ensures
        v == be32_value(buf@.subrange(at as int, at + 4)),
{
    let b0: u32 = buf[at] as u32;
    let b1: u32 = buf[at + 1] as u32;
    let b2: u32 = buf[at + 2] as u32;
    let b3: u32 = buf[at + 3] as u32;
    b0 * 0x100_0000 + b1 * 0x1_0000 + b2 * 0x100 + b3
}

/// The bytes of a data frame that carries `payload` under `counter`.
pub open spec fn data_frame(payload: Seq<u8>, counter: u64) -> Seq<u8>
    recommends
        payload.len() <= MAX_PAYLOAD,
{
    be32(DATA_FRAME) + be32(payload.len() as u32) + be64(counter) + payload
}

/// The bytes of an exit frame that gives `reason`.
pub open spec fn exit_frame(reason: u32) -> Seq<u8> {
    be32(EXIT_FRAME) + be32(reason)
}

/// Why a byte stream cannot be read as frames. None of these can be
/// recovered from: the stream's framing is lost.
#[derive(Debug, Clone, Copy, PartialEq, Eq, Structural)]
pub enum WireError {
    /// The type tag is neither that of a data frame nor that of an exit frame.
    UnknownFrameType(u32),
    /// An exit frame gives a reason other than the normal one.
    UnknownExitReason(u32),
    /// A data frame announces, or is to carry, more bytes than a frame may.
    Oversized(usize),
}

/// What the front of a byte buffer holds.
#[derive(Debug, PartialEq, Eq)]
pub enum Decoded {
    /// The frame is not all there: so many more bytes belong to it, at
    /// least, and reading exactly that many never reads past its end.
    NeedMore(usize),
    /// A data frame with this payload. Its counter is not kept.
    Data { payload: Vec<u8> },
    /// An exit frame with the normal reason.
    Exit,
}

/// The mathematical value of a `Decoded`.
pub enum DecodedView {
    NeedMore(usize),
    Data { payload: Seq<u8> },
    Exit,
}

impl View for Decoded {
    type V = DecodedView;

    open spec fn view(&self) -> DecodedView {
        match self {
            Decoded::NeedMore(n) => DecodedView::NeedMore(*n),
            Decoded::Data { payload } => DecodedView::Data { payload: payload@ },
            Decoded::Exit => DecodedView::Exit,
        }
    }
}

/// The frame grammar: what the front of `buf` decodes to.
///
/// The type tag comes first and decides the rest. A data frame's header is
/// read whole before its length is judged; its payload follows. An exit
/// frame is its tag and a reason. Bytes behind the first frame are not
/// looked at.
pub open spec fn spec_decode(buf: Seq<u8>) -> Result<DecodedView, WireError> {
    if buf.len() < TAG_LEN {
        Ok(DecodedView::NeedMore((TAG_LEN - buf.len()) as usize))
    } else {
        let tag = be32_value(buf.subrange(0, 4));
        if tag == DATA_FRAME {
            if buf.len() < DATA_HEADER_LEN {
                Ok(DecodedView::NeedMore((DATA_HEADER_LEN - buf.len()) as usize))
            } else {
                let length = be32_value(buf.subrange(4, 8)) as usize;
                if length > MAX_PAYLOAD {
                    Err(WireError::Oversized(length))
                } else if buf.len() < DATA_HEADER_LEN + length {
                    Ok(DecodedView::NeedMore((DATA_HEADER_LEN + length - buf.len()) as usize))
                } else {
                    Ok(
                        DecodedView::Data {
                            payload: buf.subrange(
                                DATA_HEADER_LEN as int,
                                DATA_HEADER_LEN + length,
                            ),
                        },
                    )
                }
            }
        } else if tag == EXIT_FRAME {
            if buf.len() < EXIT_FRAME_LEN {
                Ok(DecodedView::NeedMore((EXIT_FRAME_LEN - buf.len()) as usize))
            } else {
                let reason = be32_value(buf.subrange(4, 8));
                if reason == EXIT_NORMAL {
                    Ok(DecodedView::Exit)
                } else {
                    Err(WireError::UnknownExitReason(reason))
                }
            }
        } else {
            Err(WireError::UnknownFrameType(tag))
        }
    }
}

/// How many bytes of `buf` the frame at its front takes up, where
/// `spec_decode` finds a whole frame there.
pub open spec fn spec_frame_len(buf: Seq<u8>) -> nat {
    match spec_decode(buf) {
        Ok(DecodedView::Data { payload }) => DATA_HEADER_LEN as nat + payload.len(),
        Ok(DecodedView::Exit) => EXIT_FRAME_LEN as nat,
        _ => 0,
    }
}

/// Whether an exec decoding result is the one the grammar gives.
pub open spec fn decoded_as(r: Result<Decoded, WireError>, model: Result<DecodedView, WireError>) -> bool {
    match r {
        Ok(d) => model == Ok::<DecodedView, WireError>(d@),
        Err(e) => model == Err::<DecodedView, WireError>(e),
    }
}

/// Appends a data frame that carries `payload` under `counter`.
///
/// A payload longer than `MAX_PAYLOAD` is refused and `out` is left as it
/// was.
pub fn encode_data_frame(out: &mut Vec<u8>, payload: &[u8], counter: u64) -> (r: Result<
    (),
    WireError,
>)
    ensures
        payload@.len() <= MAX_PAYLOAD ==> r == Ok::<(), WireError>(()) && final(out)@ == old(out)@
            + data_frame(payload@, counter),
        payload@.len() > MAX_PAYLOAD ==> r == Err::<(), WireError>(
            WireError::Oversized(payload.len()),
        ) && final(out)@ == old(out)@,
{
    if payload.len() > MAX_PAYLOAD {
        return Err(WireError::Oversized(payload.len()));
    }
    put_u32(out, DATA_FRAME);
    put_u32(out, payload.len() as u32);
    put_u64(out, counter);
    put_bytes(out, payload);
    assert(out@ =~= old(out)@ + data_frame(payload@, counter));
    Ok(())
}

/// Appends an exit frame that gives `reason`.
pub fn encode_exit_frame(out: &mut Vec<u8>, reason: u32)
    ensures
        final(out)@ == old(out)@ + exit_frame(reason),
{
    put_u32(out, EXIT_FRAME);
    put_u32(out, reason);
    assert(out@ =~= old(out)@ + exit_frame(reason));
}

/// Decodes the frame at the front of `buf`, as far as it is there.
pub fn decode_frame(buf: &[u8]) -> (r: Result<Decoded, WireError>)
    ensures
        decoded_as(r, spec_decode(buf@)),
{
    let len: usize = buf.len();
    if len < TAG_LEN {
        return Ok(Decoded::NeedMore(TAG_LEN - len));
    }
    let tag: u32 = get_u32(buf, 0);
    if tag == DATA_FRAME {
        if len < DATA_HEADER_LEN {
            return Ok(Decoded::NeedMore(DATA_HEADER_LEN - len));
        }
        let length: usize = get_u32(buf, 4) as usize;
        if length > MAX_PAYLOAD {
            return Err(WireError::Oversized(length));
        }
        if len < DATA_HEADER_LEN + length {
            return Ok(Decoded::NeedMore(DATA_HEADER_LEN + length - len));
        }
        let mut payload: Vec<u8> = Vec::new();
        put_bytes(&mut payload, &buf[DATA_HEADER_LEN..DATA_HEADER_LEN + length]);
        assert(payload@ =~= buf@.subrange(DATA_HEADER_LEN as int, DATA_HEADER_LEN + length));
        Ok(Decoded::Data { payload })
    } else if tag == EXIT_FRAME {
        if len < EXIT_FRAME_LEN {
            return Ok(Decoded::NeedMore(EXIT_FRAME_LEN - len));
        }
        let reason: u32 = get_u32(buf, 4);
        if reason == EXIT_NORMAL {
            Ok(Decoded::Exit)
        } else {
            Err(WireError::UnknownExitReason(reason))
        }
    } else {
        Err(WireError::UnknownFrameType(tag))
    }
}

/// A data frame is sixteen bytes longer than its payload, and its first
/// eight bytes spell its type and its length.
pub proof fn lemma_data_frame_layout(payload: Seq<u8>, counter: u64)
    requires
        payload.len() <= MAX_PAYLOAD,
    ensures
        data_frame(payload, counter).len() == DATA_HEADER_LEN + payload.len(),
        data_frame(payload, counter).subrange(0, 4) == be32(DATA_FRAME),
        data_frame(payload, counter).subrange(4, 8) == be32(payload.len() as u32),
        data_frame(payload, counter).subrange(8, 16) == be64(counter),
        data_frame(payload, counter).subrange(
            DATA_HEADER_LEN as int,
            DATA_HEADER_LEN + payload.len(),
        ) == payload,
{
    let frame = data_frame(payload, counter);
    assert(frame.subrange(0, 4) =~= be32(DATA_FRAME));
    assert(frame.subrange(4, 8) =~= be32(payload.len() as u32));
    assert(frame.subrange(8, 16) =~= be64(counter));
    assert(frame.subrange(DATA_HEADER_LEN as int, DATA_HEADER_LEN + payload.len()) =~= payload);
}

/// Decoding an encoded data frame gives back its payload exactly, whatever
/// the counter was and whatever follows the frame on the stream.
pub proof fn lemma_data_frame_round_trip(payload: Seq<u8>, counter: u64, rest: Seq<u8>)
    requires
        payload.len() <= MAX_PAYLOAD,
    ensures
        spec_decode(data_frame(payload, counter) + rest) == Ok::<DecodedView, WireError>(
            DecodedView::Data { payload },
        ),
        spec_frame_len(data_frame(payload, counter) + rest) == data_frame(payload, counter).len(),
{
    let frame = data_frame(payload, counter);
    let buf = frame + rest;
    lemma_data_frame_layout(payload, counter);
    lemma_be32_round_trip(DATA_FRAME);
    lemma_be32_round_trip(payload.len() as u32);
    assert(buf.subrange(0, 4) =~= frame.subrange(0, 4));
    assert(buf.subrange(4, 8) =~= frame.subrange(4, 8));
    assert(buf.subrange(DATA_HEADER_LEN as int, DATA_HEADER_LEN + payload.len()) =~= payload);
}

/// How many bytes the decoder asks for once it holds the first `k` bytes of
/// a data frame with a payload of `length` bytes: the rest of the type tag,
/// then the rest of the header, then the rest of the payload.
pub open spec fn data_frame_missing(length: nat, k: int) -> int {
    if k < TAG_LEN {
        TAG_LEN - k
    } else if k < DATA_HEADER_LEN {
        DATA_HEADER_LEN - k
    } else {
        DATA_HEADER_LEN + length - k
    }
}

/// While a data frame is only partly there, the decoder asks for more: for
/// the type tag, then for the header, then for the payload, and never for
/// more than the frame still has.
pub proof fn lemma_data_frame_prefix(payload: Seq<u8>, counter: u64, k: int)
    requires
        payload.len() <= MAX_PAYLOAD,
        0 <= k < data_frame(payload, counter).len(),
    ensures
        spec_decode(data_frame(payload, counter).subrange(0, k)) == Ok::<DecodedView, WireError>(
            DecodedView::NeedMore(data_frame_missing(payload.len(), k) as usize),
        ),
        0 < data_frame_missing(payload.len(), k) <= data_frame(payload, counter).len() - k,
{
    let frame = data_frame(payload, counter);
    let part = frame.subrange(0, k);
    lemma_data_frame_layout(payload, counter);
    lemma_be32_round_trip(DATA_FRAME);
    lemma_be32_round_trip(payload.len() as u32);
    if k >= 4 {
        assert(part.subrange(0, 4) =~= frame.subrange(0, 4));
    }
    if k >= 8 {
        assert(part.subrange(4, 8) =~= frame.subrange(4, 8));
    }
}

/// Decoding an encoded exit frame gives the terminal signal where the reason
/// is the normal one, and fails with that reason where it is any other.
pub proof fn lemma_exit_frame_round_trip(reason: u32, rest: Seq<u8>)
    ensures
        exit_frame(reason).len() == EXIT_FRAME_LEN,
        reason == EXIT_NORMAL ==> spec_decode(exit_frame(reason) + rest) == Ok::<
            DecodedView,
            WireError,
        >(DecodedView::Exit),
        reason != EXIT_NORMAL ==> spec_decode(exit_frame(reason) + rest) == Err::<
            DecodedView,
            WireError,
        >(WireError::UnknownExitReason(reason)),
{
    let buf = exit_frame(reason) + rest;
    lemma_be32_round_trip(EXIT_FRAME);
    lemma_be32_round_trip(reason);
    assert(buf.subrange(0, 4) =~= be32(EXIT_FRAME));
    assert(buf.subrange(4, 8) =~= be32(reason));
}

/// While an exit frame is only partly there, the decoder asks for more, and
/// never for more than the frame still has.
pub proof fn lemma_exit_frame_prefix(reason: u32, k: int)
    requires
        0 <= k < EXIT_FRAME_LEN,
    ensures
        match spec_decode(exit_frame(reason).subrange(0, k)) {
            Ok(DecodedView::NeedMore(n)) => 0 < n && k + n <= EXIT_FRAME_LEN,
            _ => false,
        },
{
    let part = exit_frame(reason).subrange(0, k);
    lemma_be32_round_trip(EXIT_FRAME);
    if k >= 4 {
        assert(part.subrange(0, 4) =~= be32(EXIT_FRAME));
    }
}

/// A type tag other than the two known ones is refused as soon as it is
/// read, whatever follows it.
pub proof fn lemma_unknown_tag_rejected(tag: u32, rest: Seq<u8>)
    requires
        tag != DATA_FRAME,
        tag != EXIT_FRAME,
    ensures
        spec_decode(be32(tag) + rest) == Err::<DecodedView, WireError>(
            WireError::UnknownFrameType(tag),
        ),
{
    lemma_be32_round_trip(tag);
    assert((be32(tag) + rest).subrange(0, 4) =~= be32(tag));
}

/// Decoding is settled by the bytes it has looked at. What the front of a
/// buffer decodes to, whether a frame or a failure, stays what it is however
/// the buffer goes on; and while a frame is not all there, bytes short of
/// what the decoder asks for only lower what it asks for.
pub proof fn lemma_decode_settled(buf: Seq<u8>, later: Seq<u8>)
    requires
        buf.is_prefix_of(later),
    ensures
        match spec_decode(buf) {
            Ok(DecodedView::NeedMore(n)) => later.len() < buf.len() + n ==> spec_decode(later)
                == Ok::<DecodedView, WireError>(
                DecodedView::NeedMore((buf.len() + n - later.len()) as usize),
            ),
            settled => spec_decode(later) == settled,
        },
{
    if buf.len() >= 4 {
        assert(later.subrange(0, 4) =~= buf.subrange(0, 4));
    }
    if buf.len() >= 8 {
        assert(later.subrange(4, 8) =~= buf.subrange(4, 8));
    }
    if buf.len() >= DATA_HEADER_LEN {
        let length = be32_value(buf.subrange(4, 8)) as usize;
        if buf.len() >= DATA_HEADER_LEN + length {
            assert(later.subrange(DATA_HEADER_LEN as int, DATA_HEADER_LEN + length)
                =~= buf.subrange(DATA_HEADER_LEN as int, DATA_HEADER_LEN + length));
        }
    }
}

} // verus!
