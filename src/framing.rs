use vstd::prelude::*;

verus! {

/// Largest payload the host sends to the controller.
pub const UI_TO_ELIXIR_CAP: usize = 65_536;

/// Largest payload the host accepts from the controller.
pub const ELIXIR_TO_UI_CAP: usize = 1_048_576;

/// The broad class of a framing failure.
#[derive(Debug, Clone, Copy, PartialEq, Eq)]
pub enum ErrorKind {
    /// The stream ended inside a frame.
    UnexpectedEof,
    /// The frame breaks the size rules.
    InvalidData,
}

/// Why a frame could not be read or written.
#[derive(Debug, Clone, Copy, PartialEq, Eq)]
pub enum FrameError {
    /// The stream ended inside the header or the payload.
    UnexpectedEof,
    /// The payload is longer than the ceiling.
    TooLarge { len: usize, max: usize },
    /// The payload length does not fit in the 32-bit header.
    LengthOverflow { len: usize },
}

impl FrameError {
    pub open spec fn spec_kind(&self) -> ErrorKind {
        match self {
            FrameError::UnexpectedEof => ErrorKind::UnexpectedEof,
            _ => ErrorKind::InvalidData,
        }
    }

    /// The class of the failure.
    pub fn kind(&self) -> (r: ErrorKind)
        ensures
            r == self.spec_kind(),
    {
        match self {
            FrameError::UnexpectedEof => ErrorKind::UnexpectedEof,
            _ => ErrorKind::InvalidData,
        }
    }
}

/// The four big-endian bytes of `n`.
pub open spec fn be32_bytes(n: u32) -> Seq<u8> {
    seq![
        (n / 0x100_0000) as u8,
        ((n / 0x1_0000) % 0x100) as u8,
        ((n / 0x100) % 0x100) as u8,
        (n % 0x100) as u8,
    ]
}

/// The number that four big-endian bytes write.
pub open spec fn be32_value(b: Seq<u8>) -> nat {
    b[0] as nat * 0x100_0000 + b[1] as nat * 0x1_0000 + b[2] as nat * 0x100 + b[3] as nat
}

/// A whole frame: the header with the payload's length, then the payload.
pub open spec fn frame_bytes(payload: Seq<u8>) -> Seq<u8>
    recommends
        payload.len() <= u32::MAX,
{
    be32_bytes(payload.len() as u32) + payload
}

/// The result of reading one frame from the front of `input` with the given
/// ceiling, and the bytes left unread. A stream that ends inside the frame is
/// read to its end.
pub open spec fn read_frame_v(input: Seq<u8>, max: usize) -> (Result<Seq<u8>, FrameError>, Seq<u8>) {
    if input.len() < 4 {
        (Err(FrameError::UnexpectedEof), Seq::empty())
    } else {
        let len = be32_value(input.subrange(0, 4));
        if len > max {
            (
                Err(FrameError::TooLarge { len: len as usize, max }),
                input.subrange(4, input.len() as int),
            )
        } else if input.len() - 4 < len {
            (Err(FrameError::UnexpectedEof), Seq::empty())
        } else {
            (
                Ok(input.subrange(4, 4 + len as int)),
                input.subrange(4 + len as int, input.len() as int),
            )
        }
    }
}

pub proof fn lemma_be32_round_trip(n: u32)
    ensures
        be32_value(be32_bytes(n)) == n,
{
    let b = be32_bytes(n);
    assert(b[0] as nat == n / 0x100_0000);
    assert(b[1] as nat == (n / 0x1_0000) % 0x100);
    assert(b[2] as nat == (n / 0x100) % 0x100);
    assert(b[3] as nat == n % 0x100);
    assert(n == (n / 0x100_0000) * 0x100_0000 + ((n / 0x1_0000) % 0x100) * 0x1_0000 + ((n / 0x100)
        % 0x100) * 0x100 + n % 0x100) by (nonlinear_arith);
}

/// A source of bytes read from the front.
pub struct ByteCursor {
    data: Vec<u8>,
    pos: usize,
}

impl View for ByteCursor {
    type V = Seq<u8>;

    /// The bytes not yet read.
    closed spec fn view(&self) -> Seq<u8> {
        self.data@.subrange(self.pos as int, self.data@.len() as int)
    }
}

impl ByteCursor {
    pub closed spec fn wf(&self) -> bool {
        self.pos <= self.data.len()
    }

    /// A cursor at the start of `data`.
    pub fn new(data: Vec<u8>) -> (r: ByteCursor)
        ensures
            r.wf(),
            r@ == data@,
    {
        let r = ByteCursor { data, pos: 0 };
        assert(r@ =~= r.data@);
        r
    }

    /// How many bytes are left.
    pub fn remaining(&self) -> (r: usize)
        requires
            self.wf(),
        ensures
            r == self@.len(),
    {
        self.data.len() - self.pos
    }

    /// Takes the next `n` bytes.
    fn take(&mut self, n: usize) -> (r: Vec<u8>)
        requires
            old(self).wf(),
            n <= old(self)@.len(),
        ensures
            final(self).wf(),
            r@ == old(self)@.subrange(0, n as int),
            final(self)@ == old(self)@.subrange(n as int, old(self)@.len() as int),
    {
        let mut out: Vec<u8> = Vec::new();
        let mut i: usize = 0;
        while i < n
            invariant
                self.wf(),
                i <= n,
                n <= self.data.len() - self.pos,
                out@ == self.data@.subrange(self.pos as int, self.pos + i),
            decreases n - i,
        {
            out.push(self.data[self.pos + i]);
            assert(out@ =~= self.data@.subrange(self.pos as int, self.pos + i + 1));
            i = i + 1;
        }
        self.pos = self.pos + n;
        assert(out@ =~= old(self)@.subrange(0, n as int));
        assert(self@ =~= old(self)@.subrange(n as int, old(self)@.len() as int));
        out
    }

    /// Skips to the end.
    fn drain(&mut self)
        requires
            old(self).wf(),
        ensures
            final(self).wf(),
            final(self)@ == Seq::<u8>::empty(),
    {
        self.pos = self.data.len();
        assert(self@ =~= Seq::<u8>::empty());
    }
}

/// The payload length that a frame header announces, where it lies within
/// the ceiling.
pub fn decode_frame_header(header: &[u8], max_payload: usize) -> (r: Result<usize, FrameError>)
    requires
        header@.len() == 4,
    ensures
        ({
            let len = be32_value(header@);
            if len > max_payload {
                r == Err::<usize, FrameError>(FrameError::TooLarge { len: len as usize, max: max_payload })
            } else {
                r == Ok::<usize, FrameError>(len as usize)
            }
        }),
{
    let len: u32 = header[0] as u32 * 0x100_0000 + header[1] as u32 * 0x1_0000 + header[2] as u32
        * 0x100 + header[3] as u32;
    if len as usize > max_payload {
        Err(FrameError::TooLarge { len: len as usize, max: max_payload })
    } else {
        Ok(len as usize)
    }
}

/// The header that announces a payload of `len` bytes.
pub fn encode_frame_header(len: u32) -> (r: Vec<u8>)
    ensures
        r@ == be32_bytes(len),
{
    let mut r: Vec<u8> = Vec::new();
    r.push((len / 0x100_0000) as u8);
    r.push(((len / 0x1_0000) % 0x100) as u8);
    r.push(((len / 0x100) % 0x100) as u8);
    r.push((len % 0x100) as u8);
    assert(r@ =~= be32_bytes(len));
    r
}

/// Reads one frame: a four-byte big-endian length, then that many payload
/// bytes, which must be no more than `max_payload`.
pub fn read_frame(reader: &mut ByteCursor, max_payload: usize) -> (r: Result<Vec<u8>, FrameError>)
    requires
        old(reader).wf(),
    ensures
        final(reader).wf(),
        (
            match r {
                Ok(p) => Ok(p@),
                Err(e) => Err(e),
            },
            final(reader)@,
        ) == read_frame_v(old(reader)@, max_payload),
{
    if reader.remaining() < 4 {
        reader.drain();
        return Err(FrameError::UnexpectedEof);
    }
    let header = reader.take(4);
    let len = match decode_frame_header(header.as_slice(), max_payload) {
        Ok(len) => len,
        Err(e) => return Err(e),
    };
    if reader.remaining() < len {
        reader.drain();
        return Err(FrameError::UnexpectedEof);
    }
    let payload = reader.take(len);
    proof {
        let input = old(reader)@;
        assert(input.subrange(4, input.len() as int).subrange(0, len as int) =~= input.subrange(
            4,
            4 + len,
        ));
        assert(input.subrange(4, input.len() as int).subrange(len as int, input.len() - 4)
            =~= input.subrange(4 + len, input.len() as int));
    }
    Ok(payload)
}

/// Appends one frame holding `payload` to `writer`; a payload over
/// `max_payload`, or over what the header can announce, is refused and
/// nothing is written.
pub fn write_frame(writer: &mut Vec<u8>, payload: &[u8], max_payload: usize) -> (r: Result<
    (),
    FrameError,
>)
    ensures
        payload@.len() > max_payload ==> r == Err::<(), FrameError>(
            FrameError::TooLarge { len: payload@.len() as usize, max: max_payload },
        ) && final(writer)@ == old(writer)@,
        payload@.len() <= max_payload && payload@.len() > u32::MAX ==> r == Err::<(), FrameError>(
            FrameError::LengthOverflow { len: payload@.len() as usize },
        ) && final(writer)@ == old(writer)@,
        payload@.len() <= max_payload && payload@.len() <= u32::MAX ==> r is Ok && final(writer)@
            == old(writer)@ + frame_bytes(payload@),
{
    let n = payload.len();
    if n > max_payload {
        return Err(FrameError::TooLarge { len: n, max: max_payload });
    }
    if n > u32::MAX as usize {
        return Err(FrameError::LengthOverflow { len: n });
    }
    let header = encode_frame_header(n as u32);
    let ghost start = writer@;
    let mut i: usize = 0;
    while i < 4
        invariant
            i <= 4,
            header@ == be32_bytes(n as u32),
            writer@ == start + header@.subrange(0, i as int),
        decreases 4 - i,
    {
        writer.push(header[i]);
        assert(header@.subrange(0, i + 1) =~= header@.subrange(0, i as int).push(header@[i as int]));
        i = i + 1;
    }
    let mut j: usize = 0;
    while j < n
        invariant
            j <= n,
            n == payload@.len(),
            header@ == be32_bytes(n as u32),
            writer@ == start + header@ + payload@.subrange(0, j as int),
        decreases n - j,
    {
        writer.push(payload[j]);
        assert(payload@.subrange(0, j + 1) =~= payload@.subrange(0, j as int).push(payload@[j as int]));
        assert(writer@ =~= start + header@ + payload@.subrange(0, j + 1));
        j = j + 1;
    }
    assert(payload@.subrange(0, n as int) =~= payload@);
    assert(header@.subrange(0, 4) =~= header@);
    assert(writer@ =~= start + frame_bytes(payload@));
    Ok(())
}

/// A frame written with a ceiling that admits its payload reads back as the
/// same payload, leaving what followed it unread.
pub proof fn lemma_frame_round_trip(payload: Seq<u8>, rest: Seq<u8>, max: usize)
    requires
        payload.len() <= max,
        payload.len() <= u32::MAX,
    ensures
        read_frame_v(frame_bytes(payload) + rest, max) == (
            Ok::<Seq<u8>, FrameError>(payload),
            rest,
        ),
{
    let input = frame_bytes(payload) + rest;
    let n = payload.len() as u32;
    lemma_be32_round_trip(n);
    assert(input.subrange(0, 4) =~= be32_bytes(n));
    assert(input.subrange(4, 4 + payload.len() as int) =~= payload);
    assert(input.subrange(4 + payload.len() as int, input.len() as int) =~= rest);
}

/// A stream that ends inside a frame whose payload is within the ceiling
/// reads as an unexpected end.
pub proof fn lemma_truncated_frame_is_eof(payload: Seq<u8>, cut: int, max: usize)
    requires
        payload.len() <= max,
        payload.len() <= u32::MAX,
        0 <= cut < frame_bytes(payload).len(),
    ensures
        read_frame_v(frame_bytes(payload).subrange(0, cut), max).0 == Err::<Seq<u8>, FrameError>(
            FrameError::UnexpectedEof,
        ),
        read_frame_v(frame_bytes(payload).subrange(0, cut), max).0->Err_0.spec_kind()
            == ErrorKind::UnexpectedEof,
{
    let input = frame_bytes(payload).subrange(0, cut);
    if cut >= 4 {
        lemma_be32_round_trip(payload.len() as u32);
        assert(input.subrange(0, 4) =~= be32_bytes(payload.len() as u32));
    }
}

/// A header that announces more than the ceiling reads as invalid data,
/// whatever follows it.
pub proof fn lemma_oversized_frame_is_invalid(input: Seq<u8>, max: usize)
    requires
        input.len() >= 4,
        be32_value(input.subrange(0, 4)) > max,
    ensures
        read_frame_v(input, max).0 is Err,
        read_frame_v(input, max).0->Err_0.spec_kind() == ErrorKind::InvalidData,
{
}

} // verus!
