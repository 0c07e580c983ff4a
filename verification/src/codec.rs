//! Bounded newline-delimited framing for every local IPC session.
//!
//! A frame is one UTF-8 line of at most `MAX_IPC_FRAME_LENGTH` bytes terminated by LF. A carriage
//! return anywhere in a frame is rejected, and the codec refuses all further work after any
//! framing violation.

use vstd::prelude::*;
use vstd::utf8::*;

verus! {

/// The largest frame body, in bytes, not counting the terminating LF.
pub const MAX_IPC_FRAME_LENGTH: usize = 1048576;

pub const LF: u8 = 10;

pub const CR: u8 = 13;

/// A framing failure.
#[derive(Debug, Clone, Copy, PartialEq, Eq, Structural)]
pub enum IpcCodecError {
    FrameTooLarge,
    EmbeddedDelimiter,
    InvalidUtf8,
    Serialization,
    UnterminatedFrame,
    Poisoned,
}

/// Decodes bytes as UTF-8.
#[verifier::external_body]
pub(crate) fn utf8_to_string(bytes: &[u8]) -> (r: Option<String>)
    ensures
        r is Some <==> valid_utf8(bytes@),
        r matches Some(s) ==> s@ == decode_utf8(bytes@),
{
    match std::str::from_utf8(bytes) {
        Ok(text) => Some(text.to_owned()),
        Err(_) => None,
    }
}

/// The index of the first LF byte.
pub open spec fn first_lf(bytes: Seq<u8>) -> Option<int>
    decreases bytes.len(),
{
    if bytes.len() == 0 {
        None
    } else if bytes.last() == LF && first_lf(bytes.drop_last()) is None {
        Some(bytes.len() - 1)
    } else {
        first_lf(bytes.drop_last())
    }
}

/// The candidate frame: everything up to and including the first LF, or the whole buffer.
pub open spec fn frame_end(bytes: Seq<u8>) -> int {
    match first_lf(bytes) {
        Some(k) => k + 1,
        None => bytes.len() as int,
    }
}

pub open spec fn contains_byte(bytes: Seq<u8>, b: u8) -> bool {
    exists|i: int| 0 <= i < bytes.len() && bytes[i] == b
}

/// What one decode step does with a buffer.
pub enum DecodeStep {
    /// A complete frame with its text; the frame and its LF leave the buffer.
    Frame(Seq<char>),
    /// No complete frame yet; the buffer is unchanged.
    Incomplete,
    /// A framing violation; the codec is poisoned.
    Failed(IpcCodecError),
}

/// The result of decoding from `buffer` with a codec that is not poisoned.
pub open spec fn decode_step(buffer: Seq<u8>) -> DecodeStep {
    if contains_byte(buffer.subrange(0, frame_end(buffer)), CR) {
        DecodeStep::Failed(IpcCodecError::EmbeddedDelimiter)
    } else {
        match first_lf(buffer) {
            Some(k) if k <= MAX_IPC_FRAME_LENGTH => if valid_utf8(buffer.subrange(0, k)) {
                DecodeStep::Frame(decode_utf8(buffer.subrange(0, k)))
            } else {
                DecodeStep::Failed(IpcCodecError::InvalidUtf8)
            },
            _ => if buffer.len() > MAX_IPC_FRAME_LENGTH {
                DecodeStep::Failed(IpcCodecError::FrameTooLarge)
            } else {
                DecodeStep::Incomplete
            },
        }
    }
}

/// The bytes that a decode step removes from the front of the buffer.
pub open spec fn decode_consumed(buffer: Seq<u8>) -> int {
    match decode_step(buffer) {
        DecodeStep::Frame(_) => first_lf(buffer)->0 + 1,
        DecodeStep::Failed(IpcCodecError::InvalidUtf8) => first_lf(buffer)->0 + 1,
        _ => 0,
    }
}

/// A one-line UTF-8 codec that fails closed after any framing violation.
#[derive(Debug)]
pub struct BoundedNdjsonCodec {
    poisoned: bool,
}

impl BoundedNdjsonCodec {
    pub closed spec fn is_poisoned(&self) -> bool {
        self.poisoned
    }

    pub fn new() -> (r: BoundedNdjsonCodec)
        ensures
            !r.is_poisoned(),
    {
        BoundedNdjsonCodec { poisoned: false }
    }

    fn first_lf_index(source: &Vec<u8>) -> (r: Option<usize>)
        ensures
            r matches Some(k) ==> first_lf(source@) == Some(k as int) && k < source.len(),
            r is None ==> first_lf(source@) is None,
    {
        let mut i: usize = 0;
        while i < source.len()
            invariant
                i <= source.len(),
                first_lf(source@.subrange(0, i as int)) is None,
            decreases source.len() - i,
        {
            proof {
                assert(source@.subrange(0, i + 1).drop_last() =~= source@.subrange(0, i as int));
            }
            if source[i] == LF {
                proof {
                    lemma_first_lf_prefix(source@, i as int + 1);
                }
                return Some(i);
            }
            i = i + 1;
        }
        assert(source@.subrange(0, i as int) =~= source@);
        None
    }

    fn has_cr_before(source: &Vec<u8>, end: usize) -> (r: bool)
        requires
            end <= source.len(),
        ensures
            r == contains_byte(source@.subrange(0, end as int), CR),
    {
        let mut i: usize = 0;
        while i < end
            invariant
                i <= end <= source.len(),
                forall|j: int| 0 <= j < i ==> source@[j] != CR,
            decreases end - i,
        {
            if source[i] == CR {
                assert(source@.subrange(0, end as int)[i as int] == CR);
                return true;
            }
            i = i + 1;
        }
        assert forall|j: int| 0 <= j < end implies source@.subrange(0, end as int)[j] != CR by {}
        false
    }

    /// Decodes one frame from the front of `source`.
    pub fn decode(&mut self, source: &mut Vec<u8>) -> (r: Result<Option<String>, IpcCodecError>)
        ensures
            old(self).is_poisoned() ==> r == Err::<Option<String>, _>(IpcCodecError::Poisoned)
                && final(self).is_poisoned() && final(source)@ == old(source)@,
            !old(self).is_poisoned() ==> {
                let step = decode_step(old(source)@);
                &&& final(source)@ == old(source)@.subrange(
                    decode_consumed(old(source)@),
                    old(source)@.len() as int,
                )
                &&& match step {
                    DecodeStep::Frame(text) => r matches Ok(Some(s)) && s@ == text
                        && !final(self).is_poisoned(),
                    DecodeStep::Incomplete => r matches Ok(None) && !final(self).is_poisoned(),
                    DecodeStep::Failed(e) => r == Err::<Option<String>, _>(e)
                        && final(self).is_poisoned(),
                }
            },
    {
        if self.poisoned {
            return Err(IpcCodecError::Poisoned);
        }
        assert(old(source)@.subrange(0, old(source)@.len() as int) =~= old(source)@);
        let lf = Self::first_lf_index(source);
        let end = match lf {
            Some(k) => k + 1,
            None => source.len(),
        };
        if Self::has_cr_before(source, end) {
            self.poisoned = true;
            return Err(IpcCodecError::EmbeddedDelimiter);
        }
        match lf {
            Some(k) => {
                if k <= MAX_IPC_FRAME_LENGTH {
                    let mut line = source.split_off(k + 1);
                    std::mem::swap(source, &mut line);
                    let _terminator = line.split_off(k);
                    assert(line@ =~= old(source)@.subrange(0, k as int));
                    assert(source@ =~= old(source)@.subrange(k + 1, old(source)@.len() as int));
                    assert(frame_end(old(source)@) == k + 1);
                    match utf8_to_string(line.as_slice()) {
                        Some(text) => {
                            return Ok(Some(text));
                        },
                        None => {
                            self.poisoned = true;
                            return Err(IpcCodecError::InvalidUtf8);
                        },
                    }
                }
            },
            None => {},
        }
        assert(old(source)@.subrange(0, old(source)@.len() as int) =~= old(source)@);
        if source.len() > MAX_IPC_FRAME_LENGTH {
            self.poisoned = true;
            return Err(IpcCodecError::FrameTooLarge);
        }
        Ok(None)
    }

    /// Decodes at the end of the input: a partial frame left in the buffer is an error.
    pub fn decode_eof(&mut self, source: &mut Vec<u8>) -> (r: Result<Option<String>, IpcCodecError>)
        ensures
            old(self).is_poisoned() ==> r == Err::<Option<String>, _>(IpcCodecError::Poisoned)
                && final(self).is_poisoned(),
            !old(self).is_poisoned() ==> {
                let step = decode_step(old(source)@);
                &&& final(source)@ == old(source)@.subrange(
                    decode_consumed(old(source)@),
                    old(source)@.len() as int,
                )
                &&& match step {
                    DecodeStep::Frame(text) => r matches Ok(Some(s)) && s@ == text
                        && !final(self).is_poisoned(),
                    DecodeStep::Incomplete => if old(source)@.len() == 0 {
                        r matches Ok(None) && !final(self).is_poisoned()
                    } else {
                        r == Err::<Option<String>, _>(IpcCodecError::UnterminatedFrame)
                            && final(self).is_poisoned()
                    },
                    DecodeStep::Failed(e) => r == Err::<Option<String>, _>(e)
                        && final(self).is_poisoned(),
                }
            },
    {
        match self.decode(source) {
            Ok(Some(frame)) => Ok(Some(frame)),
            Ok(None) => {
                if source.len() == 0 {
                    Ok(None)
                } else {
                    self.poisoned = true;
                    Err(IpcCodecError::UnterminatedFrame)
                }
            },
            Err(e) => Err(e),
        }
    }

    /// Appends `frame` and its LF to `destination`.
    pub fn encode(&mut self, frame: String, destination: &mut Vec<u8>) -> (r: Result<(), IpcCodecError>)
        ensures
            old(self).is_poisoned() ==> r == Err::<(), _>(IpcCodecError::Poisoned)
                && final(self).is_poisoned() && final(destination)@ == old(destination)@,
            !old(self).is_poisoned() ==> {
                let bytes = encode_utf8(frame@);
                if bytes.len() > MAX_IPC_FRAME_LENGTH {
                    r == Err::<(), _>(IpcCodecError::FrameTooLarge) && final(self).is_poisoned()
                        && final(destination)@ == old(destination)@
                } else if contains_byte(bytes, CR) || contains_byte(bytes, LF) {
                    r == Err::<(), _>(IpcCodecError::EmbeddedDelimiter) && final(self).is_poisoned()
                        && final(destination)@ == old(destination)@
                } else {
                    r == Ok::<(), IpcCodecError>(()) && !final(self).is_poisoned()
                        && final(destination)@ == old(destination)@ + bytes.push(LF)
                }
            },
    {
        if self.poisoned {
            return Err(IpcCodecError::Poisoned);
        }
        let bytes = frame.as_str().as_bytes();
        if bytes.len() > MAX_IPC_FRAME_LENGTH {
            self.poisoned = true;
            return Err(IpcCodecError::FrameTooLarge);
        }
        let mut i: usize = 0;
        while i < bytes.len()
            invariant
                i <= bytes.len(),
                bytes@ == encode_utf8(frame@),
                bytes@.len() <= MAX_IPC_FRAME_LENGTH,
                !self.poisoned,
                !old(self).poisoned,
                destination@ == old(destination)@,
                forall|j: int| 0 <= j < i ==> bytes@[j] != CR && bytes@[j] != LF,
            decreases bytes.len() - i,
        {
            if bytes[i] == CR || bytes[i] == LF {
                assert(bytes@[i as int] == CR || bytes@[i as int] == LF);
                self.poisoned = true;
                return Err(IpcCodecError::EmbeddedDelimiter);
            }
            i = i + 1;
        }
        let ghost before = destination@;
        let mut j: usize = 0;
        while j < bytes.len()
            invariant
                j <= bytes.len(),
                destination@ == before + bytes@.subrange(0, j as int),
            decreases bytes.len() - j,
        {
            destination.push(bytes[j]);
            assert(bytes@.subrange(0, j as int).push(bytes@[j as int]) =~= bytes@.subrange(0, j + 1));
            j = j + 1;
        }
        assert(bytes@.subrange(0, bytes@.len() as int) =~= bytes@);
        assert(!contains_byte(bytes@, CR) && !contains_byte(bytes@, LF));
        destination.push(LF);
        assert(before + bytes@ + seq![LF] =~= before + bytes@.push(LF));
        Ok(())
    }
}

/// An output buffer that refuses to grow beyond one frame body.
#[derive(Debug)]
pub struct BoundedFrameBuffer {
    bytes: Vec<u8>,
    exceeded: bool,
}

impl BoundedFrameBuffer {
    pub closed spec fn spec_bytes(&self) -> Seq<u8> {
        self.bytes@
    }

    pub closed spec fn spec_exceeded(&self) -> bool {
        self.exceeded
    }

    pub fn new() -> (r: BoundedFrameBuffer)
        ensures
            r.spec_bytes() == Seq::<u8>::empty(),
            !r.spec_exceeded(),
    {
        BoundedFrameBuffer { bytes: Vec::new(), exceeded: false }
    }

    /// Appends `chunk` whole, or refuses it and records that the limit was exceeded.
    pub fn write(&mut self, chunk: &[u8]) -> (r: Result<usize, ()>)
        ensures
            old(self).spec_bytes().len() + chunk@.len() <= MAX_IPC_FRAME_LENGTH ==> r == Ok::<
                usize,
                (),
            >(chunk@.len() as usize) && final(self).spec_bytes() == old(self).spec_bytes()
                + chunk@ && final(self).spec_exceeded() == old(self).spec_exceeded(),
            old(self).spec_bytes().len() + chunk@.len() > MAX_IPC_FRAME_LENGTH ==> r is Err
                && final(self).spec_bytes() == old(self).spec_bytes() && final(self).spec_exceeded(),
    {
        if self.bytes.len() > MAX_IPC_FRAME_LENGTH || chunk.len() > MAX_IPC_FRAME_LENGTH
            - self.bytes.len() {
            self.exceeded = true;
            return Err(());
        }
        let ghost before = self.bytes@;
        let mut i: usize = 0;
        while i < chunk.len()
            invariant
                i <= chunk.len(),
                self.bytes@ == before + chunk@.subrange(0, i as int),
                self.exceeded == old(self).exceeded,
            decreases chunk.len() - i,
        {
            self.bytes.push(chunk[i]);
            assert(chunk@.subrange(0, i as int).push(chunk@[i as int]) =~= chunk@.subrange(0, i + 1));
            i = i + 1;
        }
        assert(chunk@.subrange(0, chunk@.len() as int) =~= chunk@);
        Ok(chunk.len())
    }

    /// Completes a frame after serialization: an exceeded limit is reported as an oversized
    /// frame, another serialization failure as such, and a complete body gains its LF.
    pub fn finish(self, serialization_failed: bool) -> (r: Result<Vec<u8>, IpcCodecError>)
        ensures
            self.spec_exceeded() ==> r == Err::<Vec<u8>, _>(IpcCodecError::FrameTooLarge),
            !self.spec_exceeded() && serialization_failed ==> r == Err::<Vec<u8>, _>(
                IpcCodecError::Serialization,
            ),
            !self.spec_exceeded() && !serialization_failed ==> (r matches Ok(v) && v@
                == self.spec_bytes().push(LF)),
    {
        if self.exceeded {
            return Err(IpcCodecError::FrameTooLarge);
        }
        if serialization_failed {
            return Err(IpcCodecError::Serialization);
        }
        let mut bytes = self.bytes;
        bytes.push(LF);
        Ok(bytes)
    }
}

/// `first_lf` finds the first LF byte, and only an LF byte.
pub proof fn lemma_first_lf_spec(bytes: Seq<u8>)
    ensures
        first_lf(bytes) matches Some(k) ==> 0 <= k < bytes.len() && bytes[k] == LF
            && forall|j: int| 0 <= j < k ==> bytes[j] != LF,
        first_lf(bytes) is None ==> forall|j: int| 0 <= j < bytes.len() ==> bytes[j] != LF,
    decreases bytes.len(),
{
    if bytes.len() > 0 {
        lemma_first_lf_spec(bytes.drop_last());
        assert forall|j: int| 0 <= j < bytes.len() - 1 implies bytes.drop_last()[j] == bytes[j] by {}
    }
}

/// A buffer that holds a frame body without LF followed by LF has its first LF right there.
proof fn lemma_first_lf_after_body(body: Seq<u8>, rest: Seq<u8>)
    requires
        !contains_byte(body, LF),
    ensures
        first_lf(body.push(LF) + rest) == Some(body.len() as int),
    decreases rest.len(),
{
    let all = body.push(LF) + rest;
    if rest.len() == 0 {
        assert(all =~= body.push(LF));
        assert(all.drop_last() =~= body);
        lemma_first_lf_spec(body);
        if first_lf(body) is Some {
            let k = first_lf(body)->0;
            assert(body[k] == LF);
        }
    } else {
        assert(all.drop_last() =~= body.push(LF) + rest.drop_last());
        lemma_first_lf_after_body(body, rest.drop_last());
    }
}

/// Encoding a frame and decoding the result gives back the frame, and consumes exactly the
/// encoded bytes, whatever follows them in the buffer.
pub proof fn lemma_encode_decode_roundtrip(frame: Seq<char>, rest: Seq<u8>)
    requires
        encode_utf8(frame).len() <= MAX_IPC_FRAME_LENGTH,
        !contains_byte(encode_utf8(frame), CR),
        !contains_byte(encode_utf8(frame), LF),
    ensures
        decode_step(encode_utf8(frame).push(LF) + rest) == DecodeStep::Frame(frame),
        decode_consumed(encode_utf8(frame).push(LF) + rest) == encode_utf8(frame).len() + 1,
{
    let body = encode_utf8(frame);
    let all = body.push(LF) + rest;
    lemma_first_lf_after_body(body, rest);
    assert(frame_end(all) == body.len() + 1);
    assert(all.subrange(0, body.len() as int + 1) =~= body.push(LF));
    assert(all.subrange(0, body.len() as int) =~= body);
    if contains_byte(body.push(LF), CR) {
        let i = choose|i: int| 0 <= i < body.push(LF).len() && body.push(LF)[i] == CR;
        if i < body.len() {
            assert(body[i] == CR);
        }
    }
    encode_utf8_valid_utf8(frame);
    encode_utf8_decode_utf8(frame);
}

proof fn lemma_first_lf_prefix(bytes: Seq<u8>, n: int)
    requires
        0 < n <= bytes.len(),
        first_lf(bytes.subrange(0, n - 1)) is None,
        bytes[n - 1] == LF,
    ensures
        first_lf(bytes) == Some(n - 1),
    decreases bytes.len(),
{
    assert(bytes.subrange(0, n).drop_last() =~= bytes.subrange(0, n - 1));
    if n < bytes.len() {
        assert(bytes.drop_last().subrange(0, n - 1) =~= bytes.subrange(0, n - 1));
        lemma_first_lf_prefix(bytes.drop_last(), n);
    } else {
        assert(bytes.subrange(0, n) =~= bytes);
    }
}

} // verus!
