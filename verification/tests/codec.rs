use cadder::codec::{BoundedFrameBuffer, BoundedNdjsonCodec, IpcCodecError, MAX_IPC_FRAME_LENGTH};

/// Serialization sink over the bounded frame buffer.
struct FrameSink(BoundedFrameBuffer);

impl std::io::Write for FrameSink {
    fn write(&mut self, bytes: &[u8]) -> std::io::Result<usize> {
        self.0.write(bytes).map_err(|()| std::io::Error::other("IPC frame exceeds the byte limit"))
    }

    fn flush(&mut self) -> std::io::Result<()> {
        Ok(())
    }
}

/// Serializes a value as one JSON frame, bounded before the LF is appended.
fn encode_json_frame<T: serde::Serialize>(value: &T) -> Result<Vec<u8>, IpcCodecError> {
    let mut sink = FrameSink(BoundedFrameBuffer::new());
    let failed = serde_json::to_writer(&mut sink, value).is_err();
    sink.0.finish(failed)
}

#[test]
fn ipc_codec_ipc_codec_accepts_exact_limit_and_rejects_one_byte_more() {
    let mut codec = BoundedNdjsonCodec::new();
    let mut encoded = Vec::new();
    codec.encode("x".repeat(MAX_IPC_FRAME_LENGTH), &mut encoded).unwrap();
    assert_eq!(encoded.len(), MAX_IPC_FRAME_LENGTH + 1);

    let mut codec = BoundedNdjsonCodec::new();
    let error = codec.encode("x".repeat(MAX_IPC_FRAME_LENGTH + 1), &mut Vec::new()).unwrap_err();
    assert!(matches!(error, IpcCodecError::FrameTooLarge));
    assert!(matches!(codec.encode("{}".to_string(), &mut Vec::new()), Err(IpcCodecError::Poisoned)));
}

#[test]
fn ipc_codec_ipc_codec_bounds_json_serialization_before_appending_lf() {
    let exact = "x".repeat(MAX_IPC_FRAME_LENGTH - 2);
    let encoded = encode_json_frame(&exact).unwrap();
    assert_eq!(encoded.len(), MAX_IPC_FRAME_LENGTH + 1);

    let oversized = "x".repeat(MAX_IPC_FRAME_LENGTH - 1);
    assert!(matches!(encode_json_frame(&oversized), Err(IpcCodecError::FrameTooLarge)));
}

#[test]
fn ipc_codec_ipc_codec_decoder_enforces_the_same_byte_limit() {
    let mut exact = vec![b'x'; MAX_IPC_FRAME_LENGTH];
    exact.extend_from_slice(b"\n");
    assert_eq!(BoundedNdjsonCodec::new().decode(&mut exact).unwrap().unwrap().len(), MAX_IPC_FRAME_LENGTH);

    let mut oversized = vec![b'x'; MAX_IPC_FRAME_LENGTH + 1];
    let mut codec = BoundedNdjsonCodec::new();
    assert!(matches!(codec.decode(&mut oversized), Err(IpcCodecError::FrameTooLarge)));
    assert!(matches!(codec.decode(&mut b"{}\n".to_vec()), Err(IpcCodecError::Poisoned)));
}

#[test]
fn ipc_codec_ipc_codec_rejects_unterminated_eof_and_embedded_delimiters() {
    let mut codec = BoundedNdjsonCodec::new();
    assert!(matches!(codec.decode_eof(&mut b"{}".to_vec()), Err(IpcCodecError::UnterminatedFrame)));

    let mut codec = BoundedNdjsonCodec::new();
    assert!(matches!(codec.encode("{}\n{}".to_string(), &mut Vec::new()), Err(IpcCodecError::EmbeddedDelimiter)));

    let mut codec = BoundedNdjsonCodec::new();
    assert!(matches!(codec.decode(&mut b"{}\r\n".to_vec()), Err(IpcCodecError::EmbeddedDelimiter)));
}

#[test]
fn ipc_codec_ipc_codec_delivers_a_valid_frame_before_rejecting_later_crlf() {
    let mut codec = BoundedNdjsonCodec::new();
    let mut input = b"{}\n{}\r\n".to_vec();

    assert_eq!(codec.decode(&mut input).unwrap().unwrap(), "{}");
    assert!(matches!(codec.decode(&mut input), Err(IpcCodecError::EmbeddedDelimiter)));
}

#[test]
fn ipc_codec_ipc_codec_rejects_invalid_utf8_and_poisoned_reuse() {
    let mut codec = BoundedNdjsonCodec::new();
    let mut invalid = b"{\"value\":\"\xff\"}\n".to_vec();

    assert!(matches!(codec.decode(&mut invalid), Err(IpcCodecError::InvalidUtf8)));
    assert!(matches!(codec.decode(&mut b"{}\n".to_vec()), Err(IpcCodecError::Poisoned)));
}

#[test]
fn ipc_codec_ipc_codec_handles_fragmented_utf8_frames() {
    let mut codec = BoundedNdjsonCodec::new();
    let frame = "{\"message\":\"zażółć\"}";
    let mut input = frame.as_bytes()[..12].to_vec();
    assert!(codec.decode(&mut input).unwrap().is_none());
    input.extend_from_slice(&frame.as_bytes()[12..]);
    input.extend_from_slice(b"\n");

    assert_eq!(codec.decode(&mut input).unwrap().unwrap(), frame);
}

#[test]
fn tests_ipc_codec_accepts_exact_limit_and_rejects_one_byte_more() {
    let mut codec = BoundedNdjsonCodec::new();
    let mut encoded = Vec::new();
    codec.encode("x".repeat(MAX_IPC_FRAME_LENGTH), &mut encoded).unwrap();
    assert_eq!(encoded.len(), MAX_IPC_FRAME_LENGTH + 1);

    let mut codec = BoundedNdjsonCodec::new();
    let error = codec.encode("x".repeat(MAX_IPC_FRAME_LENGTH + 1), &mut Vec::new()).unwrap_err();
    assert!(matches!(error, IpcCodecError::FrameTooLarge));
    assert!(matches!(codec.encode("{}".to_string(), &mut Vec::new()), Err(IpcCodecError::Poisoned)));
}

#[test]
fn tests_ipc_codec_bounds_json_serialization_before_appending_lf() {
    let exact = "x".repeat(MAX_IPC_FRAME_LENGTH - 2);
    let encoded = encode_json_frame(&exact).unwrap();
    assert_eq!(encoded.len(), MAX_IPC_FRAME_LENGTH + 1);

    let oversized = "x".repeat(MAX_IPC_FRAME_LENGTH - 1);
    assert!(matches!(encode_json_frame(&oversized), Err(IpcCodecError::FrameTooLarge)));
}

#[test]
fn tests_ipc_codec_decoder_enforces_the_same_byte_limit() {
    let mut exact = vec![b'x'; MAX_IPC_FRAME_LENGTH];
    exact.extend_from_slice(b"\n");
    assert_eq!(BoundedNdjsonCodec::new().decode(&mut exact).unwrap().unwrap().len(), MAX_IPC_FRAME_LENGTH);

    let mut oversized = vec![b'x'; MAX_IPC_FRAME_LENGTH + 1];
    let mut codec = BoundedNdjsonCodec::new();
    assert!(matches!(codec.decode(&mut oversized), Err(IpcCodecError::FrameTooLarge)));
    assert!(matches!(codec.decode(&mut b"{}\n".to_vec()), Err(IpcCodecError::Poisoned)));
}

#[test]
fn tests_ipc_codec_rejects_unterminated_eof_and_embedded_delimiters() {
    let mut codec = BoundedNdjsonCodec::new();
    assert!(matches!(codec.decode_eof(&mut b"{}".to_vec()), Err(IpcCodecError::UnterminatedFrame)));

    let mut codec = BoundedNdjsonCodec::new();
    assert!(matches!(codec.encode("{}\n{}".to_string(), &mut Vec::new()), Err(IpcCodecError::EmbeddedDelimiter)));

    let mut codec = BoundedNdjsonCodec::new();
    assert!(matches!(codec.decode(&mut b"{}\r\n".to_vec()), Err(IpcCodecError::EmbeddedDelimiter)));
}

#[test]
fn tests_ipc_codec_delivers_a_valid_frame_before_rejecting_later_crlf() {
    let mut codec = BoundedNdjsonCodec::new();
    let mut input = b"{}\n{}\r\n".to_vec();

    assert_eq!(codec.decode(&mut input).unwrap().unwrap(), "{}");
    assert!(matches!(codec.decode(&mut input), Err(IpcCodecError::EmbeddedDelimiter)));
}

#[test]
fn tests_ipc_codec_rejects_invalid_utf8_and_poisoned_reuse() {
    let mut codec = BoundedNdjsonCodec::new();
    let mut invalid = b"{\"value\":\"\xff\"}\n".to_vec();

    assert!(matches!(codec.decode(&mut invalid), Err(IpcCodecError::InvalidUtf8)));
    assert!(matches!(codec.decode(&mut b"{}\n".to_vec()), Err(IpcCodecError::Poisoned)));
}

#[test]
fn tests_ipc_codec_handles_fragmented_utf8_frames() {
    let mut codec = BoundedNdjsonCodec::new();
    let frame = "{\"message\":\"zażółć\"}";
    let mut input = frame.as_bytes()[..12].to_vec();
    assert!(codec.decode(&mut input).unwrap().is_none());
    input.extend_from_slice(&frame.as_bytes()[12..]);
    input.extend_from_slice(b"\n");

    assert_eq!(codec.decode(&mut input).unwrap().unwrap(), frame);
}
