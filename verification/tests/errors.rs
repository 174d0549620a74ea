use fsb5_mpeg::mpeg::{MpegError, MpegErrorKind};

#[test]
fn encode_stream_kind_is_kept() {
    let io = std::io::Error::from(std::io::ErrorKind::UnexpectedEof);
    let err = MpegError::from_io(MpegErrorKind::EncodeStream, io);
    assert_eq!(err.kind(), MpegErrorKind::EncodeStream);
    assert_eq!(err.source().kind(), std::io::ErrorKind::UnexpectedEof);
}

#[test]
fn create_header_kind_is_kept() {
    let io = std::io::Error::from(std::io::ErrorKind::WriteZero);
    let err = MpegError::from_io(MpegErrorKind::CreateHeader, io);
    assert_eq!(err.kind(), MpegErrorKind::CreateHeader);
}

#[test]
fn kinds_compare_and_copy() {
    let a = MpegErrorKind::EncodeStream;
    let b = a;
    assert_eq!(a, b);
    assert_ne!(MpegErrorKind::CreateHeader, MpegErrorKind::EncodeStream);
}
