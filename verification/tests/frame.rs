use mef_26::crypto::{AeadKey, AeadSuite};
use mef_26::frame::{framing_label, protocol_id, FrameHeader, FrameKind, InnerFrame, FIXED_HEADER_LEN};
use mef_26::{MefError, Result};

fn make_frame() -> Result<InnerFrame> {
    let key = AeadKey::from_bytes([3_u8; 32]);
    InnerFrame::seal(
        &key,
        AeadSuite::XChaCha20Poly1305,
        FrameHeader::new(FrameKind::Message, [1_u8; 32], [2_u8; 32], 4, 9),
        b"frame payload",
    )
}

#[test]
fn frame_round_trips_and_decrypts() -> Result<()> {
    let key = AeadKey::from_bytes([3_u8; 32]);
    let decoded = InnerFrame::decode(&make_frame()?.encode()?)?;
    assert_eq!(decoded.open(&key)?, b"frame payload");
    assert_eq!(decoded.header().session_id(), [1_u8; 32]);
    assert_eq!(decoded.header().message_number(), 9);
    Ok(())
}

#[test]
fn header_tampering_breaks_aead_authentication() -> Result<()> {
    let key = AeadKey::from_bytes([3_u8; 32]);
    let mut bytes = make_frame()?.encode()?;
    bytes[77] ^= 1;
    assert_eq!(InnerFrame::decode(&bytes)?.open(&key), Err(MefError::AuthenticationFailed));
    Ok(())
}

#[test]
fn parser_rejects_trailing_and_unknown_version_bytes() -> Result<()> {
    let mut bytes = make_frame()?.encode()?;
    bytes.push(0);
    assert_eq!(InnerFrame::decode(&bytes), Err(MefError::InvalidFrame));
    bytes.pop();
    bytes[3] = 2;
    assert_eq!(InnerFrame::decode(&bytes), Err(MefError::InvalidFrame));
    Ok(())
}

#[test]
fn encoded_frame_has_the_documented_layout() -> Result<()> {
    let frame = make_frame()?;
    let bytes = frame.encode()?;
    assert_eq!(bytes.len(), FIXED_HEADER_LEN + 24 + b"frame payload".len() + 16);
    assert_eq!(&bytes[..3], b"MEF");
    assert_eq!(bytes[3], 1);
    assert_eq!(bytes[4], AeadSuite::XChaCha20Poly1305.id());
    assert_eq!(bytes[5], FrameKind::Message.id());
    assert_eq!(&bytes[6..38], &[1_u8; 32]);
    assert_eq!(&bytes[38..70], &[2_u8; 32]);
    assert_eq!(&bytes[70..74], &4_u32.to_be_bytes());
    assert_eq!(&bytes[74..78], &9_u32.to_be_bytes());
    assert_eq!(bytes[78], 24);
    Ok(())
}

#[test]
fn decode_prefix_reports_consumed_bytes_and_ignores_the_rest() -> Result<()> {
    let frame = make_frame()?;
    let mut bytes = frame.encode()?;
    let len = bytes.len();
    bytes.extend_from_slice(&[0_u8; 10]);
    let (decoded, consumed) = InnerFrame::decode_prefix(&bytes)?;
    assert_eq!(consumed, len);
    assert_eq!(decoded, frame);
    Ok(())
}

#[test]
fn unknown_suite_and_kind_are_rejected() -> Result<()> {
    let mut bytes = make_frame()?.encode()?;
    bytes[4] = 9;
    assert_eq!(InnerFrame::decode(&bytes), Err(MefError::UnsupportedSuite));
    let mut bytes = make_frame()?.encode()?;
    bytes[5] = 0;
    assert_eq!(InnerFrame::decode(&bytes), Err(MefError::InvalidFrame));
    assert!(InnerFrame::decode(&[]).is_err());
    Ok(())
}

#[test]
fn frame_kinds_round_trip_through_identifiers() {
    for kind in [FrameKind::Init, FrameKind::Message, FrameKind::Ack, FrameKind::Control, FrameKind::Reset] {
        assert_eq!(FrameKind::from_id(kind.id()), Ok(kind));
    }
    assert_eq!(FrameKind::from_id(0), Err(MefError::InvalidFrame));
}

#[test]
fn wrong_key_does_not_open_a_frame() -> Result<()> {
    let frame = make_frame()?;
    assert_eq!(frame.open(&AeadKey::from_bytes([4_u8; 32])), Err(MefError::AuthenticationFailed));
    Ok(())
}

#[test]
fn labels_name_the_protocol() {
    assert_eq!(framing_label(), "MEF-26/inner-frame-v1");
    assert_eq!(protocol_id(), "MEF-26");
}
