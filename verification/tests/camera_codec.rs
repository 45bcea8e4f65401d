use bambu_client::CameraPacket;
use bambu_client::JpegCodec;
use bambu_client::scan::find_subsequence;

const JPEG_START_MARKER: [u8; 4] = [0xff, 0xd8, 0xff, 0xe0];
const JPEG_END_MARKER: [u8; 2] = [0xff, 0xd9];

#[test]
fn test_find_subsequence() {
    let haystack = b"hello world";
    let needle = b"world";
    assert_eq!(find_subsequence(haystack, needle), Some(6));

    let needle = b"foo";
    assert_eq!(find_subsequence(haystack, needle), None);
}

#[test]
fn test_decode_complete_frame() {
    let mut codec = JpegCodec::default();
    let mut src = b"\xff\xd8\xff\xe0hello world\xff\xd9".to_vec();
    let expected = src.clone();

    let frame = codec.decode(&mut src).unwrap();
    assert_eq!(frame, CameraPacket::Jpeg(expected));
    assert!(src.is_empty());
}

#[test]
fn test_decode_partial_frame() {
    let mut codec = JpegCodec::default();
    let mut src = b"\xff\xd8\xff\xe0hello".to_vec();

    let frame = codec.decode(&mut src);
    assert!(frame.is_none());
    assert_eq!(src, b"\xff\xd8\xff\xe0hello".to_vec());
}

#[test]
fn test_decode_multiple_frames() {
    let mut codec = JpegCodec::default();
    let mut src = b"\xff\xd8\xff\xe0frame1\xff\xd9\xff\xd8\xff\xe0frame2\xff\xd9".to_vec();

    let frame1 = codec.decode(&mut src).unwrap();
    assert_eq!(
        frame1,
        CameraPacket::Jpeg(b"\xff\xd8\xff\xe0frame1\xff\xd9".to_vec())
    );

    let frame2 = codec.decode(&mut src).unwrap();
    assert_eq!(
        frame2,
        CameraPacket::Jpeg(b"\xff\xd8\xff\xe0frame2\xff\xd9".to_vec())
    );

    assert!(src.is_empty());
}

#[test]
fn test_decode_no_start_marker() {
    let mut codec = JpegCodec::default();
    let mut src = b"hello world\xff\xd9".to_vec();

    let frame = codec.decode(&mut src);
    assert!(frame.is_none());
    assert_eq!(src, b"hello world\xff\xd9".to_vec());
}

#[test]
fn test_decode_no_end_marker() {
    let mut codec = JpegCodec::default();
    let mut src = b"\xff\xd8\xff\xe0hello world".to_vec();

    let frame = codec.decode(&mut src);
    assert!(frame.is_none());
    assert_eq!(src, b"\xff\xd8\xff\xe0hello world".to_vec());
}

#[test]
fn test_decode_invalid_marker_regression() {
    let mut codec = JpegCodec::default();
    let mut src = b"\xff\xd8\xff\xe0\0!AVI1\0\x01\x01\x01\0x\0x\0\0\0\0\0\0\0\0\0\0\0\0\0\0\0\0\0\0\0\xff\xdb".to_vec();

    let frame = codec.decode(&mut src);
    assert!(frame.is_none());
    assert_eq!(
        src,
        b"\xff\xd8\xff\xe0\0!AVI1\0\x01\x01\x01\0x\0x\0\0\0\0\0\0\0\0\0\0\0\0\0\0\0\0\0\0\0\xff\xdb".to_vec()
    );
}

/// Build the authentication packet
fn create_auth_packet(username: &str, access_code: &str) -> Vec<u8> {
    let mut auth_data = Vec::new();

    auth_data.extend_from_slice(&0x40u32.to_le_bytes());
    auth_data.extend_from_slice(&0x3000u32.to_le_bytes());
    auth_data.extend_from_slice(&0u32.to_le_bytes());
    auth_data.extend_from_slice(&0u32.to_le_bytes());

    let mut username_bytes = [0u8; 32];
    let username_utf8 = username.as_bytes();
    let len = username_utf8.len().min(32);
    username_bytes[..len].copy_from_slice(&username_utf8[..len]);
    auth_data.extend_from_slice(&username_bytes);

    let mut access_bytes = [0u8; 32];
    let code_utf8 = access_code.as_bytes();
    let len = code_utf8.len().min(32);
    access_bytes[..len].copy_from_slice(&code_utf8[..len]);
    auth_data.extend_from_slice(&access_bytes);

    auth_data
}

#[test]
fn foo() {
    let mut stream = create_auth_packet("bblp", "1234");
    let image1 = {
        let mut image = Vec::new();
        image.extend_from_slice(&JPEG_START_MARKER);
        image.extend_from_slice(b"foobar");
        image.extend_from_slice(&JPEG_END_MARKER);
        image
    };

    stream.extend_from_slice(&image1);
    let mut codec = JpegCodec::default();
    let mut src = stream;
    assert_eq!(
        codec.decode(&mut src),
        Some(CameraPacket::Auth {
            username: "bblp".to_string(),
            access_code: "1234".to_string(),
        })
    );
    assert_eq!(codec.decode(&mut src), Some(CameraPacket::Jpeg(image1)));
}

#[test]
fn auth_encode_decode_round_trip() {
    let mut codec = JpegCodec::default();
    let packet = CameraPacket::Auth {
        username: "bblp".to_string(),
        access_code: "secret42".to_string(),
    };
    let mut wire = Vec::new();
    codec.encode(&packet, &mut wire);
    assert_eq!(wire.len(), 80);
    assert_eq!(&wire[..4], &0x40u32.to_le_bytes());
    assert_eq!(&wire[4..8], &0x3000u32.to_le_bytes());

    let decoded = codec.decode(&mut wire).unwrap();
    assert_eq!(decoded, packet);
    assert!(wire.is_empty());
}

#[test]
fn auth_empty_fields_round_trip() {
    let mut codec = JpegCodec::default();
    let packet = CameraPacket::Auth {
        username: String::new(),
        access_code: String::new(),
    };
    let mut wire = Vec::new();
    codec.encode(&packet, &mut wire);
    let decoded = codec.decode(&mut wire).unwrap();
    assert_eq!(decoded, packet);
}

#[test]
fn auth_invalid_utf8_field_is_replaced() {
    // a username field that is not UTF-8 decodes to replacement characters
    let mut wire = Vec::new();
    wire.extend_from_slice(&0x40u32.to_le_bytes());
    wire.extend_from_slice(&0x3000u32.to_le_bytes());
    wire.extend_from_slice(&0u32.to_le_bytes());
    wire.extend_from_slice(&0u32.to_le_bytes());
    let mut username_bytes = [0u8; 32];
    username_bytes[0] = 0xff;
    wire.extend_from_slice(&username_bytes);
    wire.extend_from_slice(&[0u8; 32]);

    let mut codec = JpegCodec::default();
    match codec.decode(&mut wire) {
        Some(CameraPacket::Auth { username, access_code }) => {
            assert_eq!(username, "\u{fffd}");
            assert_eq!(access_code, "");
        }
        other => panic!("expected an auth packet, got {:?}", other),
    }
}

#[test]
fn camera_happy_path_two_frames() {
    // connect-then-stream: an auth preamble goes out, two concatenated
    // JPEGs of 6 and 7 payload bytes come back as frames of 12 and 13
    // bytes, then the stream ends cleanly
    let client = bambu_client::CameraClient::new("192.0.2.9", "code", 6000);
    let auth = client.auth_packet();
    let mut codec = JpegCodec::default();
    let mut outbound = Vec::new();
    codec.encode(&auth, &mut outbound);
    assert_eq!(outbound.len(), 80);

    let mut inbound = Vec::new();
    inbound.extend_from_slice(&JPEG_START_MARKER);
    inbound.extend_from_slice(b"aaaaaa");
    inbound.extend_from_slice(&JPEG_END_MARKER);
    inbound.extend_from_slice(&JPEG_START_MARKER);
    inbound.extend_from_slice(b"bbbbbbb");
    inbound.extend_from_slice(&JPEG_END_MARKER);

    let first = codec.decode(&mut inbound).unwrap();
    match first {
        CameraPacket::Jpeg(frame) => assert_eq!(frame.len(), 12),
        other => panic!("expected a JPEG frame, got {:?}", other),
    }
    let second = codec.decode(&mut inbound).unwrap();
    match second {
        CameraPacket::Jpeg(frame) => assert_eq!(frame.len(), 13),
        other => panic!("expected a JPEG frame, got {:?}", other),
    }
    assert!(inbound.is_empty());
    assert_eq!(codec.decode(&mut inbound), None);
}
