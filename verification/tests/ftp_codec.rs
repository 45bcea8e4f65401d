use bambu_client::file::ftp::codec::FtpCodec;
use bambu_client::file::ftp::codec::FtpCodecError;
use bambu_client::file::ftp::codec::FtpRequest;
use bambu_client::file::ftp::codec::FtpResponse;
use bambu_client::file::ftp::codec::SocketAddressV4;

#[test]
fn test_pasv_response() {
    let response = "227 Entering Passive Mode (192,168,1,2,4,3)";
    let response = FtpResponse::from_response_string(response).unwrap();
    match response {
        FtpResponse::EnteringPassiveMode(addr) => {
            assert_eq!(
                addr,
                SocketAddressV4 { a: 192, b: 168, c: 1, d: 2, port: 1027 }
            );
        }
        _ => panic!("Expected EnteringPassiveMode"),
    }
}

#[test]
fn test_invalid_pasv_response() {
    let response = "227 Entering Passive Mode (192,168,1,2,4,3)";
    let response = FtpResponse::from_response_string(response).unwrap();
    match response {
        FtpResponse::EnteringPassiveMode(addr) => {
            assert_eq!(
                addr,
                SocketAddressV4 { a: 192, b: 168, c: 1, d: 2, port: 1027 }
            );
        }
        _ => panic!("Expected EnteringPassiveMode"),
    }
}

#[test]
fn pasv_round_trip_all_fields() {
    // 227 with port p encoded as (p / 256, p % 256) parses back to p
    let p: u16 = 2580;
    let line = format!("227 ok ({},{},{},{},{},{})", 10, 20, 30, 40, p / 256, p % 256);
    match FtpResponse::from_response_string(&line).unwrap() {
        FtpResponse::EnteringPassiveMode(addr) => {
            assert_eq!(addr, SocketAddressV4 { a: 10, b: 20, c: 30, d: 40, port: p });
        }
        other => panic!("expected EnteringPassiveMode, got {:?}", other),
    }
}

#[test]
fn pasv_rejects_missing_and_extra_parens() {
    let cases = [
        "227 no parens at all",
        "227 only open (1,2,3,4,5,6",
        "227 only close 1,2,3,4,5,6)",
        "227 reversed )1,2,3,4,5,6(",
        "227 two groups (1,2,3,4,5,6) (7,8)",
        "227 five fields (1,2,3,4,5)",
        "227 seven fields (1,2,3,4,5,6,7)",
        "227 field too big (1,2,3,4,5,70000)",
        "227 octet too big (300,2,3,4,5,6)",
        "227 empty field (1,,3,4,5,6)",
    ];
    for case in cases {
        assert_eq!(
            FtpResponse::from_response_string(case),
            Err(FtpCodecError::InvalidPasv),
            "{}",
            case
        );
    }
}

#[test]
fn response_code_classification() {
    assert!(matches!(
        FtpResponse::from_response_string("220 Welcome").unwrap(),
        FtpResponse::ServiceReady(m) if m == "Welcome"
    ));
    assert!(matches!(
        FtpResponse::from_response_string("331 need pw").unwrap(),
        FtpResponse::UserNameOkayNeedPassword(_)
    ));
    assert!(matches!(
        FtpResponse::from_response_string("230 in").unwrap(),
        FtpResponse::UserLoggedIn(_)
    ));
    assert!(matches!(
        FtpResponse::from_response_string("200 ok").unwrap(),
        FtpResponse::CommandOkay(_)
    ));
    assert!(matches!(
        FtpResponse::from_response_string("150 go").unwrap(),
        FtpResponse::FileStatusOkay(_)
    ));
    assert!(matches!(
        FtpResponse::from_response_string("221 bye").unwrap(),
        FtpResponse::ClosingControlConnection(_)
    ));
    assert!(matches!(
        FtpResponse::from_response_string("226 done").unwrap(),
        FtpResponse::ClosingDataConnection(_)
    ));
    assert!(matches!(
        FtpResponse::from_response_string("257 \"/\"").unwrap(),
        FtpResponse::DirectoryActionOkay(m) if m == "\"/\""
    ));
    assert!(matches!(
        FtpResponse::from_response_string("550 nope").unwrap(),
        FtpResponse::FileUnavailable(_)
    ));
    assert!(matches!(
        FtpResponse::from_response_string("999 strange").unwrap(),
        FtpResponse::Other(999, m) if m == "strange"
    ));
    // no message at all
    assert!(matches!(
        FtpResponse::from_response_string("220").unwrap(),
        FtpResponse::ServiceReady(m) if m.is_empty()
    ));
}

#[test]
fn response_invalid_codes_reject() {
    for case in ["", "abc hi", "12a4 hi", " 220 hi", "1000 hi"] {
        assert_eq!(
            FtpResponse::from_response_string(case),
            Err(FtpCodecError::InvalidResponseCode),
            "{:?}",
            case
        );
    }
}

#[test]
fn encode_requests() {
    let mut codec = FtpCodec {};
    let cases: Vec<(FtpRequest, &[u8])> = vec![
        (FtpRequest::User("bblp".to_string()), b"USER bblp\r\n"),
        (FtpRequest::Pass("x".to_string()), b"PASS x\r\n"),
        (FtpRequest::Quit, b"QUIT\r\n"),
        (FtpRequest::EnterPassiveMode, b"PASV\r\n"),
        (FtpRequest::List("/".to_string()), b"LIST /\r\n"),
        (FtpRequest::ProtectionBufferSize(0), b"PBSZ 0\r\n"),
        (FtpRequest::ProtectionLevel("P".to_string()), b"PROT P\r\n"),
        (FtpRequest::Pwd, b"PWD\r\n"),
    ];
    for (request, expected) in cases {
        let mut wire = Vec::new();
        codec.encode(&request, &mut wire);
        assert_eq!(wire, expected.to_vec());
    }
}

#[test]
fn decode_lines_from_buffer() {
    let mut codec = FtpCodec {};
    let mut buffer = b"220 hello\r\n331 ok".to_vec();
    let first = codec.decode(&mut buffer).unwrap();
    assert!(matches!(first, Some(FtpResponse::ServiceReady(m)) if m == "hello"));
    // the second line is not complete yet
    assert_eq!(codec.decode(&mut buffer), Ok(None));
    assert_eq!(buffer, b"331 ok".to_vec());
    buffer.extend_from_slice(b"\r\n");
    let second = codec.decode(&mut buffer).unwrap();
    assert!(matches!(second, Some(FtpResponse::UserNameOkayNeedPassword(m)) if m == "ok"));
    assert!(buffer.is_empty());
}

#[test]
fn decode_invalid_utf8_line() {
    let mut codec = FtpCodec {};
    let mut buffer = b"220 \xff\xfe\r\n".to_vec();
    assert_eq!(codec.decode(&mut buffer), Err(FtpCodecError::InvalidUtf8));
    assert!(buffer.is_empty());
}
