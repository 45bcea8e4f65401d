use bambu_client::FileClient;
use bambu_client::file::ftp::FtpAction;
use bambu_client::file::ftp::FtpsState;
use bambu_client::file::ftp::fixup_pasv;
use bambu_client::file::ftp::parse_ipv4;
use bambu_client::file::ftp::codec::FtpRequest;
use bambu_client::file::ftp::codec::FtpResponse;
use bambu_client::file::ftp::codec::SocketAddressV4;
use bambu_client::file::ftp::metadata::parse_listing;

fn ok(message: &str) -> String {
    message.to_string()
}

#[test]
fn ftps_listing_dialogue() {
    // banner 220 -> USER bblp -> 331 -> PASS x -> 230 -> PBSZ 0 -> 200 ->
    // PROT P -> 200 -> PWD -> 257 -> PASV -> 227 (127.0.0.1:2580) ->
    // LIST / -> 150 -> data EOF with one metadata line -> QUIT -> 221
    let control = SocketAddressV4 { a: 127, b: 0, c: 0, d: 1, port: 990 };
    let client = FileClient::new("127.0.0.1", "x");
    let mut session = client.session(control);
    assert_eq!(session.state(), FtpsState::Connected);

    let action = session.on_response(&FtpResponse::ServiceReady(ok("OK"))).unwrap();
    assert_eq!(action, FtpAction::Send(FtpRequest::User("bblp".to_string())));

    let action = session
        .on_response(&FtpResponse::UserNameOkayNeedPassword(ok("ok")))
        .unwrap();
    assert_eq!(action, FtpAction::Send(FtpRequest::Pass("x".to_string())));

    let action = session.on_response(&FtpResponse::UserLoggedIn(ok("ok"))).unwrap();
    assert_eq!(action, FtpAction::Send(FtpRequest::ProtectionBufferSize(0)));

    let action = session.on_response(&FtpResponse::CommandOkay(ok("ok"))).unwrap();
    assert_eq!(action, FtpAction::Send(FtpRequest::ProtectionLevel("P".to_string())));

    let action = session.on_response(&FtpResponse::CommandOkay(ok("ok"))).unwrap();
    assert_eq!(action, FtpAction::AuthDone);
    assert_eq!(session.state(), FtpsState::Ready);

    let action = session.start_list("/").unwrap();
    assert_eq!(action, FtpAction::Send(FtpRequest::Pwd));

    let action = session
        .on_response(&FtpResponse::DirectoryActionOkay(ok("\"/\"")))
        .unwrap();
    assert_eq!(action, FtpAction::Send(FtpRequest::EnterPassiveMode));

    let pasv = FtpResponse::from_response_string("227 ok (127,0,0,1,10,20)").unwrap();
    let action = session.on_response(&pasv).unwrap();
    assert_eq!(action, FtpAction::Send(FtpRequest::List("/".to_string())));

    let action = session.on_response(&FtpResponse::FileStatusOkay(ok("ok"))).unwrap();
    assert_eq!(
        action,
        FtpAction::OpenData(SocketAddressV4 { a: 127, b: 0, c: 0, d: 1, port: 2580 })
    );
    assert_eq!(session.state(), FtpsState::Draining);

    let lines =
        vec!["-rw-rw-rw-   1 usr1 grp1  12 Jan 01 1980 part.gcode.3mf".to_string()];
    let files = parse_listing(&lines, 2024).unwrap();
    assert_eq!(files.len(), 1);
    assert_eq!(files[0].filename, "part.gcode.3mf");
    assert_eq!(files[0].size, 12);
    session.data_finished().unwrap();
    assert_eq!(session.state(), FtpsState::Ready);

    let action = session.start_quit();
    assert_eq!(action, FtpAction::Send(FtpRequest::Quit));
    let action = session
        .on_response(&FtpResponse::ClosingControlConnection(ok("bye")))
        .unwrap();
    assert_eq!(action, FtpAction::ConnectionClosed);
    assert_eq!(session.state(), FtpsState::Closed);
}

#[test]
fn unexpected_response_is_fatal() {
    let control = SocketAddressV4 { a: 127, b: 0, c: 0, d: 1, port: 990 };
    let client = FileClient::new("127.0.0.1", "x");
    let mut session = client.session(control);
    // a 200 while awaiting the banner is a protocol error
    assert!(session.on_response(&FtpResponse::CommandOkay("x".to_string())).is_err());
    assert_eq!(session.state(), FtpsState::Failed);
}

#[test]
fn pasv_nat_fixup() {
    // 227 (0,0,0,0,10,20) on a control connection to 192.0.2.5 dials
    // 192.0.2.5:2580
    let control = SocketAddressV4 { a: 192, b: 0, c: 2, d: 5, port: 990 };
    let advertised = SocketAddressV4 { a: 0, b: 0, c: 0, d: 0, port: 2580 };
    assert_eq!(
        fixup_pasv(advertised, control),
        SocketAddressV4 { a: 192, b: 0, c: 2, d: 5, port: 2580 }
    );
    // a specified address is kept
    let advertised = SocketAddressV4 { a: 10, b: 1, c: 2, d: 3, port: 2580 };
    assert_eq!(fixup_pasv(advertised, control), advertised);
}

#[test]
fn pasv_nat_fixup_in_session() {
    let control = SocketAddressV4 { a: 192, b: 0, c: 2, d: 5, port: 990 };
    let client = FileClient::new("192.0.2.5", "x");
    let mut session = client.session(control);
    session.on_response(&FtpResponse::ServiceReady(ok("OK"))).unwrap();
    session.on_response(&FtpResponse::UserNameOkayNeedPassword(ok(""))).unwrap();
    session.on_response(&FtpResponse::UserLoggedIn(ok(""))).unwrap();
    session.on_response(&FtpResponse::CommandOkay(ok(""))).unwrap();
    session.on_response(&FtpResponse::CommandOkay(ok(""))).unwrap();
    session.start_list("/cache").unwrap();
    session.on_response(&FtpResponse::DirectoryActionOkay(ok(""))).unwrap();
    let pasv = FtpResponse::from_response_string("227 x (0,0,0,0,10,20)").unwrap();
    let action = session.on_response(&pasv).unwrap();
    assert_eq!(action, FtpAction::Send(FtpRequest::List("/cache".to_string())));
    let action = session.on_response(&FtpResponse::FileStatusOkay(ok(""))).unwrap();
    assert_eq!(
        action,
        FtpAction::OpenData(SocketAddressV4 { a: 192, b: 0, c: 2, d: 5, port: 2580 })
    );
}

#[test]
fn parse_ipv4_addresses() {
    assert_eq!(parse_ipv4("192.0.2.5"), Some((192, 0, 2, 5)));
    assert_eq!(parse_ipv4("0.0.0.0"), Some((0, 0, 0, 0)));
    assert_eq!(parse_ipv4("255.255.255.255"), Some((255, 255, 255, 255)));
    assert_eq!(parse_ipv4("256.0.0.1"), None);
    assert_eq!(parse_ipv4("01.2.3.4"), None);
    assert_eq!(parse_ipv4("1.2.3"), None);
    assert_eq!(parse_ipv4("1.2.3.4.5"), None);
    assert_eq!(parse_ipv4("a.b.c.d"), None);
    assert_eq!(parse_ipv4(""), None);
}
