use tftp::client::Client;
use tftp::file::Host;
use tftp::options::{OptionBuilder, Options};
use tftp::packet::{ack, oack, request, Request};
use tftp::server::{start_transfer, wants_size};
use tftp::session::TftpSession;
use tftp::transfer::Next;
use tftp::OpCode;

#[test]
fn client_get_asks_to_read() {
    let options = OptionBuilder::default().blksize(1024).tsize().build();
    let req = Client::new("octet", options).get("boot.img");
    assert_eq!(OpCode::Rrq, *req.op_code());
    assert_eq!(
        &b"\x00\x01boot.img\x00octet\x00blksize\x001024\x00tsize\x000\x00"[..],
        request(&req).as_ref()
    );
}

#[test]
fn client_put_tells_the_size_where_tsize_is_asked_for() {
    let options = OptionBuilder::default().tsize().build();
    let req = Client::new("netascii", options).put("notes.txt", 321);
    assert_eq!(OpCode::Wrq, *req.op_code());
    assert_eq!(
        &b"\x00\x02notes.txt\x00netascii\x00tsize\x00321\x00"[..],
        request(&req).as_ref()
    );
    let plain = Client::new("netascii", Options::default()).put("notes.txt", 321);
    assert_eq!(&b"\x00\x02notes.txt\x00netascii\x00"[..], request(&plain).as_ref());
}

#[test]
fn client_session_starts_in_the_mode_of_the_request() {
    let client = Client::new("octet", OptionBuilder::default().blksize(1024).build());
    let session = client.handl_request(&client.get("f"), Host::Unix);
    assert_eq!("octet", session.mode());
    assert!(!session.options().has_option());
    assert_eq!(0, session.blocknum_ack());
    assert!(session.fresh());
}

#[test]
fn server_answers_options_with_an_oack() {
    let limits = OptionBuilder::default().blksize(512).tsize().build();
    let asked = OptionBuilder::default().blksize(1024).timeout(2).tsize().build();
    for req in [Request::rrq("f", "octet", &asked), Request::wrq("f", "octet", &asked)] {
        let mut session = TftpSession::new(Host::Unix);
        let step = start_transfer(&mut session, &req, &limits, 77);
        assert!(step.write.is_none());
        assert!(matches!(step.next, Next::Receive));
        assert_eq!(Some(oack(session.options())), step.send);
        assert_eq!(512, session.options().blksize());
        assert_eq!(10, session.options().timeout());
        let size = if *req.op_code() == OpCode::Rrq { 77 } else { 0 };
        assert_eq!(size, session.options().tsize());
    }
}

#[test]
fn server_answers_a_plain_read_request_with_data() {
    let mut session = TftpSession::new(Host::Unix);
    let req = Request::rrq("f", "octet", &Options::default());
    let step = start_transfer(&mut session, &req, &Options::default(), 77);
    assert!(step.send.is_none());
    assert!(matches!(step.next, Next::Read { blocknum_start: 0, reader_pos: 0, lastch: None }));
}

#[test]
fn server_answers_a_plain_write_request_with_ack_zero() {
    let mut session = TftpSession::new(Host::Unix);
    let req = Request::wrq("f", "octet", &Options::default());
    let step = start_transfer(&mut session, &req, &Options::default(), 0);
    assert_eq!(Some(ack(0)), step.send);
    assert!(matches!(step.next, Next::Receive));
}

#[test]
fn server_drops_options_that_it_does_not_grant() {
    let mut session = TftpSession::new(Host::Unix);
    let asked = OptionBuilder::default().timeout(2).tsize().build();
    let req = Request::wrq("f", "octet", &asked);
    let step = start_transfer(&mut session, &req, &Options::default(), 0);
    assert_eq!(Some(ack(0)), step.send);
    assert!(!session.options().has_option());
}

#[test]
fn the_size_of_the_file_is_asked_for_only_with_tsize() {
    let with = OptionBuilder::default().tsize().build();
    let without = OptionBuilder::default().blksize(8).build();
    assert!(with.has_tsize());
    assert!(!without.has_tsize());
    assert!(Client::new("octet", with).wants_size());
    assert!(!Client::new("octet", without).wants_size());
    assert!(wants_size(&Request::rrq("f", "octet", &with), &with));
    assert!(!wants_size(&Request::rrq("f", "octet", &with), &without));
    assert!(!wants_size(&Request::rrq("f", "octet", &without), &with));
    assert!(!wants_size(&Request::wrq("f", "octet", &with), &with));
}
