use xitca_client_core::{
    absorb_read, collect_limited, consume_written, effective_limit, extend_limited, host_header_value, Action,
    BodyOverFlow, BodySize, DispatchError, Event, Exchange, ExtensionRef, ExtensionsRef, Limit, Phase, RequestHead,
};

fn request(host_header: Option<&[u8]>, port: Option<u16>, tls: bool, expect: bool, body: BodySize) -> RequestHead {
    RequestHead {
        is_head: false,
        tls,
        host: Some(b"example.com".to_vec()),
        port,
        host_header: host_header.map(|h| h.to_vec()),
        expect,
        body,
    }
}

#[test]
fn host_header_without_port() {
    assert_eq!(host_header_value(&b"example.com".to_vec(), None, false), b"example.com".to_vec());
}

#[test]
fn host_header_omits_default_ports() {
    assert_eq!(host_header_value(&b"example.com".to_vec(), Some(80), false), b"example.com".to_vec());
    assert_eq!(host_header_value(&b"example.com".to_vec(), Some(443), true), b"example.com".to_vec());
}

#[test]
fn host_header_keeps_other_ports() {
    assert_eq!(host_header_value(&b"example.com".to_vec(), Some(8080), false), b"example.com:8080".to_vec());
    assert_eq!(host_header_value(&b"example.com".to_vec(), Some(443), false), b"example.com:443".to_vec());
    assert_eq!(host_header_value(&b"example.com".to_vec(), Some(80), true), b"example.com:80".to_vec());
    assert_eq!(host_header_value(&b"h".to_vec(), Some(0), false), b"h:0".to_vec());
    assert_eq!(host_header_value(&b"h".to_vec(), Some(65535), true), b"h:65535".to_vec());
}

#[test]
fn normalize_synthesises_missing_host() {
    let mut req = request(None, Some(8443), true, false, BodySize::Absent);
    assert!(!req.normalize());
    assert_eq!(req.host_header, Some(b"example.com:8443".to_vec()));
}

#[test]
fn normalize_keeps_explicit_host() {
    let mut req = request(Some(b"other.example"), Some(8080), false, false, BodySize::Absent);
    req.normalize();
    assert_eq!(req.host_header, Some(b"other.example".to_vec()));
}

#[test]
fn normalize_without_target_host() {
    let mut req = request(None, None, false, false, BodySize::Absent);
    req.host = None;
    req.normalize();
    assert_eq!(req.host_header, None);
}

#[test]
fn normalize_drops_expect_for_empty_body() {
    let mut req = request(None, None, false, true, BodySize::Absent);
    assert!(!req.normalize());
    assert!(!req.expect);
    let mut req = request(None, None, false, true, BodySize::Sized(0));
    assert!(!req.normalize());
    assert!(!req.expect);
}

#[test]
fn normalize_keeps_expect_for_a_body() {
    let mut req = request(None, None, false, true, BodySize::Sized(12));
    assert!(req.normalize());
    let mut req = request(None, None, false, true, BodySize::Stream);
    assert!(req.normalize());
    let mut req = request(None, None, false, false, BodySize::Stream);
    assert!(!req.normalize());
}

#[test]
fn continue_is_not_the_final_response() {
    let mut x = Exchange::new(true, false);
    assert_eq!(x.step(Event::HeadSent), Action::FlushAndAwait);
    assert_eq!(x.step(Event::HeadDecoded { status: 100, close: false }), Action::SendBody);
    assert_eq!(x.phase, Phase::SendBody);
    assert_eq!(x.step(Event::BodySent), Action::ReadResponse { clear_buffer: false });
    assert_eq!(
        x.step(Event::HeadDecoded { status: 200, close: false }),
        Action::Finish { close: false, no_body: false }
    );
    assert_eq!(x.phase, Phase::Finished);
}

#[test]
fn early_final_response_skips_body() {
    let mut x = Exchange::new(true, false);
    x.step(Event::HeadSent);
    assert_eq!(
        x.step(Event::HeadDecoded { status: 417, close: true }),
        Action::Finish { close: true, no_body: false }
    );
    assert_eq!(x.step(Event::BodySent), Action::OutOfOrder);
}

#[test]
fn head_request_has_no_response_body() {
    let mut x = Exchange::new(false, true);
    assert_eq!(x.step(Event::HeadSent), Action::SendBody);
    x.step(Event::BodySent);
    assert_eq!(
        x.step(Event::HeadDecoded { status: 200, close: false }),
        Action::Finish { close: false, no_body: true }
    );
    let mut y = Exchange::new(true, true);
    y.step(Event::HeadSent);
    assert_eq!(
        y.step(Event::HeadDecoded { status: 404, close: false }),
        Action::Finish { close: false, no_body: true }
    );
}

#[test]
fn body_failure_forces_close_and_still_reads() {
    let mut x = Exchange::new(false, false);
    x.step(Event::HeadSent);
    assert_eq!(x.step(Event::BodyFailed), Action::ReadResponse { clear_buffer: true });
    assert!(x.force_close);
    assert_eq!(x.phase, Phase::ReadHead);
    assert_eq!(
        x.step(Event::HeadDecoded { status: 413, close: false }),
        Action::Finish { close: true, no_body: false }
    );
}

#[test]
fn events_out_of_phase_change_nothing() {
    let mut x = Exchange::new(false, false);
    let before = x;
    assert_eq!(x.step(Event::BodySent), Action::OutOfOrder);
    assert_eq!(x.step(Event::HeadDecoded { status: 200, close: false }), Action::OutOfOrder);
    assert_eq!(x, before);
}

#[test]
fn zero_byte_read_is_unexpected_eof() {
    let mut buf = b"HTTP/1.1 200".to_vec();
    assert_eq!(absorb_read(&mut buf, &[]), Err(DispatchError::UnexpectedEof));
    assert_eq!(buf, b"HTTP/1.1 200".to_vec());
    assert_eq!(absorb_read(&mut buf, b" OK\r\n"), Ok(()));
    assert_eq!(buf, b"HTTP/1.1 200 OK\r\n".to_vec());
}

#[test]
fn written_bytes_leave_the_buffer() {
    let mut buf = b"GET / HTTP/1.1\r\n".to_vec();
    assert_eq!(consume_written(&mut buf, 4), Ok(()));
    assert_eq!(buf, b"/ HTTP/1.1\r\n".to_vec());
    assert_eq!(consume_written(&mut buf, 0), Err(DispatchError::WriteZero));
    assert_eq!(buf, b"/ HTTP/1.1\r\n".to_vec());
    let n = buf.len();
    assert_eq!(consume_written(&mut buf, n), Ok(()));
    assert!(buf.is_empty());
}

#[test]
fn plain_get_end_to_end() {
    let mut req = RequestHead {
        is_head: false,
        tls: false,
        host: Some(b"example.com".to_vec()),
        port: None,
        host_header: None,
        expect: false,
        body: BodySize::Absent,
    };
    let is_expect = req.normalize();
    assert_eq!(req.host_header, Some(b"example.com".to_vec()));
    let mut x = Exchange::new(is_expect, req.is_head);

    let mut out = b"GET / HTTP/1.1\r\nhost: example.com\r\n\r\n".to_vec();
    let n = out.len();
    assert_eq!(consume_written(&mut out, n), Ok(()));
    assert_eq!(x.step(Event::HeadSent), Action::SendBody);
    assert_eq!(x.step(Event::BodySent), Action::ReadResponse { clear_buffer: false });

    let mut read = Vec::new();
    assert_eq!(absorb_read(&mut read, b"HTTP/1.1 200 OK\r\n"), Ok(()));
    assert_eq!(absorb_read(&mut read, b"content-length: 0\r\n\r\n"), Ok(()));
    assert_eq!(
        x.step(Event::HeadDecoded { status: 200, close: false }),
        Action::Finish { close: false, no_body: false }
    );
}

#[test]
fn limit_follows_content_length() {
    assert_eq!(effective_limit(Some(10), 100), 10);
    assert_eq!(effective_limit(Some(1000), 100), 100);
    assert_eq!(effective_limit(None, 100), 100);
    assert_eq!(effective_limit(Some(10), 0), 0);
    assert_eq!(effective_limit(Some(0), 100), 100);
    assert_eq!(effective_limit(Some(0), 0), 0);
}

#[test]
fn zero_content_length_keeps_the_bound() {
    let chunks = vec![b"hello".to_vec()];
    assert_eq!(Limit::<4>::collect(&chunks, Some(0)), Err(BodyOverFlow { limit: 4, len: 5 }));
    assert_eq!(Limit::<5>::collect(&chunks, Some(0)), Ok(b"hello".to_vec()));
}

#[test]
fn overflow_message_names_bound_and_size() {
    let e = BodyOverFlow { limit: 4, len: 5 };
    assert_eq!(String::from_utf8(e.message()).unwrap(), "body size over flow. limit: 4, actual_len: 5");
    let e = BodyOverFlow { limit: 1024, len: 70000 };
    assert_eq!(String::from_utf8(e.message()).unwrap(), "body size over flow. limit: 1024, actual_len: 70000");
}

#[test]
fn extend_limited_reports_overflow() {
    let mut buf = b"abc".to_vec();
    assert_eq!(extend_limited(&mut buf, b"d", 4), Ok(()));
    assert_eq!(extend_limited(&mut buf, b"e", 4), Err(BodyOverFlow { limit: 4, len: 5 }));
    assert_eq!(buf, b"abcde".to_vec());
    assert_eq!(extend_limited(&mut buf, b"fgh", 0), Ok(()));
}

#[test]
fn collect_stops_at_first_overflow() {
    let chunks = vec![b"ab".to_vec(), b"cde".to_vec(), b"f".to_vec()];
    let e = collect_limited(&chunks, 4).unwrap_err();
    assert_eq!(e.limit(), 4);
    assert_eq!(e.len(), 5);
    assert_eq!(collect_limited(&chunks, 6), Ok(b"abcdef".to_vec()));
    assert_eq!(collect_limited(&chunks, 0), Ok(b"abcdef".to_vec()));
    assert_eq!(collect_limited(&Vec::new(), 1), Ok(Vec::new()));
}

#[test]
fn limit_type_applies_its_bound() {
    let chunks = vec![b"hello".to_vec(), b" world".to_vec()];
    assert_eq!(Limit::<0>::collect(&chunks, None), Ok(b"hello world".to_vec()));
    assert_eq!(Limit::<8>::collect(&chunks, None), Err(BodyOverFlow { limit: 8, len: 11 }));
    assert_eq!(Limit::<100>::collect(&chunks, Some(3)), Err(BodyOverFlow { limit: 3, len: 5 }));
    assert_eq!(Limit::<100>::collect(&chunks, Some(11)), Ok(b"hello world".to_vec()));
}

#[test]
fn extension_ref_gives_the_value() {
    let v = 42u32;
    let r = ExtensionRef(&v);
    assert_eq!(*r.get(), 42);
    assert_eq!(*r, 42);
}

#[test]
fn extensions_ref_gives_the_map() {
    let mut ext = xitca_http::http::Extensions::new();
    ext.insert(7u8);
    let r = ExtensionsRef(&ext);
    assert_eq!(r.get().get::<u8>(), Some(&7u8));
}
