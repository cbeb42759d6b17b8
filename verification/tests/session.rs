use zap_wasm::client::{Call, ClientConfig, ClientOptions};
use zap_wasm::pending::{PendingRequests, Settlement};
use zap_wasm::protocol::WireMessage;
use zap_wasm::session::{route, ZapClient, ConnectAttempt, ConnectSignal, MessageRoute, RequestStart};

fn new_core(binary: bool) -> ZapClient<u32, u32> {
    let options = ClientOptions {
        client_id: Some("me".to_string()),
        client_type: None,
        capabilities: None,
        timeout: None,
        binary: Some(binary),
    };
    ZapClient::new(ClientConfig::from_options(options, String::new()))
}

#[test]
fn routes_by_type_code() {
    assert_eq!(route(Some(2)), MessageRoute::HandshakeReply);
    assert_eq!(route(Some(4)), MessageRoute::Reply);
    assert_eq!(route(Some(5)), MessageRoute::Stream);
    assert_eq!(route(Some(1)), MessageRoute::Ignore);
    assert_eq!(route(Some(6)), MessageRoute::Ignore);
    assert_eq!(route(None), MessageRoute::Ignore);
}

#[test]
fn accepted_handshake_resolves_once() {
    let mut a = ConnectAttempt::new();
    assert!(matches!(a.on_handshake_reply(Some(true), None), ConnectSignal::Resolve));
    assert!(matches!(a.on_handshake_reply(Some(true), None), ConnectSignal::Nothing));
    // The reject callback is still unused: a later error still rejects.
    match a.on_socket_error() {
        ConnectSignal::Reject(r) => assert_eq!(r, "WebSocket error"),
        _ => panic!("expected a rejection"),
    }
    assert!(matches!(a.on_socket_error(), ConnectSignal::Nothing));
}

#[test]
fn refused_handshake_rejects_with_its_reason() {
    let mut a = ConnectAttempt::new();
    match a.on_handshake_reply(Some(false), Some("full".to_string())) {
        ConnectSignal::Reject(r) => assert_eq!(r, "full"),
        _ => panic!("expected a rejection"),
    }
    let mut b = ConnectAttempt::new();
    match b.on_handshake_reply(None, None) {
        ConnectSignal::Reject(r) => assert_eq!(r, "Connection rejected"),
        _ => panic!("expected a rejection"),
    }
    assert!(matches!(b.on_handshake_reply(Some(false), None), ConnectSignal::Nothing));
    assert!(matches!(b.on_handshake_reply(Some(true), None), ConnectSignal::Resolve));
}

#[test]
fn request_without_connection_is_refused() {
    let mut c = new_core(true);
    match c.request::<()>(false, "id1".to_string(), "tools/list", Ok(None), 7) {
        RequestStart::Refused(cb, reason) => {
            assert_eq!(cb, 7);
            assert_eq!(reason, "Not connected");
        },
        _ => panic!("must be refused"),
    }
    assert_eq!(c.pending_count(), 0);
}

#[test]
fn request_with_unwritable_parameters_stays_recorded() {
    let mut c = new_core(true);
    match c.request(true, "id2".to_string(), "browser", Err("cyclic"), 8) {
        RequestStart::Failed(e) => assert_eq!(e, "cyclic"),
        _ => panic!("must fail"),
    }
    assert!(c.is_pending(&"id2".to_string()));
}

#[test]
fn request_is_recorded_and_encoded() {
    let mut c = new_core(false);
    let call = Call::read_resource("x");
    match c.request::<()>(true, "r1".to_string(), &call.method, Ok(call.params.clone()), 1) {
        RequestStart::Send(WireMessage::Text(t)) => assert_eq!(
            t,
            "{\"t\":3,\"d\":{\"id\":\"r1\",\"method\":\"resources/read\",\"params\":{\"uri\":\"x\"}}}"
        ),
        _ => panic!("text mode writes text"),
    }
    assert!(c.is_pending(&"r1".to_string()));
    let mut b = new_core(true);
    match b.request::<()>(true, "r".to_string(), "tools/list", Ok(None), 2) {
        RequestStart::Send(WireMessage::Binary(bytes)) => {
            let mut expected = vec![0x5A, 0x41, 0x50, 0x01, 3];
            expected.extend_from_slice(b"{\"id\":\"r\",\"method\":\"tools/list\"}");
            assert_eq!(bytes, expected);
        },
        _ => panic!("binary mode writes frames"),
    }
}

#[test]
fn reply_settles_its_request_once() {
    let mut c = new_core(true);
    c.register("a".to_string(), 10);
    c.register("b".to_string(), 20);
    assert!(matches!(c.on_reply(Some("a".to_string()), false), Some(Settlement::Resolve(10))));
    assert!(c.on_reply(Some("a".to_string()), false).is_none());
    assert!(matches!(c.on_reply(Some("b".to_string()), true), Some(Settlement::Reject(20))));
    assert_eq!(c.pending_count(), 0);
    // A reply without an identifier answers the request with the empty one.
    c.register(String::new(), 30);
    assert!(matches!(c.on_reply(None, false), Some(Settlement::Resolve(30))));
}

#[test]
fn close_hands_back_every_request() {
    let mut c = new_core(true);
    c.register("a".to_string(), 1);
    c.register("b".to_string(), 2);
    c.register("a".to_string(), 3);
    assert_eq!(c.pending_count(), 2);
    let mut all = c.close();
    all.sort();
    assert_eq!(all, vec![("a".to_string(), 3), ("b".to_string(), 2)]);
    assert_eq!(c.pending_count(), 0);
    assert!(c.close().is_empty());
}

#[test]
fn pending_table_replaces_and_takes() {
    let mut t: PendingRequests<&str> = PendingRequests::new();
    assert_eq!(t.insert("x".to_string(), "first"), None);
    assert_eq!(t.insert("x".to_string(), "second"), Some("first"));
    assert_eq!(t.len(), 1);
    assert!(t.contains(&"x".to_string()));
    assert_eq!(t.take(&"x".to_string()), Some("second"));
    assert_eq!(t.take(&"x".to_string()), None);
    assert_eq!(t.len(), 0);
}

#[test]
fn subscriptions_on_and_off() {
    let mut c = new_core(true);
    let stream = "stream".to_string();
    assert!(c.listeners(&stream).is_none());
    c.on(stream.clone(), 1);
    c.on(stream.clone(), 2);
    c.on(stream.clone(), 1);
    c.on("error".to_string(), 9);
    assert_eq!(c.listeners(&stream), Some(&vec![1, 2, 1]));
    c.off(&stream, |h: &u32| *h == 1);
    assert_eq!(c.listeners(&stream), Some(&vec![2]));
    c.off(&stream, |h: &u32| *h == 2);
    // The event keeps an empty list.
    assert_eq!(c.listeners(&stream), Some(&vec![]));
    c.off(&"missing".to_string(), |_h: &u32| true);
    assert!(c.listeners(&"missing".to_string()).is_none());
    assert_eq!(c.listeners(&"error".to_string()), Some(&vec![9]));
}
