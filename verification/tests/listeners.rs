use rustic::listeners::{
    htonl, htons, plan_of, without_brackets, is_transient_error, on_accept, str_to_listener, transport_for, url_to_listener,
    AcceptAction, AcceptErrorKind, AcceptEvent, IpAddress, ListenerErrorKind, ParsedListener,
    ParsedUrl, SocketAddress, Transport, BACKLOG, BACKOFF_MILLIS,
};
use rustic::{Server, TcpListener};

#[test]
fn tls_target_is_refused_as_not_supported() {
    let e = str_to_listener("tls://host:443").err().unwrap();
    assert_eq!(e.kind, ListenerErrorKind::Unsupported);
    assert_eq!(e.message, "parsing TLS listeners not supported yet");
    for target in ["ssl://host:443", "https://example.com", "tls://127.0.0.1"] {
        let e = str_to_listener(target).err().unwrap();
        assert_eq!(e.kind, ListenerErrorKind::Unsupported, "{}", target);
        assert!(e.message.contains("not supported"), "{}", target);
    }
}

#[test]
fn tcp_and_http_targets_give_host_and_port() {
    let t = str_to_listener("http://localhost:8080").unwrap();
    assert_eq!((t.host.as_str(), t.port), ("localhost", 8080));
    let t = str_to_listener("tcp://0.0.0.0:3000").unwrap();
    assert_eq!((t.host.as_str(), t.port), ("0.0.0.0", 3000));
    let t = str_to_listener("http://example.com").unwrap();
    assert_eq!((t.host.as_str(), t.port), ("example.com", 80));
    let t = str_to_listener("tcp://example.com").unwrap();
    assert_eq!((t.host.as_str(), t.port), ("example.com", 80));
    let t = str_to_listener("http://[::1]:9000/ignored/path").unwrap();
    assert_eq!((t.host.as_str(), t.port), ("::1", 9000));
    assert_eq!(without_brackets("[::1]"), "::1");
    assert_eq!(without_brackets("[]"), "");
    assert_eq!(without_brackets("["), "[");
    assert_eq!(without_brackets("[::1"), "[::1");
    assert_eq!(without_brackets("example.com"), "example.com");
    assert_eq!(without_brackets(""), "");
}

#[test]
fn other_schemes_and_texts_that_are_no_url_are_invalid_input() {
    let e = str_to_listener("ftp://example.com").err().unwrap();
    assert_eq!(e.kind, ListenerErrorKind::InvalidInput);
    assert_eq!(e.message, "unrecognized url scheme");
    let e = str_to_listener("not a url").err().unwrap();
    assert_eq!(e.kind, ListenerErrorKind::InvalidInput);
    assert_eq!(e.message, "unable to parse listener from `not a url`");
    let e = str_to_listener("").err().unwrap();
    assert_eq!(e.message, "unable to parse listener from ``");
}

#[test]
fn scheme_selects_the_transport() {
    assert_eq!(transport_for("tcp").ok(), Some(Transport::Tcp));
    assert_eq!(transport_for("http").ok(), Some(Transport::Tcp));
    for scheme in ["tls", "ssl", "https"] {
        assert_eq!(transport_for(scheme).err().unwrap().kind, ListenerErrorKind::Unsupported);
    }
    for scheme in ["", "TCP", "ws", "httpx", "unix"] {
        assert_eq!(transport_for(scheme).err().unwrap().kind, ListenerErrorKind::InvalidInput);
    }
}

#[test]
fn url_without_host_is_refused() {
    let url = ParsedUrl { scheme: "tcp".to_string(), host: None, port: Some(1) };
    let e = url_to_listener(&url).err().unwrap();
    assert_eq!(e.kind, ListenerErrorKind::NoHost);
    assert_eq!(e.message, "No host name in the URL");
    let url = ParsedUrl { scheme: "tls".to_string(), host: None, port: None };
    assert_eq!(url_to_listener(&url).err().unwrap().kind, ListenerErrorKind::Unsupported);
}

#[test]
fn transient_failures_are_refused_aborted_and_reset_connections() {
    assert!(is_transient_error(AcceptErrorKind::ConnectionRefused));
    assert!(is_transient_error(AcceptErrorKind::ConnectionAborted));
    assert!(is_transient_error(AcceptErrorKind::ConnectionReset));
    assert!(!is_transient_error(AcceptErrorKind::Other));
}

#[test]
fn repeated_transient_failures_never_stop_or_delay_the_loop() {
    let kinds = [
        AcceptErrorKind::ConnectionReset,
        AcceptErrorKind::ConnectionReset,
        AcceptErrorKind::ConnectionAborted,
        AcceptErrorKind::ConnectionRefused,
        AcceptErrorKind::ConnectionReset,
    ];
    for _ in 0..100 {
        for kind in kinds {
            assert_eq!(on_accept(AcceptEvent::Failed(kind)), AcceptAction::Retry);
        }
    }
}

#[test]
fn one_grave_failure_is_followed_by_one_fixed_delay() {
    assert_eq!(BACKOFF_MILLIS, 500);
    let events = [
        AcceptEvent::Connection,
        AcceptEvent::Failed(AcceptErrorKind::ConnectionReset),
        AcceptEvent::Failed(AcceptErrorKind::Other),
        AcceptEvent::Connection,
        AcceptEvent::Closed,
    ];
    let actions: Vec<AcceptAction> = events.iter().map(|e| on_accept(*e)).collect();
    assert_eq!(
        actions,
        vec![
            AcceptAction::Serve,
            AcceptAction::Retry,
            AcceptAction::Backoff { millis: 500 },
            AcceptAction::Serve,
            AcceptAction::Stop,
        ]
    );
    let delays = actions.iter().filter(|a| matches!(a, AcceptAction::Backoff { .. })).count();
    assert_eq!(delays, 1);
}

#[test]
fn network_byte_order_puts_the_most_significant_byte_first() {
    assert_eq!(htons(0x1234).to_ne_bytes(), [0x12, 0x34]);
    assert_eq!(htons(8080).to_ne_bytes(), [0x1f, 0x90]);
    assert_eq!(htonl(0x0102_0304).to_ne_bytes(), [1, 2, 3, 4]);
    assert_eq!(htonl(0), 0);
    assert_eq!(htons(0xffff), 0xffff);
}

#[test]
fn listener_is_bound_before_it_accepts() {
    let addr = SocketAddress { ip: IpAddress::V4([127, 0, 0, 1]), port: 9999 };
    let mut listener = TcpListener::from_addrs(vec![addr]);
    assert_eq!(listener.accept().err().unwrap().kind, ListenerErrorKind::OutOfOrder);

    let plans = listener.bind(Server::new()).ok().unwrap().expect("a socket has to be opened");
    assert_eq!(plans.len(), 1);
    let plan = &plans[0];
    assert!(plan.reuse_address);
    assert!(plan.reuse_port);
    assert_eq!(plan.ip, IpAddress::V4([127, 0, 0, 1]));
    assert_eq!(plan.address.to_ne_bytes(), [127, 0, 0, 1]);
    assert_eq!(plan.port.to_ne_bytes(), 9999u16.to_be_bytes());
    assert_eq!(plan.backlog, BACKLOG);
    assert_eq!(plan.backlog, 5);

    assert_eq!(listener.accept().err().unwrap().kind, ListenerErrorKind::OutOfOrder);
    listener.opened();
    assert!(listener.bind(Server::new()).ok().unwrap().is_none());
    assert!(listener.accept().is_ok());
    assert_eq!(listener.accept().err().unwrap().kind, ListenerErrorKind::OutOfOrder);
}

#[test]
fn socket_is_planned_for_each_address_of_the_target_in_order() {
    let first = SocketAddress { ip: IpAddress::V6([0, 0, 0, 0, 0, 0, 0, 1]), port: 3000 };
    let second = SocketAddress { ip: IpAddress::V4([10, 1, 2, 3]), port: 3000 };
    let mut listener = TcpListener::from_addrs(vec![first, second]);
    let plans = listener.bind(Server::new()).ok().unwrap().unwrap();
    assert_eq!(plans.len(), 2);
    assert_eq!(plans[0].ip, first.ip);
    assert_eq!(plans[0].address, 0);
    assert_eq!(plans[0].port.to_ne_bytes(), [0x0b, 0xb8]);
    assert_eq!(plans[1].ip, second.ip);
    assert_eq!(plans[1].address.to_ne_bytes(), [10, 1, 2, 3]);
    assert_eq!(plans[1].port.to_ne_bytes(), [0x0b, 0xb8]);
    assert!(plans.iter().all(|p| p.reuse_address && p.reuse_port && p.backlog == 5));

    let any = plan_of(&SocketAddress { ip: IpAddress::V4([0, 0, 0, 0]), port: 8080 });
    assert_eq!(any.address, 0);
    assert_eq!(any.port.to_ne_bytes(), [0x1f, 0x90]);
    let all = plan_of(&SocketAddress { ip: IpAddress::V4([255, 255, 255, 255]), port: 65535 });
    assert_eq!(all.address, u32::MAX);
    assert_eq!(all.port, u16::MAX);
}

#[test]
fn socket_is_planned_only_once() {
    let addr = SocketAddress { ip: IpAddress::V4([0, 0, 0, 0]), port: 80 };
    let mut listener = TcpListener::from_addrs(vec![addr]);
    assert!(listener.bind(Server::new()).ok().unwrap().is_some());
    let e = listener.bind(Server::new()).err().unwrap();
    assert_eq!(e.kind, ListenerErrorKind::OutOfOrder);
    assert_eq!(e.message, "`bind` should only be called once");
    let parsed = ParsedListener::Tcp(listener);
    assert!(matches!(parsed, ParsedListener::Tcp(_)));
}

#[test]
fn listener_without_an_address_is_refused() {
    let mut listener = TcpListener::from_addrs(Vec::new());
    let e = listener.bind(Server::new()).err().unwrap();
    assert_eq!(e.kind, ListenerErrorKind::InvalidInput);
    assert_eq!(e.message, "could not resolve to any addresses");
    assert_eq!(listener.accept().err().unwrap().kind, ListenerErrorKind::OutOfOrder);
}
