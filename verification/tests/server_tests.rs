use websocket_handshake::server::{HOLD_OPEN_MILLIS, READ_BUFFER_LEN};
use websocket_handshake::{create_web_socket_server, WebSocketServer};

#[test]
fn new_server_has_its_port_and_no_connections() {
    let server: WebSocketServer = create_web_socket_server(8001);
    assert_eq!(server.port(), 8001);
    assert_eq!(server.connection_counter(), 0);
}

#[test]
fn listen_address_is_loopback_and_port() {
    assert_eq!(create_web_socket_server(8001).listen_address(), "127.0.0.1:8001");
    assert_eq!(create_web_socket_server(80).listen_address(), "127.0.0.1:80");
    assert_eq!(create_web_socket_server(7).listen_address(), "127.0.0.1:7");
    assert_eq!(create_web_socket_server(0).listen_address(), "127.0.0.1:0");
    assert_eq!(create_web_socket_server(10).listen_address(), "127.0.0.1:10");
    assert_eq!(create_web_socket_server(i16::MAX).listen_address(), "127.0.0.1:32767");
    assert_eq!(create_web_socket_server(-5).listen_address(), "127.0.0.1:-5");
    assert_eq!(create_web_socket_server(i16::MIN).listen_address(), "127.0.0.1:-32768");
}

#[test]
fn listen_address_agrees_with_std_formatting() {
    for port in [1i16, 9, 10, 99, 100, 1000, 8001, 12345, -1, -10, -999] {
        let expected = format!("127.0.0.1:{}", port);
        assert_eq!(create_web_socket_server(port).listen_address(), expected);
    }
}

#[test]
fn only_positive_ports_are_valid() {
    assert!(create_web_socket_server(1).has_valid_port());
    assert!(create_web_socket_server(8001).has_valid_port());
    assert!(create_web_socket_server(i16::MAX).has_valid_port());
    assert!(!create_web_socket_server(0).has_valid_port());
    assert!(!create_web_socket_server(-1).has_valid_port());
}

#[test]
fn connections_are_counted() {
    let mut server = create_web_socket_server(8001);
    server.record_connection();
    assert_eq!(server.connection_counter(), 1);
    server.record_connection();
    server.record_connection();
    assert_eq!(server.connection_counter(), 3);
    assert_eq!(server.port(), 8001);
}

#[test]
fn handler_limits() {
    assert_eq!(READ_BUFFER_LEN, 1024);
    assert_eq!(HOLD_OPEN_MILLIS, 5000);
}
