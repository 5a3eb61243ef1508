use syntropctl::error::{IoFailure, IoKind, SyntropctlError};
use syntropctl::json::{Json, JsonNumber};
use syntropctl::varlink::{
    ExchangeAction, ExchangeEvent, ExchangePhase, VarlinkClient, VarlinkExchange, VarlinkReply,
};

fn connected(method: &str, body: &[u8]) -> VarlinkExchange {
    let (mut ex, first) = VarlinkExchange::start(method, "/tmp/test.sock", body.to_vec());
    assert!(matches!(first, ExchangeAction::Connect));
    match ex.step(ExchangeEvent::Connected) {
        ExchangeAction::Send(bytes) => {
            let mut framed = body.to_vec();
            framed.push(0);
            assert_eq!(bytes, framed);
        },
        other => panic!("unexpected {:?}", other),
    }
    assert!(matches!(ex.step(ExchangeEvent::Sent), ExchangeAction::ReceiveByte));
    ex
}

fn feed(ex: &mut VarlinkExchange, stream: &[u8]) -> ExchangeAction {
    for &b in stream {
        match ex.step(ExchangeEvent::Byte(b)) {
            ExchangeAction::ReceiveByte => continue,
            done => return done,
        }
    }
    ex.step(ExchangeEvent::Closed)
}

#[test]
fn reply_is_read_up_to_the_terminator() {
    let mut ex = connected("org.varlink.service.GetInfo", b"{\"method\":\"x\"}");
    match feed(&mut ex, b"{\"parameters\":{}}\0trailing") {
        ExchangeAction::Deliver(bytes) => assert_eq!(bytes, b"{\"parameters\":{}}".to_vec()),
        other => panic!("unexpected {:?}", other),
    }
    assert_eq!(ex.phase, ExchangePhase::Finished);
}

#[test]
fn reply_without_terminator_ends_at_close() {
    let mut ex = connected("a.b", b"{}");
    match feed(&mut ex, b"{\"x\":1}") {
        ExchangeAction::Deliver(bytes) => assert_eq!(bytes, b"{\"x\":1}".to_vec()),
        other => panic!("unexpected {:?}", other),
    }
}

#[test]
fn test_socket_immediate_eof_returns_malformed_reply() {
    let mut ex = connected("org.varlink.service.GetInfo", b"{}");
    match ex.step(ExchangeEvent::Closed) {
        ExchangeAction::Fail(SyntropctlError::MalformedReply(msg)) => {
            assert!(msg.contains("Empty reply buffer"))
        },
        other => panic!("unexpected {:?}", other),
    }
    let mut ex = connected("a.b", b"{}");
    assert!(matches!(
        ex.step(ExchangeEvent::Byte(0)),
        ExchangeAction::Fail(SyntropctlError::MalformedReply(_))
    ));
}

#[test]
fn test_nonexistent_socket_returns_daemon_unavailable() {
    let (mut ex, _) = VarlinkExchange::start(
        "io.syntrop.Test1.Ping",
        "/tmp/nonexistent_socket_file_12345.sock",
        b"{}".to_vec(),
    );
    let failure = IoFailure { kind: IoKind::NotFound, message: "No such file".to_string() };
    match ex.step(ExchangeEvent::ConnectFailed(failure)) {
        ExchangeAction::Fail(SyntropctlError::DaemonUnavailable { daemon, socket, source }) => {
            assert_eq!(daemon, "io");
            assert_eq!(socket, "/tmp/nonexistent_socket_file_12345.sock");
            assert_eq!(source.kind, IoKind::NotFound);
        },
        other => panic!("unexpected {:?}", other),
    }
}

#[test]
fn transport_failures_and_timeouts() {
    let (mut ex, _) = VarlinkExchange::start("a.b", "/s", b"{}".to_vec());
    ex.step(ExchangeEvent::Connected);
    match ex.step(ExchangeEvent::SendTimedOut) {
        ExchangeAction::Fail(SyntropctlError::OperationFailed(m)) => {
            assert_eq!(m, "Varlink write timed out")
        },
        other => panic!("unexpected {:?}", other),
    }
    let mut ex = connected("a.b", b"{}");
    match ex.step(ExchangeEvent::ReceiveTimedOut) {
        ExchangeAction::Fail(SyntropctlError::OperationFailed(m)) => {
            assert_eq!(m, "Varlink read timed out")
        },
        other => panic!("unexpected {:?}", other),
    }
    let mut ex = connected("a.b", b"{}");
    let reset = IoFailure { kind: IoKind::ConnectionReset, message: "reset".to_string() };
    match ex.step(ExchangeEvent::ReceiveFailed(reset)) {
        ExchangeAction::Fail(SyntropctlError::Io(f)) => assert_eq!(f.kind, IoKind::ConnectionReset),
        other => panic!("unexpected {:?}", other),
    }
    let (mut ex, _) = VarlinkExchange::start("a.b", "/s", b"{}".to_vec());
    ex.step(ExchangeEvent::Connected);
    let pipe = IoFailure { kind: IoKind::BrokenPipe, message: "pipe".to_string() };
    assert!(matches!(
        ex.step(ExchangeEvent::SendFailed(pipe)),
        ExchangeAction::Fail(SyntropctlError::Io(_))
    ));
}

#[test]
fn test_remote_varlink_error_propagated() {
    let reply = VarlinkReply {
        parameters: Some(Json::Object(vec![(
            "model".to_string(),
            Json::Str("nonexistent".to_string()),
        )])),
        error: Some("io.syntrop.Model1.ModelNotFound".to_string()),
        continues: None,
    };
    match VarlinkClient::reply_result(reply) {
        Err(SyntropctlError::ProtocolError { error, parameters }) => {
            assert_eq!(error, "io.syntrop.Model1.ModelNotFound");
            match parameters.unwrap().get("model") {
                Some(Json::Str(s)) => assert_eq!(s, "nonexistent"),
                other => panic!("unexpected {:?}", other),
            }
        },
        other => panic!("Expected ProtocolError, got {:?}", other),
    }
}

#[test]
fn reply_parameters_or_null() {
    let reply = VarlinkReply {
        parameters: Some(Json::Object(vec![(
            "exit_code".to_string(),
            Json::Number(JsonNumber::PosInt(0)),
        )])),
        error: None,
        continues: None,
    };
    match VarlinkClient::reply_result(reply) {
        Ok(p) => assert!(matches!(p.get("exit_code"), Some(Json::Number(JsonNumber::PosInt(0))))),
        other => panic!("unexpected {:?}", other),
    }
    let empty = VarlinkReply { parameters: None, error: None, continues: Some(false) };
    assert!(matches!(VarlinkClient::reply_result(empty), Ok(Json::Null)));
}

#[test]
fn introspection_calls() {
    let info = VarlinkClient::get_info_call();
    assert_eq!(info.method, "org.varlink.service.GetInfo");
    assert!(info.parameters.is_none());
    let desc = VarlinkClient::interface_description_call("io.syntrop.Tool1");
    assert_eq!(desc.method, "org.varlink.service.GetInterfaceDescription");
    match desc.parameters {
        Some(p) => match p.get("interface") {
            Some(Json::Str(s)) => assert_eq!(s, "io.syntrop.Tool1"),
            other => panic!("unexpected {:?}", other),
        },
        None => panic!("no parameters"),
    }
    let reply = Json::Object(vec![("description".to_string(), Json::Str("interface x".to_string()))]);
    assert_eq!(VarlinkClient::interface_description(&reply), "interface x");
    assert_eq!(VarlinkClient::interface_description(&Json::Null), "");
}
