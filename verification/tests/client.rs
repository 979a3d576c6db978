use dahuavto::dahuavto::{
    ClientConfig, ClientError, Connection, DahuaVTOClient, ReceiveParams, ReceiveRes, Received,
    Reply, Route,
};
use dahuavto::json::{Json, Payload};
use std::time::Duration;

fn config() -> ClientConfig {
    ClientConfig {
        username: "admin".to_string(),
        password: "admin123".to_string(),
        host: "192.168.13.1".to_string(),
        user_id: "".to_string(),
        port: 80,
        connect_timeout: Duration::from_secs(5),
    }
}

fn connected() -> DahuaVTOClient {
    let mut client = DahuaVTOClient::new(config());
    client.connect(Connection::Opened).unwrap();
    client
}

fn message(id: Option<u32>) -> ReceiveRes {
    ReceiveRes { method: None, params: None, session: None, id, error: None, result: None }
}

fn params(random: Option<&str>, realm: Option<&str>) -> ReceiveParams {
    ReceiveParams {
        random: random.map(|s| s.to_string()),
        realm: realm.map(|s| s.to_string()),
        keep_alive_interval: None,
    }
}

fn body(bytes: &[u8]) -> serde_json::Value {
    serde_json::from_slice(&bytes[32..]).unwrap()
}

#[test]
fn new_client_is_not_connected() {
    let mut client = DahuaVTOClient::new(config());
    assert!(!client.is_connected());
    assert_eq!(client.config().host, "192.168.13.1");
    assert_eq!(client.config().port, 80);
    assert!(matches!(
        client.send(&Json::object(), true),
        Err(ClientError::ConnectionFailed)
    ));
    assert!(client.start_heartbeat(60).is_none());
}

#[test]
fn connecting_asks_for_a_challenge() {
    let mut client = DahuaVTOClient::new(config());
    let hello = client.connect(Connection::Opened).unwrap();
    assert!(client.is_connected());
    assert_eq!(
        hello.to_text(),
        "{\"method\":\"global.login\",\"params\":{\"clientType\":\"\",\"ipAddr\":\"(null)\",\"loginType\":\"Direct\"}}"
    );
}

#[test]
fn failed_connections_are_told_apart() {
    let mut client = DahuaVTOClient::new(config());
    assert!(matches!(client.connect(Connection::Refused), Err(ClientError::ConnectionFailed)));
    assert!(matches!(client.connect(Connection::TimedOut), Err(ClientError::Timeout)));
    assert!(!client.is_connected());
}

#[test]
fn challenge_is_answered() {
    let mut client = connected();
    let answer = client
        .login(Some(77), Some(Ok(params(Some("1234567890"), Some("Login to 4K00000")))))
        .unwrap();
    assert_eq!(
        answer.to_text(),
        "{\"method\":\"global.login\",\"params\":{\"clientType\":\"\",\"ipAddr\":\"(null)\",\"loginType\":\"Direct\",\"password\":\"94E3B9AD5CBAECCADD77FCDF2ED6AE79\",\"userName\":\"admin\"},\"session\":77}"
    );
    let request = client.send(&answer, true).unwrap();
    assert_eq!(&request.bytes[8..12], &[77, 0, 0, 0]);
}

#[test]
fn challenge_without_its_parts_is_refused() {
    let mut client = connected();
    assert!(matches!(client.login(Some(1), None), Err(ClientError::ProtocolError)));
    assert!(matches!(
        client.login(Some(2), Some(Err(()))),
        Err(ClientError::SerializationError)
    ));
    let request = client.send(&Json::object(), false).unwrap();
    assert!(body(&request.bytes).get("session").is_none());
    assert!(matches!(
        client.login(Some(3), Some(Ok(params(None, Some("r"))))),
        Err(ClientError::ProtocolError)
    ));
    let request = client.send(&Json::object(), false).unwrap();
    assert_eq!(body(&request.bytes)["session"], 3);
    assert!(matches!(
        client.login(None, Some(Ok(params(Some("r"), None)))),
        Err(ClientError::ProtocolError)
    ));
}

#[test]
fn request_carries_number_and_session() {
    let mut client = connected();
    client.login(Some(0x01020304), Some(Ok(params(Some("a"), Some("b"))))).unwrap();
    let request = client.send(&Json::object().with("method", Json::text("x")), true).unwrap();
    assert_eq!(request.id, 1);
    assert!(request.waits);
    let text = b"{\"id\":1,\"method\":\"x\",\"session\":16909060}";
    assert_eq!(&request.bytes[32..], &text[..]);
    assert_eq!(&request.bytes[..8], &[0x20, 0, 0, 0, b'D', b'H', b'I', b'P']);
    assert_eq!(&request.bytes[8..16], &[4, 3, 2, 1, 1, 0, 0, 0]);
    assert_eq!(request.bytes[16] as usize, text.len());
    assert_eq!(request.bytes[24] as usize, text.len());
    assert_eq!(client.send(&Json::object(), false).unwrap().id, 2);
}

#[test]
fn request_is_read_back_as_one_packet() {
    let mut client = connected();
    let request = client.send(&Json::object().with("method", Json::text("x")), true).unwrap();
    let packet = DahuaVTOClient::process_data(&request.bytes).unwrap().unwrap();
    assert_eq!(packet.body, b"{\"id\":1,\"method\":\"x\"}");
    assert_eq!(packet.tail, request.bytes.len());
}

#[test]
fn answers_go_to_their_requests() {
    let mut client = connected();
    let request = client.send(&Json::object(), true).unwrap();
    assert!(matches!(
        client.receive(&message(Some(request.id))),
        Ok(Route::Deliver { id: 1, must: false })
    ));
    assert!(matches!(client.receive(&message(Some(9))), Ok(Route::Nobody)));
    assert!(matches!(client.receive(&message(None)), Ok(Route::Nobody)));
    let answer = client.settle(request.id, Reply::Received(message(Some(1)))).unwrap();
    assert_eq!(answer.id, Some(1));
    assert!(matches!(client.receive(&message(Some(1))), Ok(Route::Nobody)));
}

#[test]
fn missing_answers_are_told_apart() {
    let mut client = connected();
    let first = client.send(&Json::object(), true).unwrap();
    match client.settle(first.id, Reply::Closed) {
        Err(ClientError::IoError(reason)) => {
            assert_eq!(reason, "Response channel closed unexpectedly")
        }
        other => panic!("{:?}", other),
    }
    let second = client.send(&Json::object(), true).unwrap();
    assert!(matches!(client.settle(second.id, Reply::TimedOut), Err(ClientError::Timeout)));
}

#[test]
fn errors_go_to_the_last_request() {
    let mut client = connected();
    let mut refused = message(Some(1));
    refused.error = Some(vec![("code".to_string(), Payload::Int(268632079))]);
    assert!(matches!(client.receive(&refused), Err(ClientError::ProtocolError)));
    client.send(&Json::object(), true).unwrap();
    client.send(&Json::object(), true).unwrap();
    assert!(matches!(client.receive(&refused), Ok(Route::Deliver { id: 2, must: true })));
    refused.error = Some(vec![("code".to_string(), Payload::Text("x".to_string()))]);
    assert!(matches!(client.receive(&refused), Err(ClientError::LoginFailed)));
    refused.error = Some(vec![]);
    assert!(matches!(client.receive(&refused), Err(ClientError::LoginFailed)));
}

#[test]
fn undelivered_error_is_an_error() {
    assert!(matches!(DahuaVTOClient::delivered(true, false), Err(ClientError::ProtocolError)));
    assert!(DahuaVTOClient::delivered(true, true).is_ok());
    assert!(DahuaVTOClient::delivered(false, false).is_ok());
}

#[test]
fn packet_is_taken_out_before_its_message_is_handed_over() {
    let mut client = connected();
    let request = client.send(&Json::object(), true).unwrap();
    let mut chunk = request.bytes.clone();
    chunk.push(1);
    let packet = DahuaVTOClient::process_data(&chunk).unwrap().unwrap();
    assert!(matches!(
        client.take_packet(&mut chunk, &packet, Err(())),
        Err(ClientError::SerializationError)
    ));
    assert_eq!(chunk.len(), request.bytes.len() + 1);
    let (taken, route) = client.take_packet(&mut chunk, &packet, Ok(message(Some(1)))).unwrap();
    assert_eq!(taken.id, Some(1));
    assert!(matches!(route, Route::Deliver { id: 1, must: false }));
    assert_eq!(chunk, vec![1]);
}

#[test]
fn foreign_data_is_a_protocol_error() {
    assert!(matches!(
        DahuaVTOClient::process_data(&vec![0; 40]),
        Err(ClientError::ProtocolError)
    ));
    assert!(DahuaVTOClient::process_data(&vec![0; 31]).unwrap().is_none());
}

#[test]
fn end_of_the_stream_disconnects() {
    let mut client = connected();
    client.send(&Json::object(), true).unwrap();
    let mut chunk = vec![1, 2];
    assert!(client.handle_connection(&mut chunk, Received::Data(vec![3])));
    assert_eq!(chunk, vec![1, 2, 3]);
    assert!(client.handle_connection(&mut chunk, Received::Failed));
    assert!(client.is_connected());
    assert!(!client.handle_connection(&mut chunk, Received::Closed));
    assert!(!client.is_connected());
    assert!(matches!(client.receive(&message(Some(1))), Ok(Route::Nobody)));
}

#[test]
fn closed_client_can_connect_again() {
    let mut client = connected();
    client.send(&Json::object(), true).unwrap();
    client.close();
    assert!(!client.is_connected());
    assert!(matches!(client.receive(&message(Some(1))), Ok(Route::Nobody)));
    client.connect(Connection::Opened).unwrap();
    assert_eq!(client.send(&Json::object(), true).unwrap().id, 2);
}

#[test]
fn sign_of_life_names_session_and_interval() {
    let mut client = connected();
    client.login(Some(5), Some(Ok(params(Some("a"), Some("b"))))).unwrap();
    assert_eq!(
        client.start_heartbeat(90).unwrap().to_text(),
        "{\"method\":\"global.keepAlive\",\"params\":{\"action\":true,\"timeout\":90},\"session\":5}"
    );
    client.heartbeat_answered(true);
    assert!(client.is_connected());
    client.heartbeat_answered(false);
    assert!(!client.is_connected());
    assert!(client.start_heartbeat(90).is_none());
}

#[test]
fn signs_of_life_come_once_a_minute_at_least() {
    let mut given = params(None, None);
    assert_eq!(DahuaVTOClient::keep_alive_interval(None), 60);
    assert_eq!(DahuaVTOClient::keep_alive_interval(Some(params(None, None))), 60);
    given.keep_alive_interval = Some(90);
    assert_eq!(DahuaVTOClient::keep_alive_interval(Some(given)), 90);
    assert_eq!(DahuaVTOClient::heartbeat_period(90), 60);
    assert_eq!(DahuaVTOClient::heartbeat_period(60), 60);
    assert_eq!(DahuaVTOClient::heartbeat_period(20), 20);
}

#[test]
fn errors_have_their_texts() {
    let texts: Vec<String> = vec![
        ClientError::ConnectionFailed,
        ClientError::ProtocolError,
        ClientError::LoginFailed,
        ClientError::Timeout,
        ClientError::SerializationError,
        ClientError::IoError("x".to_string()),
    ]
    .iter()
    .map(|e| e.message())
    .collect();
    assert_eq!(texts, vec!["连接失败", "协议错误", "登录失败", "超时", "序列化错误", "IO错误: x"]);
}

#[test]
fn unconnected_client_sends_nothing() {
    let mut client = connected();
    assert!(!client.handle_connection(&mut Vec::new(), Received::Closed));
    client.close();
    client.connect(Connection::Refused).unwrap_err();
    assert!(matches!(client.send_recv(9, &Json::object(), true), Err(ClientError::ConnectionFailed)));
}

#[test]
fn config_is_copied_whole() {
    let copy = config().clone();
    assert_eq!(copy.username, "admin");
    assert_eq!(copy.password, "admin123");
    assert_eq!(copy.user_id, "");
    assert_eq!((copy.host.as_str(), copy.port), ("192.168.13.1", 80));
    assert_eq!(copy.connect_timeout, Duration::from_secs(5));
}
