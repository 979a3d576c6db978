use dahuavto::dahuavto::{
    ClientConfig, ClientError, Connection, DahuaVTOClient, ReceiveParams,
};
use dahuavto::session::{begin, Answer, Happening, Stage, Task};
use std::time::Duration;

fn client() -> DahuaVTOClient {
    DahuaVTOClient::new(ClientConfig {
        username: "admin".to_string(),
        password: "admin123".to_string(),
        host: "192.168.13.1".to_string(),
        user_id: "".to_string(),
        port: 80,
        connect_timeout: Duration::from_secs(5),
    })
}

fn params(random: Option<&str>, keep_alive_interval: Option<u32>) -> ReceiveParams {
    ReceiveParams {
        random: random.map(|s| s.to_string()),
        realm: Some("Login to 4K00000".to_string()),
        keep_alive_interval,
    }
}

fn answered(params: Option<Result<ReceiveParams, ()>>) -> Happening {
    Happening::Answered(Ok(Answer { session: Some(5), params }))
}

#[test]
fn session_is_come_to() {
    let mut client = client();
    let (stage, task) = begin();
    assert!(matches!(task, Task::Open));
    let (stage, task) = client.come_to_session(stage, Happening::Tried(Connection::Opened));
    match task {
        Task::Send(message) => assert!(message.to_text().contains("\"loginType\":\"Direct\"")),
        other => panic!("{:?}", other),
    }
    assert!(client.is_connected());
    let challenge = answered(Some(Ok(params(Some("1234567890"), None))));
    let (stage, task) = client.come_to_session(stage, challenge);
    match task {
        Task::Send(message) => {
            let text = message.to_text();
            assert!(text.contains("94E3B9AD5CBAECCADD77FCDF2ED6AE79"));
            assert!(text.contains("\"session\":5"));
        }
        other => panic!("{:?}", other),
    }
    let (stage, task) = client.come_to_session(stage, answered(Some(Ok(params(None, Some(20))))));
    assert!(matches!(task, Task::Beat(20)));
    assert!(matches!(stage, Stage::Ended));
}

#[test]
fn interval_has_a_default() {
    for given in [None, Some(Err(())), Some(Ok(params(None, None)))] {
        let (_, task) = client().come_to_session(Stage::Answering, answered(given));
        assert!(matches!(task, Task::Beat(60)));
    }
}

#[test]
fn failures_on_the_way_are_told_apart() {
    let tried = |c| client().come_to_session(Stage::Connecting, Happening::Tried(c)).1;
    assert!(matches!(tried(Connection::Refused), Task::Fail(ClientError::ConnectionFailed)));
    assert!(matches!(tried(Connection::TimedOut), Task::Fail(ClientError::Timeout)));
    let greeted = |h| client().come_to_session(Stage::Greeting, h).1;
    assert!(matches!(greeted(answered(None)), Task::Fail(ClientError::ProtocolError)));
    assert!(matches!(
        greeted(answered(Some(Err(())))),
        Task::Fail(ClientError::SerializationError)
    ));
    assert!(matches!(
        greeted(answered(Some(Ok(params(None, None))))),
        Task::Fail(ClientError::ProtocolError)
    ));
    let lost = || Happening::Answered(Err(ClientError::Timeout));
    assert!(matches!(greeted(lost()), Task::Fail(ClientError::Timeout)));
    let (_, task) = client().come_to_session(Stage::Answering, lost());
    assert!(matches!(task, Task::Fail(ClientError::Timeout)));
}
