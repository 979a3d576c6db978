use dahuavto::dahuavto::{
    ClientConfig, ClientError, Connection, DahuaVTOClient, ReceiveRes, Route,
};
use dahuavto::events::{announcements, begin, Happening, Stage, Task};
use dahuavto::json::Payload;
use std::time::Duration;

fn text(s: &str) -> Payload {
    Payload::Text(s.to_string())
}

fn object(members: Vec<(&str, Payload)>) -> Payload {
    Payload::Object(members.into_iter().map(|(k, v)| (k.to_string(), v)).collect())
}

fn invite(user: &str) -> Payload {
    object(vec![("Code", text("Invite")), ("Data", object(vec![("UserID", text(user))]))])
}

fn notification(params: Option<Payload>) -> ReceiveRes {
    ReceiveRes {
        method: Some("client.notifyEventStream".to_string()),
        params,
        session: None,
        id: Some(2),
        error: None,
        result: None,
    }
}

fn events(list: Vec<Payload>) -> ReceiveRes {
    notification(Some(object(vec![("eventList", Payload::Array(list))])))
}

fn client() -> DahuaVTOClient {
    let mut client = DahuaVTOClient::new(ClientConfig {
        username: "admin".to_string(),
        password: "admin123".to_string(),
        host: "192.168.13.1".to_string(),
        user_id: "".to_string(),
        port: 80,
        connect_timeout: Duration::from_secs(5),
    });
    client.connect(Connection::Opened).unwrap();
    client
}

#[test]
fn calls_for_the_user_are_counted() {
    let list = events(vec![
        invite("201"),
        invite("202"),
        object(vec![("Code", text("Hangup")), ("Data", object(vec![("UserID", text("201"))]))]),
        object(vec![("Code", text("Invite"))]),
        object(vec![("Data", object(vec![("UserID", text("201"))]))]),
        Payload::Int(3),
        invite("201"),
    ]);
    assert_eq!(announcements(&list, "201", true), Some(2));
    assert_eq!(announcements(&list, "202", true), Some(1));
    assert_eq!(announcements(&list, "201", false), Some(0));
}

#[test]
fn caller_without_a_name_is_unknown() {
    let list = events(vec![
        object(vec![("Code", text("Invite")), ("Data", object(vec![]))]),
        object(vec![("Code", text("Invite")), ("Data", object(vec![("UserID", Payload::Int(1))]))]),
    ]);
    assert_eq!(announcements(&list, "Unknown", true), Some(2));
    assert_eq!(announcements(&list, "", true), Some(0));
}

#[test]
fn malformed_notification_ends_the_subscription() {
    assert_eq!(announcements(&notification(None), "201", true), None);
    assert_eq!(announcements(&notification(Some(object(vec![]))), "201", true), None);
    let no_list = notification(Some(object(vec![("eventList", Payload::Int(1))])));
    assert_eq!(announcements(&no_list, "201", true), None);
    let mut other = notification(None);
    other.method = Some("other".to_string());
    assert_eq!(announcements(&other, "201", true), Some(0));
    other.method = None;
    assert_eq!(announcements(&other, "201", true), Some(0));
}

#[test]
fn subscription_takes_its_course() {
    let mut client = client();
    let (stage, task) = begin();
    match task {
        Task::Send { message, waits } => {
            assert_eq!(
                message.to_text(),
                "{\"method\":\"eventManager.factory.instance\",\"params\":{}}"
            );
            assert!(!waits);
            client.send(&message, waits).unwrap();
        }
        other => panic!("{:?}", other),
    }
    let (stage, task) = client.sub_event(0, stage, Happening::Sent, "201", true);
    let id = match task {
        Task::Send { message, waits } => {
            assert_eq!(
                message.to_text(),
                "{\"method\":\"eventManager.attach\",\"params\":{\"codes\":[\"All\"]}}"
            );
            assert!(waits);
            client.send(&message, waits).unwrap().id
        }
        other => panic!("{:?}", other),
    };
    assert_eq!(id, 2);
    let (stage, task) = client.sub_event(id, stage, Happening::Sent, "201", true);
    assert!(matches!(task, Task::Listen));
    let message = events(vec![invite("201"), invite("201")]);
    assert!(matches!(client.receive(&message), Ok(Route::Deliver { id: 2, must: false })));
    let (stage, task) = client.sub_event(id, stage, Happening::Message(message), "201", true);
    assert!(matches!(task, Task::Announce));
    let (stage, task) = client.sub_event(id, stage, Happening::Announced, "201", true);
    assert!(matches!(task, Task::Announce));
    let (stage, task) = client.sub_event(id, stage, Happening::Announced, "201", true);
    assert!(matches!(task, Task::Listen));
    let (stage, task) = client.sub_event(id, stage, Happening::Silence, "201", true);
    match task {
        Task::Finish(Err(ClientError::IoError(reason))) => {
            assert_eq!(reason, "Pending response channel closed")
        }
        other => panic!("{:?}", other),
    }
    assert!(matches!(stage, Stage::Ended));
    assert!(matches!(client.receive(&notification(None)), Ok(Route::Nobody)));
}

#[test]
fn subscription_fails_with_its_requests() {
    let mut client = client();
    let failed = Happening::NotSent(ClientError::Timeout);
    let (_, task) = client.sub_event(0, Stage::Creating, failed, "201", true);
    assert!(matches!(task, Task::Finish(Err(ClientError::Timeout))));
    let failed = Happening::NotSent(ClientError::ConnectionFailed);
    let (_, task) = client.sub_event(0, Stage::Attaching, failed, "201", true);
    assert!(matches!(task, Task::Finish(Err(ClientError::ConnectionFailed))));
    let (_, task) = client.sub_event(0, Stage::Announcing(3), Happening::NotAnnounced, "201", true);
    match task {
        Task::Finish(Err(ClientError::IoError(reason))) => {
            assert_eq!(reason, "Failed to send client to tx")
        }
        other => panic!("{:?}", other),
    }
    let ended = Happening::Message(notification(None));
    let (_, task) = client.sub_event(0, Stage::Listening, ended, "201", true);
    assert!(matches!(task, Task::Finish(Ok(()))));
}
