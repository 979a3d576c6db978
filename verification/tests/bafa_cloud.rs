use dahuavto::bafa_cloud::{
    button_topics, init_start_bafa, passed_over, react, set_up, tidy_up, BafaApiResponse, BafaApiResponse2,
    BafaClient, ListTopicRow, Setup, TopicData,
};
use dahuavto::course::Course;
use dahuavto::config::{AppConfig, DeviceConfig};
use dahuavto::http_server::{new, ServerState};
use dahuavto::mqtt::{Action, Event, Quality};
use std::sync::Arc;

fn device(id: &str, btn_name: &str) -> DeviceConfig {
    DeviceConfig {
        id: id.to_string(),
        ip: "".to_string(),
        port: 0,
        userid: "".to_string(),
        name: "".to_string(),
        password: "".to_string(),
        gpio: 0,
        btn_name: btn_name.to_string(),
    }
}

fn state(vtos: &[DeviceConfig]) -> ServerState {
    let mut config = (*AppConfig::from_str("").unwrap()).clone();
    config.vtos = vtos.to_vec();
    new(Arc::new(config)).state
}

fn topic(name: &str, type_: i32, online: bool) -> TopicData {
    TopicData {
        topic: name.to_string(),
        type_,
        share: false,
        time: "".to_string(),
        unix: 0,
        online,
        name: "".to_string(),
        room: "".to_string(),
        msg: "".to_string(),
    }
}

fn list(code: i32, data: Option<ListTopicRow>) -> BafaApiResponse<ListTopicRow> {
    BafaApiResponse { code, msg: "bad key".to_string(), data }
}

#[test]
fn broker_needs_a_key() {
    let mut config = (*AppConfig::from_str("").unwrap()).clone();
    assert!(init_start_bafa(&config).is_none());
    config.bafa_key = "key".to_string();
    let broker = init_start_bafa(&config).unwrap();
    assert_eq!((broker.host.as_str(), broker.port), ("bemfa.com", 9501));
    assert_eq!((broker.user.as_str(), broker.password.as_str()), ("def", "def"));
    assert_eq!((broker.keep_alive_secs, broker.capacity), (60, 10));
}

#[test]
fn requests_have_their_form() {
    let request = BafaClient::create_topic("key", "门", "t");
    assert_eq!(request.url, "https://pro.bemfa.com/v1/createTopic");
    assert_eq!(
        request.body.to_text(),
        "{\"name\":\"门\",\"topic\":\"t\",\"type\":1,\"uid\":\"key\"}"
    );
    let request = BafaClient::delete_topic("key", "t", -2);
    assert_eq!(request.url, "https://pro.bemfa.com/v1/deleteTopic");
    assert_eq!(request.body.to_text(), "{\"topic\":\"t\",\"type\":-2,\"uid\":\"key\"}");
    assert_eq!(
        BafaClient::topic_list_url("key"),
        "https://apis.bemfa.com/vb/api/v2/allTopic?openID=key&type=1"
    );
}

#[test]
fn answers_are_read() {
    let answer = |code| BafaApiResponse2 { code, message: "no".to_string() };
    assert_eq!(BafaClient::topic_changed(&answer(0)), Ok(()));
    assert_eq!(BafaClient::topic_changed(&answer(1)), Err("API error: no".to_string()));
    let row = || ListTopicRow { data: vec![topic("t", 1, true)] };
    assert_eq!(BafaClient::get_topic_list(list(0, Some(row()))).unwrap().data[0].topic, "t");
    assert_eq!(
        BafaClient::get_topic_list(list(5, Some(row()))).unwrap_err(),
        "API error: bad key"
    );
    assert_eq!(
        BafaClient::get_topic_list(list(0, None)).unwrap_err(),
        "Missing topic list data"
    );
}

#[test]
fn topics_are_tidied_up() {
    let row = ListTopicRow { data: vec![topic("a", 1, false), topic("b", 2, true), topic("c", 3, false)] };
    let requests = tidy_up("key", Ok(row)).unwrap();
    let shown: Vec<(&str, String)> =
        requests.iter().map(|r| (r.url.as_str(), r.body.to_text())).collect();
    assert_eq!(
        shown,
        vec![
            (
                "https://pro.bemfa.com/v1/deleteTopic",
                "{\"topic\":\"a\",\"type\":1,\"uid\":\"key\"}".to_string()
            ),
            (
                "https://pro.bemfa.com/v1/deleteTopic",
                "{\"topic\":\"c\",\"type\":3,\"uid\":\"key\"}".to_string()
            ),
            (
                "https://pro.bemfa.com/v1/createTopic",
                "{\"name\":\"有人呼叫\",\"topic\":\"callnotify1006\",\"type\":1,\"uid\":\"key\"}"
                    .to_string()
            ),
        ]
    );
    assert_eq!(tidy_up("key", Err("x".to_string())).unwrap_err(), 30);
}

#[test]
fn topics_are_taken_up() {
    let steps = set_up("key", &vec![device("1", "一楼"), device("2", "")]);
    assert_eq!(steps.len(), 3);
    match &steps[0] {
        Setup::Request(request) => assert_eq!(
            request.body.to_text(),
            "{\"name\":\"一楼\",\"topic\":\"mjbt1006\",\"type\":1,\"uid\":\"key\"}"
        ),
        other => panic!("{:?}", other),
    }
    for (step, expected) in steps[1..].iter().zip(["mjbt1006", "callnotify1006"]) {
        match step {
            Setup::Subscribe { topic, quality } => {
                assert_eq!(topic, expected);
                assert_eq!(*quality, Quality::AtLeastOnce);
            }
            other => panic!("{:?}", other),
        }
    }
}

#[test]
fn switch_opens_a_door() {
    let vtos = vec![device("1", "a"), device("2", "")];
    let topics = button_topics(&vtos, &state(&vtos));
    assert_eq!(topics.len(), 1);
    let message = |topic: &str, payload: &[u8]| Event::Message {
        topic: topic.to_string(),
        payload: payload.to_vec(),
    };
    let actions = react(&topics, message("mjbt1006", b"on"));
    assert_eq!(actions.len(), 1);
    match &actions[0] {
        Action::OpenCallDoor { topic, own } => assert_eq!((topic.as_str(), *own), ("mjbt1006", 0)),
        other => panic!("{:?}", other),
    }
    assert!(react(&topics, message("mjbt1006", b"off")).is_empty());
    assert!(react(&topics, message("mjbt1006", b"ON")).is_empty());
    assert!(react(&topics, message("mjbt2006", b"on")).is_empty());
    assert!(react(&topics, message("callnotify1006", b"on")).is_empty());
    assert!(react(&topics, Event::Other).is_empty());
}

#[test]
fn switch_goes_off_again() {
    let topics = button_topics(&vec![], &state(&[]));
    let tried = |opened| Event::CallDoor { topic: "t".to_string(), own: 5, opened };
    let actions = react(&topics, tried(true));
    let shown: Vec<(&str, &str)> = actions
        .iter()
        .map(|a| match a {
            Action::Publish { topic, text } => (topic.as_str(), text.as_str()),
            other => panic!("{:?}", other),
        })
        .collect();
    assert_eq!(shown, vec![("t", "off"), ("callnotify1006", "off")]);
    let actions = react(&topics, tried(false));
    assert_eq!(actions.len(), 2);
    match (&actions[0], &actions[1]) {
        (Action::OpenDoor(door), Action::Publish { topic, text }) => {
            assert_eq!((door.client, door.short_number.as_str()), (5, ""));
            assert_eq!((topic.as_str(), text.as_str()), ("t", "off"));
        }
        other => panic!("{:?}", other),
    }
}

#[test]
fn call_is_shown_for_a_moment() {
    let topics = button_topics(&vec![], &state(&[]));
    let actions = react(&topics, Event::Call);
    match (&actions[0], &actions[1]) {
        (
            Action::Publish { topic: on_topic, text: on },
            Action::PublishLater { secs, topic: off_topic, text: off },
        ) => {
            assert_eq!((on_topic.as_str(), on.as_str()), ("callnotify1006", "on"));
            assert_eq!((off_topic.as_str(), off.as_str(), *secs), ("callnotify1006", "off", 1));
        }
        other => panic!("{:?}", other),
    }
    assert!(matches!(react(&topics, Event::Broken)[..], [Action::Reconnect { secs: 0 }]));
}

#[test]
fn failed_steps_are_passed_over() {
    assert!(matches!(passed_over(2, 0, Err("x")), Course::Next(1)));
    assert!(matches!(passed_over(2, 1, Err("x")), Course::Done));
    assert!(matches!(passed_over::<&str>(2, 0, Ok(())), Course::Next(1)));
}
