use dahuavto::config::{AppConfig, DeviceConfig};
use dahuavto::http_server::{new, ServerState};
use dahuavto::course::{begin, Course};
use dahuavto::mqtt::{
    announced, configure_ha_discovery, goes_on, init_start_mqtt, open_topics, react, Action, Announcement, Event,
    Quality,
};
use std::sync::Arc;

fn device(id: &str, btn_name: &str) -> DeviceConfig {
    DeviceConfig {
        id: id.to_string(),
        ip: "".to_string(),
        port: 0,
        userid: "".to_string(),
        name: "".to_string(),
        password: "".to_string(),
        gpio: 0,
        btn_name: btn_name.to_string(),
    }
}

fn config(host: &str) -> AppConfig {
    let mut config = (*AppConfig::from_str("").unwrap()).clone();
    config.mqtt_host = host.to_string();
    config.mqtt_user = "u".to_string();
    config.mqtt_pass = "p".to_string();
    config
}

fn state(vtos: &[DeviceConfig]) -> ServerState {
    let mut cfg = config("");
    cfg.vtos = vtos.to_vec();
    new(Arc::new(cfg)).state
}

#[test]
fn broker_is_read_from_the_config() {
    assert!(init_start_mqtt(&config("")).is_none());
    for (setting, host, port) in [
        ("10.0.0.1", "10.0.0.1", 1883),
        ("10.0.0.1:1884", "10.0.0.1", 1884),
        ("host:x", "host", 1883),
        ("host:", "host", 1883),
        ("a:b:c", "a", 1883),
        ("host:65536", "host", 1883),
        ("host:+7", "host", 7),
    ] {
        let broker = init_start_mqtt(&config(setting)).unwrap();
        assert_eq!((broker.host.as_str(), broker.port), (host, port));
        assert_eq!((broker.user.as_str(), broker.password.as_str()), ("u", "p"));
        assert_eq!((broker.keep_alive_secs, broker.capacity), (60, 100));
    }
}

#[test]
fn sensor_and_buttons_are_announced() {
    let steps = configure_ha_discovery(&vec![device("1", "一楼"), device("2", ""), device("3", "x")]);
    assert_eq!(steps.len(), 8);
    match &steps[0] {
        Announcement::Publish { topic, quality, payload, must } => {
            assert_eq!(topic, "homeassistant/binary_sensor/doorbell/config");
            assert_eq!(*quality, Quality::AtLeastOnce);
            assert!(*must);
            assert_eq!(
                payload,
                "{\"device\":{\"identifiers\":[\"rust_door_system\"],\"manufacturer\":\"Rust Dahuavto HomeAssistant\",\"model\":\"v1.0\",\"name\":\"大华门禁系统\"},\"device_class\":\"occupancy\",\"name\":\"门禁呼叫\",\"payload_off\":\"OFF\",\"payload_on\":\"ON\",\"state_topic\":\"dahuavto/state\",\"unique_id\":\"rust_dahuavto_sensor\"}"
            );
        }
        other => panic!("{:?}", other),
    }
    match &steps[1] {
        Announcement::Publish { topic, quality, payload, must } => {
            assert_eq!((topic.as_str(), payload.as_str()), ("dahuavto/state", "OFF"));
            assert_eq!(*quality, Quality::AtMostOnce);
            assert!(!*must);
        }
        other => panic!("{:?}", other),
    }
    match &steps[2] {
        Announcement::Publish { topic, quality, payload, must } => {
            assert_eq!(topic, "homeassistant/button/open_door_1/config");
            assert_eq!(*quality, Quality::AtLeastOnce);
            assert!(*must);
            assert_eq!(
                payload,
                "{\"command_topic\":\"dahuavto/open_door_1/set\",\"device\":{\"identifiers\":[\"rust_door_system\"],\"manufacturer\":\"Rust Dahuavto HomeAssistant\",\"model\":\"v1.0\",\"name\":\"大华门禁系统\"},\"name\":\"一楼\",\"payload_press\":\"OPEN\",\"unique_id\":\"dahuavto/open_door_1/set\"}"
            );
        }
        other => panic!("{:?}", other),
    }
    match &steps[3] {
        Announcement::Subscribe { topic, quality } => {
            assert_eq!(topic, "dahuavto/open_door_1/set");
            assert_eq!(*quality, Quality::AtLeastOnce);
        }
        other => panic!("{:?}", other),
    }
    match (&steps[4], &steps[5]) {
        (
            Announcement::Publish { topic, payload, must, .. },
            Announcement::Subscribe { topic: subscribed, .. },
        ) => {
            assert_eq!(topic, "homeassistant/button/open_door_2/config");
            assert!(payload.contains("\"name\":\"\",\"payload_press\""));
            assert!(*must);
            assert_eq!(subscribed, "dahuavto/open_door_2/set");
        }
        other => panic!("{:?}", other),
    }
    match &steps[7] {
        Announcement::Subscribe { topic, .. } => assert_eq!(topic, "dahuavto/open_door_3/set"),
        other => panic!("{:?}", other),
    }
}

#[test]
fn button_opens_a_door() {
    let vtos = vec![device("1", "a"), device("2", ""), device("3", "c"), device("4", "d")];
    let mut known = state(&vtos[..2]);
    known.add_client("3".to_string(), 7);
    let topics = open_topics(&vtos, &known);
    assert_eq!(topics.len(), 3);
    let message = |topic: &str| Event::Message { topic: topic.to_string(), payload: vec![] };
    let actions = react(&topics, message("dahuavto/open_door_3/set"));
    assert_eq!(actions.len(), 1);
    match &actions[0] {
        Action::OpenCallDoor { topic, own } => {
            assert_eq!((topic.as_str(), *own), ("dahuavto/open_door_3/set", 7))
        }
        other => panic!("{:?}", other),
    }
    let actions = react(&topics, message("dahuavto/open_door_2/set"));
    assert!(matches!(actions[..], [Action::OpenCallDoor { own: 1, .. }]));
    assert!(react(&topics, message("dahuavto/open_door_4/set")).is_empty());
    assert!(react(&topics, message("dahuavto/state")).is_empty());
    assert!(react(&topics, Event::Other).is_empty());
}

#[test]
fn device_without_a_client_has_no_topic() {
    let vtos = vec![device("1", "a")];
    let topics = open_topics(&vtos, &state(&[]));
    assert_eq!(topics.len(), 0);
}

#[test]
fn opened_door_ends_the_call() {
    let topics = open_topics(&vec![], &state(&[]));
    let tried = |opened| Event::CallDoor { topic: "t".to_string(), own: 5, opened };
    let actions = react(&topics, tried(true));
    assert_eq!(actions.len(), 1);
    match &actions[0] {
        Action::Publish { topic, text } => {
            assert_eq!((topic.as_str(), text.as_str()), ("dahuavto/state", "OFF"))
        }
        other => panic!("{:?}", other),
    }
    let actions = react(&topics, tried(false));
    assert_eq!(actions.len(), 1);
    match &actions[0] {
        Action::OpenDoor(door) => {
            assert_eq!((door.client, door.short_number.as_str()), (5, ""))
        }
        other => panic!("{:?}", other),
    }
}

#[test]
fn call_is_shown_for_a_while() {
    let topics = open_topics(&vec![], &state(&[]));
    let actions = react(&topics, Event::Call);
    assert_eq!(actions.len(), 2);
    match (&actions[0], &actions[1]) {
        (
            Action::Publish { topic: on_topic, text: on },
            Action::PublishLater { secs, topic: off_topic, text: off },
        ) => {
            assert_eq!((on_topic.as_str(), on.as_str()), ("dahuavto/state", "ON"));
            assert_eq!((off_topic.as_str(), off.as_str(), *secs), ("dahuavto/state", "OFF", 20));
        }
        other => panic!("{:?}", other),
    }
}

#[test]
fn broken_connection_is_made_anew() {
    let topics = open_topics(&vec![], &state(&[]));
    let actions = react(&topics, Event::Broken);
    assert!(matches!(actions[..], [Action::Reconnect { secs: 10 }]));
}

#[test]
fn first_unpublished_description_ends_the_announcing() {
    let steps = configure_ha_discovery(&vec![device("1", "a"), device("2", "b")]);
    let run = |failing: &[usize]| {
        let mut taken = Vec::new();
        let mut course = begin(steps.len());
        loop {
            match course {
                Course::Next(at) => {
                    taken.push(at);
                    let outcome = if failing.contains(&at) { Err(at) } else { Ok(()) };
                    course = announced(&steps, at, outcome);
                }
                Course::Done => return (taken.len(), Ok(())),
                Course::Failed(e) => return (taken.len(), Err(e)),
            }
        }
    };
    assert_eq!(run(&[]), (6, Ok(())));
    assert_eq!(run(&[1, 3, 5]), (6, Ok(())));
    assert_eq!(run(&[0, 2]), (1, Err(0)));
    assert_eq!(run(&[1, 2, 4]), (3, Err(2)));
    assert_eq!(run(&[4]), (5, Err(4)));
    assert!(goes_on(&steps[0], true));
    assert!(!goes_on(&steps[0], false));
    assert!(goes_on(&steps[1], false));
    assert!(goes_on(&steps[3], false));
}
