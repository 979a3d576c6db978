use dahuavto::config::{AppConfig, DeviceConfig};
use dahuavto::dahuavto::ClientError;
use dahuavto::gpio::Step;
use dahuavto::http_server::{
    authorized, call_door_opened, calls_go_on, check_access, credentials_in, credentials_match,
    init_vto_client, keep_connected, new, pressed, CallEvent, CallReceipt, CallTask, LinkAction, LinkEvent,
    ServerError, ServerState,
};
use std::sync::Arc;
use std::time::Duration;

const SECOND: i128 = 1_000_000_000;

fn device(id: &str, ip: &str, userid: &str, gpio: u16) -> DeviceConfig {
    DeviceConfig {
        id: id.to_string(),
        ip: ip.to_string(),
        port: 80,
        userid: userid.to_string(),
        name: "admin".to_string(),
        password: "admin123".to_string(),
        gpio,
        btn_name: "".to_string(),
    }
}

fn config() -> AppConfig {
    let text = "config dahuavto 'main'\noption username 'admin'\noption password 'real123'\noption userid '201'\noption gpio_out '17'";
    (*AppConfig::from_str(text).unwrap()).clone()
}

fn state_with(config: AppConfig) -> ServerState {
    new(Arc::new(config)).state
}

#[test]
fn nobody_has_called_yet() {
    let state = state_with(config());
    assert!(matches!(state.open_call_door(0), Err(ServerError::DoorOperationError())));
}

#[test]
fn call_can_be_answered_for_half_a_minute() {
    let mut state = state_with(config());
    let at = 1_700_000_000 * SECOND;
    state.call_received(4, at);
    for now in [at, at + 1, at + 30 * SECOND] {
        let door = state.open_call_door(now).unwrap();
        assert_eq!(door.client, 4);
        assert_eq!(door.short_number, "201");
    }
    assert!(state.open_call_door(at + 30 * SECOND + 1).is_err());
    assert!(state.open_call_door(at - 1).is_err());
    assert!(state.open_call_door(i128::MAX).is_err());
    state.call_received(5, i128::MIN);
    assert!(state.open_call_door(i128::MAX).is_err());
    assert_eq!(state.open_call_door(i128::MIN + 5).unwrap().client, 5);
}

#[test]
fn call_is_notified_of() {
    let mut state = state_with(config());
    let steps = state.call_received(0, 0);
    assert_eq!(steps.len(), 3);
    match &steps[0] {
        Step::Write { path, text } => {
            assert_eq!(path, "/sys/class/gpio/gpio17/value");
            assert_eq!(text, "1");
        }
        other => panic!("{:?}", other),
    }
    let mut quiet = config();
    quiet.gpio_out = "".to_string();
    let mut state = state_with(quiet);
    assert!(state.call_received(0, 0).is_empty());
    assert!(state.handle_test().is_empty());
}

#[test]
fn door_opens_by_itself_where_that_is_set() {
    assert!(state_with(config()).auto_open(3).is_none());
    let mut open = config();
    open.auto_open = true;
    let door = state_with(open).auto_open(3).unwrap();
    assert_eq!(door.client, 3);
    assert_eq!(door.short_number, "");
}

#[test]
fn press_opens_the_callers_door_or_its_own() {
    assert!(pressed(2, Ok(())).is_none());
    let door = pressed(2, Err(ServerError::DoorOperationError())).unwrap();
    assert_eq!(door.client, 2);
    assert_eq!(door.short_number, "");
    assert!(call_door_opened(Ok(())).is_ok());
    assert!(call_door_opened(Err(ClientError::Timeout)).is_err());
}

#[test]
fn request_for_a_door_is_answered() {
    let mut cfg = config();
    cfg.vtos.push(device("1", "a", "", 0));
    let state = state_with(cfg);
    let door = state.handle_open_door(Some("1")).unwrap();
    assert_eq!(door.client, 0);
    assert_eq!(door.short_number, "201");
    let answer = state.handle_open_door(Some("2")).unwrap_err();
    assert_eq!(answer.status, 404);
    assert_eq!(answer.body.to_text(), "{\"error\":\"VTO未找到\"}");
    let answer = state.handle_open_door(None).unwrap_err();
    assert_eq!(answer.status, 400);
    assert_eq!(answer.body.to_text(), "{\"error\":\"请求参数错误\"}");
    let answer = ServerState::open_door_answer(Some("Timeout"));
    assert_eq!(answer.status, 500);
    assert_eq!(answer.body.to_text(), "{\"error\":\"执行开门操作错误: Timeout\"}");
    let answer = ServerState::open_door_answer(None);
    assert_eq!(answer.status, 200);
    assert_eq!(answer.body.to_text(), "{\"result\":\"success\"}");
}

#[test]
fn test_is_answered() {
    let answer = ServerState::test_answer(None);
    assert_eq!((answer.status, answer.body.to_text().as_str()), (200, "{\"result\":\"success\"}"));
    let answer = ServerState::test_answer(Some("x"));
    assert_eq!(answer.status, 500);
    assert_eq!(answer.body.to_text(), "{\"error\":\"callNotify测试错误: x\"}");
}

#[test]
fn new_config_keeps_the_password() {
    let state = state_with(config());
    let mut given = state.get_config();
    assert_eq!(given.to_file(), config().to_file());
    given.password = "".to_string();
    given.userid = "202".to_string();
    let update = state.update_config(given);
    let stored = AppConfig::from_str(&update.contents).unwrap();
    assert_eq!(stored.password, "real123");
    assert_eq!(stored.userid, "202");
    assert_eq!(update.answer.status, 200);
    assert_eq!(
        update.answer.body.to_text(),
        "{\"message\":\"配置更新成功\",\"result\":\"success\"}"
    );
    let mut given = state.get_config();
    given.password = "other".to_string();
    let stored = AppConfig::from_str(&state.update_config(given).contents).unwrap();
    assert_eq!(stored.password, "other");
}

#[test]
fn request_with_the_password_is_let_in() {
    let cfg = config();
    assert!(authorized(&cfg, Some("Basic YWRtaW46cmVhbDEyMw==")));
    assert!(!authorized(&cfg, Some("Basic YWRtaW46cmVhbDox")));
    assert!(!authorized(&cfg, Some("Basic YWRtaW4=")));
    assert!(!authorized(&cfg, Some("Basic //46")));
    assert!(!authorized(&cfg, Some("Basic YWRtaW46cmVhbDEyMw")));
    assert!(!authorized(&cfg, Some("Basic admin:real123")));
    assert!(!authorized(&cfg, Some("basic YWRtaW46cmVhbDEyMw==")));
    assert!(!authorized(&cfg, Some("Bearer YWRtaW46cmVhbDEyMw==")));
    assert!(!authorized(&cfg, None));
}

#[test]
fn refused_request_is_asked_for_credentials() {
    let cfg = config();
    assert!(check_access(&cfg, Some("Basic YWRtaW46cmVhbDEyMw==")).is_ok());
    let refusal = check_access(&cfg, None).unwrap_err();
    assert_eq!(refusal.status, 401);
    assert_eq!(refusal.www_authenticate, "Basic realm=\"Access to API\"");
}

#[test]
fn password_may_hold_colons() {
    let mut cfg = config();
    cfg.password = "real:1".to_string();
    assert!(authorized(&cfg, Some("Basic YWRtaW46cmVhbDox")));
    cfg.username = "admin:real".to_string();
    cfg.password = "1".to_string();
    assert!(!authorized(&cfg, Some("Basic YWRtaW46cmVhbDox")));
}

#[test]
fn credentials_are_compared() {
    let cfg = config();
    assert!(credentials_match(&cfg, Some(b"admin:real123".to_vec())));
    assert!(!credentials_match(&cfg, Some(b"admin:real123 ".to_vec())));
    assert!(!credentials_match(&cfg, Some(b"\xff:".to_vec())));
    assert!(!credentials_match(&cfg, None));
    assert_eq!(credentials_in("Basic abc"), Some("abc".to_string()));
    assert_eq!(credentials_in("Basic "), Some("".to_string()));
    assert_eq!(credentials_in("Basic"), None);
}

#[test]
fn device_is_linked_to() {
    let mut cfg = config();
    cfg.sip_interface = "eth0".to_string();
    let link = init_vto_client(&device("1", "10.0.0.1", "", 516), &cfg);
    assert_eq!(link.client.config().host, "10.0.0.1");
    assert_eq!(link.client.config().port, 80);
    assert_eq!(link.client.config().username, "admin");
    assert_eq!(link.client.config().password, "admin123");
    assert_eq!(link.client.config().user_id, "");
    assert_eq!(link.client.config().connect_timeout, Duration::from_secs(5));
    assert!(!link.client.is_connected());
    assert_eq!(link.button, Some((516, "516".to_string())));
    assert_eq!(link.user_id, "201");
    assert!(!link.is_callback);
    let link = init_vto_client(&device("1", "a", "8001", 0), &config());
    assert_eq!(link.button, None);
    assert_eq!(link.user_id, "8001");
    assert!(link.is_callback);
}

#[test]
fn server_starts_with_its_devices() {
    let mut cfg = config();
    cfg.vtos.push(device("1", "10.0.0.1", "8001", 0));
    cfg.vtos.push(device("2", "10.0.0.2", "", 0));
    cfg.vtos.push(device("1", "10.0.0.3", "8003", 0));
    let server = new(Arc::new(cfg.clone()));
    assert_eq!(server.links.len(), 3);
    assert!(server.stations.is_none());
    assert_eq!(server.state.client_of("1"), Some(2));
    assert_eq!(server.state.client_of("2"), Some(1));
    assert_eq!(server.state.client_of("3"), None);
    cfg.sip_interface = "eth0".to_string();
    let stations = new(Arc::new(cfg)).stations.unwrap();
    let shown: Vec<(&str, &str, usize)> =
        stations.iter().map(|s| (s.host.as_str(), s.user_id.as_str(), s.client)).collect();
    assert_eq!(shown, vec![("10.0.0.3", "8003", 2), ("10.0.0.2", "", 1)]);
}

#[test]
fn connection_is_never_given_up() {
    let failed = || Err(ClientError::Timeout);
    assert!(matches!(keep_connected(&LinkEvent::Connected(Ok(()))), LinkAction::Subscribe));
    assert!(matches!(keep_connected(&LinkEvent::Connected(failed())), LinkAction::Wait(10)));
    assert!(matches!(keep_connected(&LinkEvent::Unsubscribed(Ok(()))), LinkAction::Connect));
    assert!(matches!(keep_connected(&LinkEvent::Unsubscribed(failed())), LinkAction::Wait(10)));
    assert!(matches!(keep_connected(&LinkEvent::Waited), LinkAction::Connect));
}

#[test]
fn lost_calls_end_nothing() {
    assert!(calls_go_on(&CallReceipt::Call(0)));
    assert!(calls_go_on(&CallReceipt::Lagged));
    assert!(!calls_go_on(&CallReceipt::Closed));
}

#[test]
fn call_takes_its_course() {
    let mut state = state_with(config());
    assert!(matches!(state.on_call(2, CallEvent::Received), CallTask::TellTime));
    match state.on_call(2, CallEvent::Moment(7)) {
        CallTask::Notify(steps) => assert_eq!(steps.len(), 3),
        other => panic!("{:?}", other),
    }
    assert_eq!(state.open_call_door(7).unwrap().client, 2);
    let mut open = config();
    open.auto_open = true;
    let mut state = state_with(open);
    match state.on_call(2, CallEvent::Received) {
        CallTask::Open(door) => assert_eq!((door.client, door.short_number.as_str()), (2, "")),
        other => panic!("{:?}", other),
    }
    assert!(state.open_call_door(7).is_err());
    let failed = CallEvent::Opened(Err(ClientError::Timeout));
    assert!(matches!(state.on_call(2, failed), CallTask::TellTime));
}
