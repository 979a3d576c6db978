//! Home Assistant over MQTT: what is announced, and what messages and calls lead to.

use crate::config;
use crate::config::{AppConfig, ConfigView, DeviceConfig, DeviceView};
use crate::course;
use crate::course::Course;
use crate::http_server;
use crate::http_server::{OpenDoor, OpenDoorView, ServerState};
use crate::json;
use crate::json::{Json, JsonView};
use crate::table::Table;
use crate::text;
use vstd::prelude::*;
use vstd::string::StringExecFns;

verus! {

/// The topic that says whether someone calls.
pub const DEF_BAFA_CALL_NOTIFY: &'static str = "dahuavto/state";

/// The port of a broker where none is given.
pub const DEFAULT_PORT: u16 = 1883;

pub const KEEP_ALIVE_SECS: u64 = 60;

/// How many requests to a broker can stand in line.
pub const REQUEST_CAPACITY: usize = 100;

/// Seconds after which a call is over.
pub const CALL_SECS: u64 = 20;

/// Seconds until a broker is tried again.
pub const RECONNECT_SECS: u64 = 10;

/// How a broker is reached. Its client starts each session anew.
#[derive(Debug)]
pub struct Broker {
    pub host: String,
    pub port: u16,
    pub user: String,
    pub password: String,
    pub keep_alive_secs: u64,
    pub capacity: usize,
}

#[verifier::ext_equal]
pub struct BrokerView {
    pub host: Seq<char>,
    pub port: u16,
    pub user: Seq<char>,
    pub password: Seq<char>,
    pub keep_alive_secs: u64,
    pub capacity: usize,
}

impl View for Broker {
    type V = BrokerView;

    open spec fn view(&self) -> BrokerView {
        BrokerView {
            host: self.host@,
            port: self.port,
            user: self.user@,
            password: self.password@,
            keep_alive_secs: self.keep_alive_secs,
            capacity: self.capacity,
        }
    }
}

/// The host and the port that a setting names. A port that is no number is the default one.
pub open spec fn address_of(setting: Seq<char>) -> (Seq<char>, u16) {
    match text::split_at_first(setting, ':') {
        Some((host, port)) => (
            host,
            match text::number(port) {
                Some(n) => n,
                None => DEFAULT_PORT,
            },
        ),
        None => (setting, DEFAULT_PORT),
    }
}

/// The broker that is to be connected to, where one is set.
pub open spec fn broker_of(cfg: ConfigView) -> Option<BrokerView> {
    if cfg.mqtt_host.len() == 0 {
        None
    } else {
        Some(
            BrokerView {
                host: address_of(cfg.mqtt_host).0,
                port: address_of(cfg.mqtt_host).1,
                user: cfg.mqtt_user,
                password: cfg.mqtt_pass,
                keep_alive_secs: KEEP_ALIVE_SECS,
                capacity: REQUEST_CAPACITY,
            },
        )
    }
}

/// The broker that is to be connected to, where one is set.
pub fn init_start_mqtt(cfg: &AppConfig) -> (r: Option<Broker>)
    ensures
        match r {
            Some(broker) => broker_of(cfg@) == Some(broker@),
            None => broker_of(cfg@) is None,
        },
{
    if cfg.mqtt_host.as_str().is_empty() {
        return None;
    }
    let setting = text::char_vec(cfg.mqtt_host.as_str());
    let (host, port) = match text::split_once(setting.as_slice(), ':') {
        Some((host, port)) => (
            text::string_of(host),
            match text::parse_number(port) {
                Some(n) => n,
                None => DEFAULT_PORT,
            },
        ),
        None => (cfg.mqtt_host.clone(), DEFAULT_PORT),
    };
    Some(
        Broker {
            host,
            port,
            user: cfg.mqtt_user.clone(),
            password: cfg.mqtt_pass.clone(),
            keep_alive_secs: KEEP_ALIVE_SECS,
            capacity: REQUEST_CAPACITY,
        },
    )
}

/// How often a message is delivered.
#[derive(Debug, PartialEq, Eq, Structural, Clone, Copy)]
pub enum Quality {
    AtMostOnce,
    AtLeastOnce,
}

/// A step of announcing the devices to a broker.
#[derive(Debug)]
pub enum Announcement {
    /// Publish a message that the broker does not keep. Where it must succeed and fails, the rest
    /// is left undone.
    Publish { topic: String, quality: Quality, payload: String, must: bool },
    Subscribe { topic: String, quality: Quality },
}

pub enum AnnouncementView {
    Publish { topic: Seq<char>, quality: Quality, payload: Seq<char>, must: bool },
    Subscribe { topic: Seq<char>, quality: Quality },
}

impl View for Announcement {
    type V = AnnouncementView;

    open spec fn view(&self) -> AnnouncementView {
        match *self {
            Announcement::Publish { topic, quality, payload, must } => AnnouncementView::Publish {
                topic: topic@,
                quality,
                payload: payload@,
                must,
            },
            Announcement::Subscribe { topic, quality } => AnnouncementView::Subscribe {
                topic: topic@,
                quality,
            },
        }
    }
}

pub open spec fn announcement_views(steps: Seq<Announcement>) -> Seq<AnnouncementView> {
    Seq::new(steps.len(), |i: int| steps[i]@)
}

/// The topic of the button that opens a device's door.
pub open spec fn open_topic(id: Seq<char>) -> Seq<char> {
    "dahuavto/open_door_"@ + id + "/set"@
}

/// The topic of the description of a device's button.
pub open spec fn button_topic(id: Seq<char>) -> Seq<char> {
    "homeassistant/button/open_door_"@ + id + "/config"@
}

/// What all entities belong to.
pub open spec fn system() -> JsonView {
    JsonView::Object(
        map![
            "name"@ => JsonView::Text("大华门禁系统"@),
            "identifiers"@ => JsonView::Array(seq![JsonView::Text("rust_door_system"@)]),
            "manufacturer"@ => JsonView::Text("Rust Dahuavto HomeAssistant"@),
            "model"@ => JsonView::Text("v1.0"@),
        ],
    )
}

/// The description of the sensor for calls.
pub open spec fn sensor() -> JsonView {
    JsonView::Object(
        map![
            "name"@ => JsonView::Text("门禁呼叫"@),
            "unique_id"@ => JsonView::Text("rust_dahuavto_sensor"@),
            "device_class"@ => JsonView::Text("occupancy"@),
            "state_topic"@ => JsonView::Text(DEF_BAFA_CALL_NOTIFY@),
            "payload_on"@ => JsonView::Text("ON"@),
            "payload_off"@ => JsonView::Text("OFF"@),
            "device"@ => system(),
        ],
    )
}

/// The description of a device's button.
pub open spec fn button(device: DeviceView) -> JsonView {
    JsonView::Object(
        map![
            "name"@ => JsonView::Text(device.btn_name),
            "unique_id"@ => JsonView::Text(open_topic(device.id)),
            "command_topic"@ => JsonView::Text(open_topic(device.id)),
            "payload_press"@ => JsonView::Text("OPEN"@),
            "device"@ => system(),
        ],
    )
}

/// What is announced of the sensor for calls.
pub open spec fn sensor_announced() -> Seq<AnnouncementView> {
    seq![
        AnnouncementView::Publish {
            topic: "homeassistant/binary_sensor/doorbell/config"@,
            quality: Quality::AtLeastOnce,
            payload: json::json_string(sensor()),
            must: true,
        },
        AnnouncementView::Publish {
            topic: DEF_BAFA_CALL_NOTIFY@,
            quality: Quality::AtMostOnce,
            payload: "OFF"@,
            must: false,
        },
    ]
}

/// What is announced of a device: its button.
pub open spec fn button_announced(device: DeviceView) -> Seq<AnnouncementView> {
    seq![
        AnnouncementView::Publish {
            topic: button_topic(device.id),
            quality: Quality::AtLeastOnce,
            payload: json::json_string(button(device)),
            must: true,
        },
        AnnouncementView::Subscribe {
            topic: open_topic(device.id),
            quality: Quality::AtLeastOnce,
        },
    ]
}

/// What is announced of the devices, in order.
pub open spec fn buttons_announced(devices: Seq<DeviceView>) -> Seq<AnnouncementView>
    decreases devices.len(),
{
    if devices.len() == 0 {
        Seq::empty()
    } else {
        buttons_announced(devices.drop_last()) + button_announced(devices.last())
    }
}

fn open_topic_of(id: &str) -> (r: String)
    ensures
        r@ == open_topic(id@),
{
    let mut r = "dahuavto/open_door_".to_owned();
    r.append(id);
    r.append("/set");
    r
}

proof fn lemma_one_item(items: Seq<Json>, a: JsonView)
    requires
        items.len() == 1,
        items[0].view() == a,
    ensures
        Json::items_view(items) == seq![a],
{
    assert(items.drop_last() =~= Seq::<Json>::empty());
    assert(Json::items_view(items.drop_last()) =~= Seq::<JsonView>::empty());
    assert(Json::items_view(items) =~= seq![a]);
}

fn system_json() -> (r: Json)
    ensures
        r.view() == system(),
{
    let mut identifiers: Vec<Json> = Vec::new();
    identifiers.push(Json::text("rust_door_system"));
    proof {
        lemma_one_item(identifiers@, JsonView::Text("rust_door_system"@));
    }
    let r = Json::object().with("name", Json::text("大华门禁系统")).with(
        "identifiers",
        Json::Array(identifiers),
    ).with("manufacturer", Json::text("Rust Dahuavto HomeAssistant")).with(
        "model",
        Json::text("v1.0"),
    );
    assert(r.view()->Object_0 =~= system()->Object_0);
    r
}

fn sensor_json() -> (r: Json)
    ensures
        r.view() == sensor(),
{
    let r = Json::object().with("name", Json::text("门禁呼叫")).with(
        "unique_id",
        Json::text("rust_dahuavto_sensor"),
    ).with("device_class", Json::text("occupancy")).with(
        "state_topic",
        Json::text(DEF_BAFA_CALL_NOTIFY),
    ).with("payload_on", Json::text("ON")).with("payload_off", Json::text("OFF")).with(
        "device",
        system_json(),
    );
    assert(r.view()->Object_0 =~= sensor()->Object_0);
    r
}

fn button_json(device: &DeviceConfig) -> (r: Json)
    ensures
        r.view() == button(device@),
{
    let topic = open_topic_of(device.id.as_str());
    let r = Json::object().with("name", Json::text(device.btn_name.as_str())).with(
        "unique_id",
        Json::text(topic.as_str()),
    ).with("command_topic", Json::text(topic.as_str())).with(
        "payload_press",
        Json::text("OPEN"),
    ).with("device", system_json());
    assert(r.view()->Object_0 =~= button(device@)->Object_0);
    r
}

/// What announces the sensor for calls and the buttons of the devices.
pub fn configure_ha_discovery(vtos: &Vec<DeviceConfig>) -> (r: Vec<Announcement>)
    ensures
        announcement_views(r@) == sensor_announced() + buttons_announced(
            config::device_views(vtos@),
        ),
{
    let ghost devices = config::device_views(vtos@);
    let mut steps: Vec<Announcement> = Vec::new();
    steps.push(
        Announcement::Publish {
            topic: "homeassistant/binary_sensor/doorbell/config".to_owned(),
            quality: Quality::AtLeastOnce,
            payload: sensor_json().to_text(),
            must: true,
        },
    );
    steps.push(
        Announcement::Publish {
            topic: DEF_BAFA_CALL_NOTIFY.to_owned(),
            quality: Quality::AtMostOnce,
            payload: "OFF".to_owned(),
            must: false,
        },
    );
    assert(announcement_views(steps@) =~= sensor_announced() + buttons_announced(devices.take(0)));
    let mut i: usize = 0;
    while i < vtos.len()
        invariant
            i <= vtos.len(),
            devices == config::device_views(vtos@),
            announcement_views(steps@) == sensor_announced() + buttons_announced(
                devices.take(i as int),
            ),
        decreases vtos.len() - i,
    {
        let ghost before = announcement_views(steps@);
        let ghost taken = devices.take(i + 1);
        assert(taken.drop_last() =~= devices.take(i as int));
        assert(taken.last() == vtos@[i as int]@);
        let vto = &vtos[i];
        let topic = open_topic_of(vto.id.as_str());
        let mut config_topic = "homeassistant/button/open_door_".to_owned();
        config_topic.append(vto.id.as_str());
        config_topic.append("/config");
        steps.push(
            Announcement::Publish {
                topic: config_topic,
                quality: Quality::AtLeastOnce,
                payload: button_json(vto).to_text(),
                must: true,
            },
        );
        steps.push(Announcement::Subscribe { topic, quality: Quality::AtLeastOnce });
        assert(announcement_views(steps@) =~= before + button_announced(taken.last()));
        assert(before + button_announced(taken.last()) =~= sensor_announced() + (buttons_announced(
            devices.take(i as int),
        ) + button_announced(taken.last())));
        i += 1;
    }
    assert(devices.take(i as int) =~= devices);
    steps
}

/// Whether a step of announcing must succeed for the next one to be taken.
pub open spec fn is_vital(step: AnnouncementView) -> bool {
    step matches AnnouncementView::Publish { must, .. } && must
}

/// Which steps of announcing must succeed.
pub open spec fn vital(steps: Seq<AnnouncementView>) -> Seq<bool> {
    Seq::new(steps.len(), |i: int| is_vital(steps[i]))
}

/// Whether the announcing goes on behind a step, by whether that step was done.
pub fn goes_on(step: &Announcement, done: bool) -> (r: bool)
    ensures
        r == (done || !is_vital(step@)),
{
    match step {
        Announcement::Publish { must, .. } => done || !*must,
        Announcement::Subscribe { .. } => true,
    }
}

/// Where the announcing stands once the step at a place was taken: the failure of a publication
/// that must succeed is the result, and nothing follows it; other failures change nothing.
pub fn announced<E>(steps: &Vec<Announcement>, at: usize, outcome: Result<(), E>) -> (r: Course<E>)
    requires
        at < steps.len(),
    ensures
        r == course::after(vital(announcement_views(steps@)), at as int, outcome),
{
    let must = !goes_on(&steps[at], false);
    course::proceed(steps.len(), at, must, outcome)
}

/// The clients by the topics of their devices' buttons: those of the devices that have a client.
pub open spec fn topic_clients(
    devices: Seq<DeviceView>,
    clients: Map<Seq<char>, usize>,
) -> Map<Seq<char>, usize>
    decreases devices.len(),
{
    if devices.len() == 0 {
        Map::empty()
    } else {
        let front = topic_clients(devices.drop_last(), clients);
        let device = devices.last();
        if clients.contains_key(device.id) {
            front.insert(open_topic(device.id), clients[device.id])
        } else {
            front
        }
    }
}

/// The clients by the topics of their devices' buttons.
pub fn open_topics(vtos: &Vec<DeviceConfig>, state: &ServerState) -> (r: Table<usize>)
    requires
        state.wf(),
    ensures
        r.wf(),
        r@ == topic_clients(config::device_views(vtos@), state@.vto_clients),
{
    let ghost devices = config::device_views(vtos@);
    let mut topics: Table<usize> = Table::new();
    let mut i: usize = 0;
    while i < vtos.len()
        invariant
            i <= vtos.len(),
            state.wf(),
            devices == config::device_views(vtos@),
            topics.wf(),
            topics@ == topic_clients(devices.take(i as int), state@.vto_clients),
        decreases vtos.len() - i,
    {
        proof {
            let taken = devices.take(i + 1);
            assert(taken.drop_last() =~= devices.take(i as int));
            assert(taken.last() == vtos@[i as int]@);
        }
        let vto = &vtos[i];
        if let Some(client) = state.client_of(vto.id.as_str()) {
            topics.insert(open_topic_of(vto.id.as_str()), client);
        }
        i += 1;
    }
    assert(devices.take(i as int) =~= devices);
    topics
}

/// What happened at a broker.
#[derive(Debug)]
pub enum Event {
    /// A message was published.
    Message { topic: String, payload: Vec<u8> },
    /// It was tried to open the door that a caller stands at, on account of a message to a topic
    /// of a device.
    CallDoor { topic: String, own: usize, opened: bool },
    /// A device calls.
    Call,
    /// The connection is broken.
    Broken,
    /// Anything else.
    Other,
}

/// What is to be done.
#[derive(Debug)]
pub enum Action {
    /// Try to open the door that a caller stands at, and report on it.
    OpenCallDoor { topic: String, own: usize },
    OpenDoor(OpenDoor),
    /// Publish a message, delivered at most once, that the broker does not keep.
    Publish { topic: String, text: String },
    /// Publish such a message after so many seconds.
    PublishLater { secs: u64, topic: String, text: String },
    /// Connect anew after so many seconds.
    Reconnect { secs: u64 },
}

pub enum EventView {
    Message { topic: Seq<char>, payload: Seq<u8> },
    CallDoor { topic: Seq<char>, own: usize, opened: bool },
    Call,
    Broken,
    Other,
}

pub enum ActionView {
    OpenCallDoor { topic: Seq<char>, own: usize },
    OpenDoor(OpenDoorView),
    Publish { topic: Seq<char>, text: Seq<char> },
    PublishLater { secs: u64, topic: Seq<char>, text: Seq<char> },
    Reconnect { secs: u64 },
}

impl View for Event {
    type V = EventView;

    open spec fn view(&self) -> EventView {
        match *self {
            Event::Message { topic, payload } => EventView::Message {
                topic: topic@,
                payload: payload@,
            },
            Event::CallDoor { topic, own, opened } => EventView::CallDoor {
                topic: topic@,
                own,
                opened,
            },
            Event::Call => EventView::Call,
            Event::Broken => EventView::Broken,
            Event::Other => EventView::Other,
        }
    }
}

impl View for Action {
    type V = ActionView;

    open spec fn view(&self) -> ActionView {
        match *self {
            Action::OpenCallDoor { topic, own } => ActionView::OpenCallDoor { topic: topic@, own },
            Action::OpenDoor(door) => ActionView::OpenDoor(door@),
            Action::Publish { topic, text } => ActionView::Publish { topic: topic@, text: text@ },
            Action::PublishLater { secs, topic, text } => ActionView::PublishLater {
                secs,
                topic: topic@,
                text: text@,
            },
            Action::Reconnect { secs } => ActionView::Reconnect { secs },
        }
    }
}

pub open spec fn action_views(actions: Seq<Action>) -> Seq<ActionView> {
    Seq::new(actions.len(), |i: int| actions[i]@)
}

/// The door of a device, opened as nobody in particular.
pub open spec fn own_door(own: usize) -> ActionView {
    ActionView::OpenDoor(OpenDoorView { client: own, short_number: Seq::empty() })
}

/// What an event leads to. A press of a button opens the door that a caller stands at, and where
/// there is none the door of the button's device.
pub open spec fn reaction(topics: Map<Seq<char>, usize>, event: EventView) -> Seq<ActionView> {
    match event {
        EventView::Message { topic, payload } => if topics.contains_key(topic) {
            seq![ActionView::OpenCallDoor { topic, own: topics[topic] }]
        } else {
            Seq::empty()
        },
        EventView::CallDoor { topic, own, opened } => if opened {
            seq![ActionView::Publish { topic: DEF_BAFA_CALL_NOTIFY@, text: "OFF"@ }]
        } else {
            seq![own_door(own)]
        },
        EventView::Call => seq![
            ActionView::Publish { topic: DEF_BAFA_CALL_NOTIFY@, text: "ON"@ },
            ActionView::PublishLater {
                secs: CALL_SECS,
                topic: DEF_BAFA_CALL_NOTIFY@,
                text: "OFF"@,
            },
        ],
        EventView::Broken => seq![ActionView::Reconnect { secs: RECONNECT_SECS }],
        EventView::Other => Seq::empty(),
    }
}

/// What an event leads to.
pub fn react(topics: &Table<usize>, event: Event) -> (r: Vec<Action>)
    requires
        topics.wf(),
    ensures
        action_views(r@) == reaction(topics@, event@),
{
    let ghost happened = event@;
    let mut actions: Vec<Action> = Vec::new();
    match event {
        Event::Message { topic, payload: _ } => {
            if let Some(own) = topics.get(topic.as_str()) {
                actions.push(Action::OpenCallDoor { topic, own: *own });
            }
        },
        Event::CallDoor { topic: _, own, opened } => {
            if opened {
                actions.push(
                    Action::Publish {
                        topic: DEF_BAFA_CALL_NOTIFY.to_owned(),
                        text: "OFF".to_owned(),
                    },
                );
            } else {
                actions.push(Action::OpenDoor(http_server::own_door(own)));
            }
        },
        Event::Call => {
            actions.push(
                Action::Publish { topic: DEF_BAFA_CALL_NOTIFY.to_owned(), text: "ON".to_owned() },
            );
            actions.push(
                Action::PublishLater {
                    secs: CALL_SECS,
                    topic: DEF_BAFA_CALL_NOTIFY.to_owned(),
                    text: "OFF".to_owned(),
                },
            );
        },
        Event::Broken => {
            actions.push(Action::Reconnect { secs: RECONNECT_SECS });
        },
        Event::Other => {},
    }
    assert(action_views(actions@) =~= reaction(topics@, happened));
    actions
}

/// Different devices have buttons with different topics.
pub proof fn open_topics_differ(a: Seq<char>, b: Seq<char>)
    requires
        open_topic(a) == open_topic(b),
    ensures
        a == b,
{
    let n = "dahuavto/open_door_"@.len() as int;
    assert(open_topic(a).len() == n + a.len() + "/set"@.len());
    assert(open_topic(b).len() == n + b.len() + "/set"@.len());
    assert(a =~= open_topic(a).subrange(n, n + a.len()));
    assert(b =~= open_topic(b).subrange(n, n + b.len()));
}

proof fn lemma_topic_client(
    devices: Seq<DeviceView>,
    clients: Map<Seq<char>, usize>,
    topic: Seq<char>,
)
    requires
        topic_clients(devices, clients).contains_key(topic),
    ensures
        exists|i: int|
            0 <= i < devices.len() && clients.contains_key((#[trigger] devices[i]).id) && topic
                == open_topic(devices[i].id)
                && topic_clients(devices, clients)[topic] == clients[devices[i].id],
    decreases devices.len(),
{
    let device = devices.last();
    let front = devices.drop_last();
    if clients.contains_key(device.id) && topic == open_topic(device.id) {
        assert(devices[devices.len() - 1] == device);
    } else {
        lemma_topic_client(front, clients, topic);
        let i = choose|i: int|
            0 <= i < front.len() && clients.contains_key((#[trigger] front[i]).id) && topic
                == open_topic(front[i].id)
                && topic_clients(front, clients)[topic] == clients[front[i].id];
        assert(devices[i] == front[i]);
    }
}

proof fn lemma_topic_there(devices: Seq<DeviceView>, clients: Map<Seq<char>, usize>, i: int)
    requires
        0 <= i < devices.len(),
        clients.contains_key(devices[i].id),
    ensures
        topic_clients(devices, clients).contains_key(open_topic(devices[i].id)),
    decreases devices.len(),
{
    if i < devices.len() - 1 {
        lemma_topic_there(devices.drop_last(), clients, i);
    }
}

/// The button of every device is announced, and the topic that its description names is
/// subscribed to.
pub proof fn every_device_has_a_button(devices: Seq<DeviceView>, i: int)
    requires
        0 <= i < devices.len(),
    ensures
        buttons_announced(devices).len() == 2 * devices.len(),
        buttons_announced(devices).subrange(2 * i, 2 * i + 2) == button_announced(devices[i]),
    decreases devices.len(),
{
    let front = devices.drop_last();
    let all = buttons_announced(devices);
    if devices.len() == 1 {
        assert(front =~= Seq::empty());
        assert(all =~= button_announced(devices[0]));
    } else if i < front.len() {
        every_device_has_a_button(front, i);
        assert(all.subrange(2 * i, 2 * i + 2) =~= buttons_announced(front).subrange(
            2 * i,
            2 * i + 2,
        ));
    } else {
        every_device_has_a_button(front, 0);
    }
    assert(all.subrange(2 * i, 2 * i + 2) =~= button_announced(devices[i]));
}

/// Of what is announced, the descriptions of the sensor and of the buttons must be published;
/// neither the first state of the sensor nor the subscription to a button's topic must succeed.
pub proof fn descriptions_must_be_published(devices: Seq<DeviceView>, i: int)
    requires
        0 <= i < 2 + 2 * devices.len(),
    ensures
        (sensor_announced() + buttons_announced(devices)).len() == 2 + 2 * devices.len(),
        vital(sensor_announced() + buttons_announced(devices))[i] == (i % 2 == 0),
{
    let all = sensor_announced() + buttons_announced(devices);
    if devices.len() > 0 {
        every_device_has_a_button(devices, 0);
    }
    if i >= 2 {
        let k = (i - 2) / 2;
        every_device_has_a_button(devices, k);
        let pair = buttons_announced(devices).subrange(2 * k, 2 * k + 2);
        assert(all[i] == pair[(i - 2) % 2]);
    }
}

/// The announcing fails exactly where the description of the sensor or of a button cannot be
/// published. The first such failure is the result, and nothing is published or subscribed to
/// behind it; other failures change nothing.
pub proof fn first_unpublished_description_is_the_result<E>(
    devices: Seq<DeviceView>,
    outcomes: Seq<Result<(), E>>,
)
    requires
        outcomes.len() == 2 + 2 * devices.len(),
        outcomes.len() <= usize::MAX,
    ensures
        ({
            let must = vital(sensor_announced() + buttons_announced(devices));
            let (taken, end) = course::finish(
                must,
                outcomes,
                course::beginning(outcomes.len()),
                0,
            );
            match end {
                Course::Failed(e) => {
                    &&& 0 < taken <= outcomes.len()
                    &&& (taken - 1) % 2 == 0
                    &&& outcomes[taken - 1] == Err::<(), E>(e)
                    &&& forall|i: int|
                        0 <= i < taken - 1 && i % 2 == 0 ==> (#[trigger] outcomes[i]) is Ok
                },
                Course::Done => {
                    &&& taken == outcomes.len()
                    &&& forall|i: int|
                        0 <= i < outcomes.len() && i % 2 == 0 ==> (#[trigger] outcomes[i]) is Ok
                },
                Course::Next(_) => false,
            }
        }),
{
    let must = vital(sensor_announced() + buttons_announced(devices));
    descriptions_must_be_published(devices, 0);
    assert forall|i: int| 0 <= i < outcomes.len() implies #[trigger] must[i] == (i % 2 == 0) by {
        descriptions_must_be_published(devices, i);
    }
    course::first_failure_is_the_result(must, outcomes);
    assert forall|i: int|
        0 <= i < outcomes.len() && i % 2 == 0 && !course::ends_it(must, outcomes, i) implies (
    #[trigger] outcomes[i]) is Ok by {
        assert(must[i]);
    }
}

/// A press of a button that was announced reaches the client of its device.
pub proof fn button_reaches_its_device(
    devices: Seq<DeviceView>,
    clients: Map<Seq<char>, usize>,
    i: int,
    payload: Seq<u8>,
)
    requires
        0 <= i < devices.len(),
        clients.contains_key(devices[i].id),
    ensures
        reaction(
            topic_clients(devices, clients),
            EventView::Message { topic: open_topic(devices[i].id), payload },
        ) == seq![
            ActionView::OpenCallDoor {
                topic: open_topic(devices[i].id),
                own: clients[devices[i].id],
            },
        ],
{
    let topic = open_topic(devices[i].id);
    lemma_topic_there(devices, clients, i);
    lemma_topic_client(devices, clients, topic);
    let k = choose|k: int|
        0 <= k < devices.len() && clients.contains_key((#[trigger] devices[k]).id) && topic
            == open_topic(devices[k].id)
            && topic_clients(devices, clients)[topic] == clients[devices[k].id];
    open_topics_differ(devices[i].id, devices[k].id);
}

/// Where the door that a caller stands at was opened, a press of a button opens no other and ends
/// the call; else it opens the door of the button's device and nothing more.
pub proof fn pressed_button_opens_one_door(
    topics: Map<Seq<char>, usize>,
    topic: Seq<char>,
    own: usize,
)
    ensures
        reaction(topics, EventView::CallDoor { topic, own, opened: true }) == seq![
            ActionView::Publish { topic: DEF_BAFA_CALL_NOTIFY@, text: "OFF"@ },
        ],
        reaction(topics, EventView::CallDoor { topic, own, opened: false }) == seq![own_door(own)],
{
}

/// What is published of calls is no press of a button.
pub proof fn own_messages_lead_to_nothing(
    devices: Seq<DeviceView>,
    clients: Map<Seq<char>, usize>,
    payload: Seq<u8>,
)
    ensures
        reaction(
            topic_clients(devices, clients),
            EventView::Message { topic: DEF_BAFA_CALL_NOTIFY@, payload },
        ).len() == 0,
{
    let topic = DEF_BAFA_CALL_NOTIFY@;
    if topic_clients(devices, clients).contains_key(topic) {
        lemma_topic_client(devices, clients, topic);
        reveal_strlit("dahuavto/state");
        reveal_strlit("dahuavto/open_door_");
        assert(topic[9] == 's');
        assert("dahuavto/open_door_"@[9] == 'o');
    }
}

/// A call is shown, and taken back after a while.
pub proof fn call_is_shown_and_taken_back(topics: Map<Seq<char>, usize>)
    ensures
        reaction(topics, EventView::Call).len() == 2,
        reaction(topics, EventView::Call)[0] == (ActionView::Publish {
            topic: DEF_BAFA_CALL_NOTIFY@,
            text: "ON"@,
        }),
        reaction(topics, EventView::Call)[1] == (ActionView::PublishLater {
            secs: CALL_SECS,
            topic: DEF_BAFA_CALL_NOTIFY@,
            text: "OFF"@,
        }),
{
}

/// A host and a port that are set as one text are taken apart again.
pub proof fn address_is_taken_apart(host: Seq<char>, port: u16)
    requires
        !host.contains(':'),
    ensures
        address_of(host + ":"@ + text::decimal(port as nat)) == (host, port),
        address_of(host) == (host, DEFAULT_PORT),
{
    reveal_strlit(":");
    let s = host + ":"@ + text::decimal(port as nat);
    text::lemma_find_is(s, ':', host.len() as int);
    assert(s.take(host.len() as int) =~= host);
    assert(s.skip(host.len() as int + 1) =~= text::decimal(port as nat));
    text::number_of_decimal(port);
    text::lemma_find(host, ':');
}

} // verus!
