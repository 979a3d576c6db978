//! What brokers are told and what their messages lead to, stated topic by topic.

use crate::bafa_cloud;
use crate::bafa_cloud::{ApiRequest, ApiRequestView, Setup, SetupView, TopicData};
use crate::config::{ConfigView, DeviceView};
use crate::http_server::OpenDoorView;
use crate::json;
use crate::json::JsonView;
use crate::mqtt;
use crate::mqtt::{
    Action, ActionView, Announcement, AnnouncementView, Broker, BrokerView, Event, EventView,
    Quality,
};
use crate::text;
use crate::text_laws;
use vstd::prelude::*;

verus! {

/// A broker's address is parted at its first colon. What follows is the port, where it is a
/// number, and 1883 where it is none or there is no colon; a host without a colon is taken whole.
pub proof fn address_is_parted_at_the_first_colon(host: Seq<char>, port: Seq<char>)
    requires
        !host.contains(':'),
    ensures
        mqtt::address_of(host + ":"@ + port) == (
            host,
            match text::number(port) {
                Some(n) => n,
                None => 1883u16,
            },
        ),
        mqtt::address_of(host) == (host, 1883u16),
{
    reveal_strlit(":");
    text_laws::parts_make_up_the_text(host, port, ':');
    assert(host + ":"@ + port =~= host + seq![':'] + port);
}

/// The broker of Home Assistant is the configured one, with the configured name and password, and
/// there is none exactly where none is set; that of the cloud is always the same, and needs a key.
pub proof fn brokers_are_the_configured_ones(cfg: ConfigView)
    ensures
        mqtt::broker_of(cfg) is None <==> cfg.mqtt_host == Seq::<char>::empty(),
        cfg.mqtt_host != Seq::<char>::empty() ==> mqtt::broker_of(cfg) == Some(
            BrokerView {
                host: mqtt::address_of(cfg.mqtt_host).0,
                port: mqtt::address_of(cfg.mqtt_host).1,
                user: cfg.mqtt_user,
                password: cfg.mqtt_pass,
                keep_alive_secs: 60,
                capacity: 100,
            },
        ),
        bafa_cloud::broker_of(cfg) is None <==> cfg.bafa_key == Seq::<char>::empty(),
        cfg.bafa_key != Seq::<char>::empty() ==> bafa_cloud::broker_of(cfg) == Some(
            BrokerView {
                host: "bemfa.com"@,
                port: 9501,
                user: "def"@,
                password: "def"@,
                keep_alive_secs: 60,
                capacity: 10,
            },
        ),
{
    if cfg.mqtt_host.len() == 0 {
        assert(cfg.mqtt_host =~= Seq::<char>::empty());
    }
    if cfg.bafa_key.len() == 0 {
        assert(cfg.bafa_key =~= Seq::<char>::empty());
    }
}

/// Each topic holds the whole name of its device.
pub proof fn topics_name_their_devices(id: Seq<char>)
    ensures
        mqtt::open_topic(id) == "dahuavto/open_door_"@ + id + "/set"@,
        mqtt::button_topic(id) == "homeassistant/button/open_door_"@ + id + "/config"@,
        bafa_cloud::button_topic(id) == "mjbt"@ + id + "006"@,
{
}

/// The descriptions of the sensor and of a button hold their members: the sensor names the topic
/// of its state and the two states, and a button its name and the topic that opens its door.
pub proof fn descriptions_hold_their_members(device: DeviceView)
    ensures
        mqtt::system() == JsonView::Object(
            map![
                "name"@ => JsonView::Text("大华门禁系统"@),
                "identifiers"@ => JsonView::Array(seq![JsonView::Text("rust_door_system"@)]),
                "manufacturer"@ => JsonView::Text("Rust Dahuavto HomeAssistant"@),
                "model"@ => JsonView::Text("v1.0"@),
            ],
        ),
        mqtt::sensor() == JsonView::Object(
            map![
                "name"@ => JsonView::Text("门禁呼叫"@),
                "unique_id"@ => JsonView::Text("rust_dahuavto_sensor"@),
                "device_class"@ => JsonView::Text("occupancy"@),
                "state_topic"@ => JsonView::Text("dahuavto/state"@),
                "payload_on"@ => JsonView::Text("ON"@),
                "payload_off"@ => JsonView::Text("OFF"@),
                "device"@ => mqtt::system(),
            ],
        ),
        mqtt::button(device) == JsonView::Object(
            map![
                "name"@ => JsonView::Text(device.btn_name),
                "unique_id"@ => JsonView::Text("dahuavto/open_door_"@ + device.id + "/set"@),
                "command_topic"@ => JsonView::Text("dahuavto/open_door_"@ + device.id + "/set"@),
                "payload_press"@ => JsonView::Text("OPEN"@),
                "device"@ => mqtt::system(),
            ],
        ),
{
}

/// The sensor is described and set to its first state, and then each device, in order, has its
/// button described and the topic of the button subscribed to.
pub proof fn sensor_and_buttons_are_announced(devices: Seq<DeviceView>, device: DeviceView)
    ensures
        mqtt::sensor_announced() == seq![
            AnnouncementView::Publish {
                topic: "homeassistant/binary_sensor/doorbell/config"@,
                quality: Quality::AtLeastOnce,
                payload: json::json_string(mqtt::sensor()),
                must: true,
            },
            AnnouncementView::Publish {
                topic: "dahuavto/state"@,
                quality: Quality::AtMostOnce,
                payload: "OFF"@,
                must: false,
            },
        ],
        mqtt::buttons_announced(Seq::<DeviceView>::empty()) == Seq::<AnnouncementView>::empty(),
        mqtt::buttons_announced(devices.push(device)) == mqtt::buttons_announced(devices) + seq![
            AnnouncementView::Publish {
                topic: "homeassistant/button/open_door_"@ + device.id + "/config"@,
                quality: Quality::AtLeastOnce,
                payload: json::json_string(mqtt::button(device)),
                must: true,
            },
            AnnouncementView::Subscribe {
                topic: "dahuavto/open_door_"@ + device.id + "/set"@,
                quality: Quality::AtLeastOnce,
            },
        ],
{
    assert(devices.push(device).drop_last() =~= devices);
}

/// Every message to a button's topic is a press, whatever it holds, and leads to the door; a
/// message to any other topic leads to nothing.
pub proof fn every_press_leads_to_a_door(
    topics: Map<Seq<char>, usize>,
    topic: Seq<char>,
    payload: Seq<u8>,
)
    ensures
        topics.contains_key(topic) ==> mqtt::reaction(
            topics,
            EventView::Message { topic, payload },
        ) == seq![ActionView::OpenCallDoor { topic, own: topics[topic] }],
        !topics.contains_key(topic) ==> mqtt::reaction(
            topics,
            EventView::Message { topic, payload },
        ) == Seq::<ActionView>::empty(),
        topics.contains_key(topic) && payload == seq![111u8, 110u8] ==> bafa_cloud::reaction(
            topics,
            EventView::Message { topic, payload },
        ) == seq![ActionView::OpenCallDoor { topic, own: topics[topic] }],
        !topics.contains_key(topic) || payload != seq![111u8, 110u8] ==> bafa_cloud::reaction(
            topics,
            EventView::Message { topic, payload },
        ) == Seq::<ActionView>::empty(),
{
}

/// What follows the attempt at the caller's door, a call, and a broken connection: the same for
/// all topics and all devices.
pub proof fn other_events_lead_to_the_same(
    topics: Map<Seq<char>, usize>,
    topic: Seq<char>,
    own: usize,
)
    ensures
        mqtt::reaction(topics, EventView::CallDoor { topic, own, opened: true }) == seq![
            ActionView::Publish { topic: "dahuavto/state"@, text: "OFF"@ },
        ],
        mqtt::reaction(topics, EventView::CallDoor { topic, own, opened: false }) == seq![
            ActionView::OpenDoor(
                OpenDoorView { client: own, short_number: Seq::<char>::empty() },
            ),
        ],
        mqtt::reaction(topics, EventView::Call) == seq![
            ActionView::Publish { topic: "dahuavto/state"@, text: "ON"@ },
            ActionView::PublishLater { secs: 20, topic: "dahuavto/state"@, text: "OFF"@ },
        ],
        mqtt::reaction(topics, EventView::Broken) == seq![ActionView::Reconnect { secs: 10 }],
        mqtt::reaction(topics, EventView::Other) == Seq::<ActionView>::empty(),
        bafa_cloud::reaction(topics, EventView::CallDoor { topic, own, opened: true }) == seq![
            ActionView::Publish { topic, text: "off"@ },
            ActionView::Publish { topic: "callnotify1006"@, text: "off"@ },
        ],
        bafa_cloud::reaction(topics, EventView::CallDoor { topic, own, opened: false }) == seq![
            ActionView::OpenDoor(
                OpenDoorView { client: own, short_number: Seq::<char>::empty() },
            ),
            ActionView::Publish { topic, text: "off"@ },
        ],
        bafa_cloud::reaction(topics, EventView::Call) == seq![
            ActionView::Publish { topic: "callnotify1006"@, text: "on"@ },
            ActionView::PublishLater { secs: 1, topic: "callnotify1006"@, text: "off"@ },
        ],
        bafa_cloud::reaction(topics, EventView::Broken) == seq![ActionView::Reconnect { secs: 0 }],
        bafa_cloud::reaction(topics, EventView::Other) == Seq::<ActionView>::empty(),
{
}

/// Each device that has a client is reached by its own topic, and every topic that leads anywhere
/// leads to the client of such a device; at the cloud a device also needs a name for its button.
pub proof fn topics_lead_to_their_devices(
    devices: Seq<DeviceView>,
    device: DeviceView,
    clients: Map<Seq<char>, usize>,
)
    ensures
        mqtt::topic_clients(Seq::<DeviceView>::empty(), clients) == Map::<
            Seq<char>,
            usize,
        >::empty(),
        mqtt::topic_clients(devices.push(device), clients) == if clients.contains_key(device.id) {
            mqtt::topic_clients(devices, clients).insert(
                "dahuavto/open_door_"@ + device.id + "/set"@,
                clients[device.id],
            )
        } else {
            mqtt::topic_clients(devices, clients)
        },
        bafa_cloud::topic_clients(Seq::<DeviceView>::empty(), clients) == Map::<
            Seq<char>,
            usize,
        >::empty(),
        bafa_cloud::topic_clients(devices.push(device), clients) == if clients.contains_key(
            device.id,
        ) && device.btn_name != Seq::<char>::empty() {
            bafa_cloud::topic_clients(devices, clients).insert(
                "mjbt"@ + device.id + "006"@,
                clients[device.id],
            )
        } else {
            bafa_cloud::topic_clients(devices, clients)
        },
{
    assert(devices.push(device).drop_last() =~= devices);
    if device.btn_name.len() == 0 {
        assert(device.btn_name =~= Seq::<char>::empty());
    }
}

/// The requests to the cloud name the key, the topic and its kind, and nothing else.
pub proof fn requests_hold_their_members(
    api_key: Seq<char>,
    name: Seq<char>,
    topic: Seq<char>,
    device_type: i32,
)
    ensures
        bafa_cloud::creation(api_key, name, topic) == (ApiRequestView {
            url: "https://pro.bemfa.com"@ + "/v1/createTopic"@,
            body: JsonView::Object(
                map![
                    "name"@ => JsonView::Text(name),
                    "uid"@ => JsonView::Text(api_key),
                    "topic"@ => JsonView::Text(topic),
                    "type"@ => JsonView::Int(1),
                ],
            ),
        }),
        bafa_cloud::deletion(api_key, topic, device_type) == (ApiRequestView {
            url: "https://pro.bemfa.com"@ + "/v1/deleteTopic"@,
            body: JsonView::Object(
                map![
                    "uid"@ => JsonView::Text(api_key),
                    "topic"@ => JsonView::Text(topic),
                    "type"@ => JsonView::Int(device_type as int),
                ],
            ),
        }),
        bafa_cloud::list_url(api_key) == "https://apis.bemfa.com/vb/api/v2/allTopic?openID="@
            + api_key + "&type=1"@,
{
}

/// Every topic that is offline is deleted, by its own name and kind and in order, and no other.
pub proof fn offline_topics_are_deleted(
    api_key: Seq<char>,
    topics: Seq<TopicData>,
    topic: TopicData,
)
    ensures
        bafa_cloud::deletions(api_key, Seq::<TopicData>::empty()) == Seq::<
            ApiRequestView,
        >::empty(),
        bafa_cloud::deletions(api_key, topics.push(topic)) == if topic.online {
            bafa_cloud::deletions(api_key, topics)
        } else {
            bafa_cloud::deletions(api_key, topics).push(
                bafa_cloud::deletion(api_key, topic.topic@, topic.type_),
            )
        },
{
    assert(topics.push(topic).drop_last() =~= topics);
}

/// The button of each device with a name for it is created under that name and subscribed to, in
/// order; then the topic for calls is subscribed to.
pub proof fn named_buttons_are_taken_up(
    api_key: Seq<char>,
    devices: Seq<DeviceView>,
    device: DeviceView,
)
    ensures
        bafa_cloud::buttons_setup(api_key, Seq::<DeviceView>::empty()) == Seq::<
            SetupView,
        >::empty(),
        bafa_cloud::buttons_setup(api_key, devices.push(device)) == if device.btn_name == Seq::<
            char,
        >::empty() {
            bafa_cloud::buttons_setup(api_key, devices)
        } else {
            bafa_cloud::buttons_setup(api_key, devices) + seq![
                SetupView::Request(
                    bafa_cloud::creation(
                        api_key,
                        device.btn_name,
                        "mjbt"@ + device.id + "006"@,
                    ),
                ),
                SetupView::Subscribe {
                    topic: "mjbt"@ + device.id + "006"@,
                    quality: Quality::AtLeastOnce,
                },
            ]
        },
        bafa_cloud::call_setup() == (SetupView::Subscribe {
            topic: "callnotify1006"@,
            quality: Quality::AtLeastOnce,
        }),
{
    assert(devices.push(device).drop_last() =~= devices);
    if device.btn_name.len() == 0 {
        assert(device.btn_name =~= Seq::<char>::empty());
        assert(bafa_cloud::buttons_setup(api_key, devices) + Seq::<SetupView>::empty()
            =~= bafa_cloud::buttons_setup(api_key, devices));
    }
}

/// What is announced must succeed exactly where it says so.
pub proof fn announcements_are_what_they_show(steps: Seq<Announcement>, i: int)
    requires
        0 <= i < steps.len(),
    ensures
        mqtt::announcement_views(steps).len() == steps.len(),
        mqtt::announcement_views(steps)[i] == match steps[i] {
            Announcement::Publish { topic, quality, payload, must } => AnnouncementView::Publish {
                topic: topic@,
                quality,
                payload: payload@,
                must,
            },
            Announcement::Subscribe { topic, quality } => AnnouncementView::Subscribe {
                topic: topic@,
                quality,
            },
        },
        mqtt::vital(mqtt::announcement_views(steps)).len() == steps.len(),
        mqtt::vital(mqtt::announcement_views(steps))[i] == match steps[i] {
            Announcement::Publish { must, .. } => must,
            Announcement::Subscribe { .. } => false,
        },
{
}

/// Events, actions and brokers are what their views say.
pub proof fn actions_are_what_they_show(
    event: Event,
    actions: Seq<Action>,
    broker: Broker,
    i: int,
)
    ensures
        event@ == match event {
            Event::Message { topic, payload } => EventView::Message {
                topic: topic@,
                payload: payload@,
            },
            Event::CallDoor { topic, own, opened } => EventView::CallDoor {
                topic: topic@,
                own,
                opened,
            },
            Event::Call => EventView::Call,
            Event::Broken => EventView::Broken,
            Event::Other => EventView::Other,
        },
        mqtt::action_views(actions).len() == actions.len(),
        0 <= i < actions.len() ==> mqtt::action_views(actions)[i] == match actions[i] {
            Action::OpenCallDoor { topic, own } => ActionView::OpenCallDoor { topic: topic@, own },
            Action::OpenDoor(door) => ActionView::OpenDoor(
                OpenDoorView { client: door.client, short_number: door.short_number@ },
            ),
            Action::Publish { topic, text } => ActionView::Publish { topic: topic@, text: text@ },
            Action::PublishLater { secs, topic, text } => ActionView::PublishLater {
                secs,
                topic: topic@,
                text: text@,
            },
            Action::Reconnect { secs } => ActionView::Reconnect { secs },
        },
        broker@ == (BrokerView {
            host: broker.host@,
            port: broker.port,
            user: broker.user@,
            password: broker.password@,
            keep_alive_secs: broker.keep_alive_secs,
            capacity: broker.capacity,
        }),
{
}

/// Requests and steps at the cloud are what their views say.
pub proof fn requests_are_what_they_show(requests: Seq<ApiRequest>, steps: Seq<Setup>, i: int)
    ensures
        bafa_cloud::request_views(requests).len() == requests.len(),
        0 <= i < requests.len() ==> bafa_cloud::request_views(requests)[i] == (ApiRequestView {
            url: requests[i].url@,
            body: requests[i].body.view(),
        }),
        bafa_cloud::setup_views(steps).len() == steps.len(),
        0 <= i < steps.len() ==> bafa_cloud::setup_views(steps)[i] == match steps[i] {
            Setup::Request(request) => SetupView::Request(
                ApiRequestView { url: request.url@, body: request.body.view() },
            ),
            Setup::Subscribe { topic, quality } => SetupView::Subscribe { topic: topic@, quality },
        },
{
}

/// The cloud is asked for its topics again after half a minute.
pub proof fn cloud_is_asked_again()
    ensures
        bafa_cloud::RETRY_SECS == 30,
{
}

/// A request to the cloud was good exactly where its code is 0, and else the reason is told whole.
pub proof fn only_zero_is_good(code: i32, message: Seq<char>)
    ensures
        bafa_cloud::api_failure(code, message) is None <==> code == 0,
        code != 0 ==> bafa_cloud::api_failure(code, message) == Some("API error: "@ + message),
{
}

} // verus!
