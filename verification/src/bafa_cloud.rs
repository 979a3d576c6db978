//! The Bafa cloud: the topics that are kept there, and what messages and calls lead to.

use crate::config;
use crate::config::{AppConfig, ConfigView, DeviceConfig, DeviceView};
use crate::course;
use crate::course::Course;
use crate::http_server;
use crate::http_server::ServerState;
use crate::json::{Json, JsonView};
use crate::mqtt;
use crate::mqtt::{Action, ActionView, Broker, BrokerView, Event, EventView, Quality};
use crate::table::Table;
use vstd::prelude::*;
use vstd::string::StringExecFns;

verus! {

pub const BAFA_MQTT_BROKER: &'static str = "bemfa.com";

pub const BAFA_MQTT_PORT: u16 = 9501;

pub const BAFA_API_BASE: &'static str = "https://pro.bemfa.com";

/// The topic that says whether someone calls.
pub const DEF_BAFA_CALL_NOTIFY: &'static str = "callnotify1006";

/// How many requests to the broker can stand in line.
pub const REQUEST_CAPACITY: usize = 10;

/// Seconds after which a call is over.
pub const CALL_SECS: u64 = 1;

/// Seconds until the topics are asked for again.
pub const RETRY_SECS: u64 = 30;

/// What the cloud says of a request to change a topic.
#[derive(Debug)]
pub struct BafaApiResponse2 {
    pub code: i32,
    pub message: String,
}

/// What the cloud says of a request for data.
#[derive(Debug)]
pub struct BafaApiResponse<T> {
    pub code: i32,
    pub msg: String,
    pub data: Option<T>,
}

/// A topic at the cloud.
#[derive(Debug)]
pub struct TopicData {
    pub topic: String,
    pub type_: i32,
    pub share: bool,
    pub time: String,
    pub unix: i64,
    pub online: bool,
    pub name: String,
    pub room: String,
    pub msg: String,
}

#[derive(Debug)]
pub struct ListTopicRow {
    pub data: Vec<TopicData>,
}

/// A request that sends JSON to an address.
#[derive(Debug)]
pub struct ApiRequest {
    pub url: String,
    pub body: Json,
}

pub struct ApiRequestView {
    pub url: Seq<char>,
    pub body: JsonView,
}

impl View for ApiRequest {
    type V = ApiRequestView;

    open spec fn view(&self) -> ApiRequestView {
        ApiRequestView { url: self.url@, body: self.body.view() }
    }
}

pub open spec fn request_views(requests: Seq<ApiRequest>) -> Seq<ApiRequestView> {
    Seq::new(requests.len(), |i: int| requests[i]@)
}

/// The request that creates a topic.
pub open spec fn creation(
    api_key: Seq<char>,
    name: Seq<char>,
    topic: Seq<char>,
) -> ApiRequestView {
    ApiRequestView {
        url: BAFA_API_BASE@ + "/v1/createTopic"@,
        body: JsonView::Object(
            map![
                "name"@ => JsonView::Text(name),
                "uid"@ => JsonView::Text(api_key),
                "topic"@ => JsonView::Text(topic),
                "type"@ => JsonView::Int(1),
            ],
        ),
    }
}

/// The request that deletes a topic.
pub open spec fn deletion(
    api_key: Seq<char>,
    topic: Seq<char>,
    device_type: i32,
) -> ApiRequestView {
    ApiRequestView {
        url: BAFA_API_BASE@ + "/v1/deleteTopic"@,
        body: JsonView::Object(
            map![
                "uid"@ => JsonView::Text(api_key),
                "topic"@ => JsonView::Text(topic),
                "type"@ => JsonView::Int(device_type as int),
            ],
        ),
    }
}

/// The address that lists the topics.
pub open spec fn list_url(api_key: Seq<char>) -> Seq<char> {
    "https://apis.bemfa.com/vb/api/v2/allTopic?openID="@ + api_key + "&type=1"@
}

/// What keeps the cloud's word of a request from being good, by its code and its text.
pub open spec fn api_failure(code: i32, message: Seq<char>) -> Option<Seq<char>> {
    if code != 0 {
        Some("API error: "@ + message)
    } else {
        None
    }
}

/// The client of the cloud.
#[derive(Debug, Clone, Copy)]
pub struct BafaClient {}

fn api_error(message: &str) -> (r: String)
    ensures
        r@ == "API error: "@ + message@,
{
    let mut r = "API error: ".to_owned();
    r.append(message);
    r
}

impl BafaClient {
    /// The request that creates a topic.
    pub fn create_topic(api_key: &str, name: &str, topic: &str) -> (r: ApiRequest)
        ensures
            r@ == creation(api_key@, name@, topic@),
    {
        let mut url = BAFA_API_BASE.to_owned();
        url.append("/v1/createTopic");
        let body = Json::object().with("name", Json::text(name)).with(
            "uid",
            Json::text(api_key),
        ).with("topic", Json::text(topic)).with("type", Json::Int(1));
        assert(body.view()->Object_0 =~= creation(api_key@, name@, topic@).body->Object_0);
        ApiRequest { url, body }
    }

    /// The request that deletes a topic.
    pub fn delete_topic(api_key: &str, topic: &str, device_type: i32) -> (r: ApiRequest)
        ensures
            r@ == deletion(api_key@, topic@, device_type),
    {
        let mut url = BAFA_API_BASE.to_owned();
        url.append("/v1/deleteTopic");
        let body = Json::object().with("uid", Json::text(api_key)).with(
            "topic",
            Json::text(topic),
        ).with("type", Json::Int(device_type as i64));
        assert(body.view()->Object_0 =~= deletion(api_key@, topic@, device_type).body->Object_0);
        ApiRequest { url, body }
    }

    /// Whether a topic was changed, by what the cloud says.
    pub fn topic_changed(res: &BafaApiResponse2) -> (r: Result<(), String>)
        ensures
            match api_failure(res.code, res.message@) {
                Some(reason) => r is Err && r->Err_0@ == reason,
                None => r is Ok,
            },
            match r {
                Ok(_) => res.code == 0,
                Err(e) => res.code != 0 && e@ == "API error: "@ + res.message@,
            },
    {
        if res.code != 0 {
            return Err(api_error(res.message.as_str()));
        }
        Ok(())
    }

    /// The address that lists the topics.
    pub fn topic_list_url(api_key: &str) -> (r: String)
        ensures
            r@ == list_url(api_key@),
    {
        let mut url = "https://apis.bemfa.com/vb/api/v2/allTopic?openID=".to_owned();
        url.append(api_key);
        url.append("&type=1");
        url
    }

    /// The topics, by what the cloud says.
    pub fn get_topic_list(res: BafaApiResponse<ListTopicRow>) -> (r: Result<ListTopicRow, String>)
        ensures
            match api_failure(res.code, res.msg@) {
                Some(reason) => r is Err && r->Err_0@ == reason,
                None => r is Ok <==> res.data is Some,
            },
            match r {
                Ok(topics) => res.code == 0 && res.data == Some(topics),
                Err(e) => if res.code != 0 {
                    e@ == "API error: "@ + res.msg@
                } else {
                    res.data is None && e@ == "Missing topic list data"@
                },
            },
    {
        if res.code != 0 {
            return Err(api_error(res.msg.as_str()));
        }
        match res.data {
            Some(topics) => Ok(topics),
            None => Err("Missing topic list data".to_owned()),
        }
    }
}

/// The broker of the cloud, where a key is set. The key is also the name to connect under.
pub open spec fn broker_of(cfg: ConfigView) -> Option<BrokerView> {
    if cfg.bafa_key.len() == 0 {
        None
    } else {
        Some(
            BrokerView {
                host: BAFA_MQTT_BROKER@,
                port: BAFA_MQTT_PORT,
                user: "def"@,
                password: "def"@,
                keep_alive_secs: mqtt::KEEP_ALIVE_SECS,
                capacity: REQUEST_CAPACITY,
            },
        )
    }
}

/// The broker of the cloud, where a key is set.
pub fn init_start_bafa(cfg: &AppConfig) -> (r: Option<Broker>)
    ensures
        match r {
            Some(broker) => broker_of(cfg@) == Some(broker@),
            None => broker_of(cfg@) is None,
        },
{
    if cfg.bafa_key.as_str().is_empty() {
        return None;
    }
    Some(
        Broker {
            host: BAFA_MQTT_BROKER.to_owned(),
            port: BAFA_MQTT_PORT,
            user: "def".to_owned(),
            password: "def".to_owned(),
            keep_alive_secs: mqtt::KEEP_ALIVE_SECS,
            capacity: REQUEST_CAPACITY,
        },
    )
}

/// The requests that delete the topics that are offline, in order.
pub open spec fn deletions(api_key: Seq<char>, topics: Seq<TopicData>) -> Seq<ApiRequestView>
    decreases topics.len(),
{
    if topics.len() == 0 {
        Seq::empty()
    } else {
        let front = deletions(api_key, topics.drop_last());
        if topics.last().online {
            front
        } else {
            front.push(deletion(api_key, topics.last().topic@, topics.last().type_))
        }
    }
}

/// What tidies the topics up before a connection: those that are offline are deleted, and the
/// topic for calls is created. A request that fails is passed over. Where the topics could not be
/// had, so many seconds pass until they are asked for again.
pub fn tidy_up(api_key: &str, listed: Result<ListTopicRow, String>) -> (r: Result<
    Vec<ApiRequest>,
    u64,
>)
    ensures
        match listed {
            Ok(topics) => r is Ok && request_views(r->Ok_0@) == deletions(
                api_key@,
                topics.data@,
            ).push(creation(api_key@, "有人呼叫"@, DEF_BAFA_CALL_NOTIFY@)),
            Err(_) => r == Err::<Vec<ApiRequest>, u64>(RETRY_SECS),
        },
{
    let topics = match listed {
        Ok(topics) => topics,
        Err(_) => return Err(RETRY_SECS),
    };
    let mut requests: Vec<ApiRequest> = Vec::new();
    assert(request_views(requests@) =~= deletions(api_key@, topics.data@.take(0)));
    let mut i: usize = 0;
    while i < topics.data.len()
        invariant
            i <= topics.data.len(),
            request_views(requests@) == deletions(api_key@, topics.data@.take(i as int)),
        decreases topics.data.len() - i,
    {
        let ghost before = request_views(requests@);
        let ghost taken = topics.data@.take(i + 1);
        assert(taken.drop_last() =~= topics.data@.take(i as int));
        let topic = &topics.data[i];
        if !topic.online {
            requests.push(BafaClient::delete_topic(api_key, topic.topic.as_str(), topic.type_));
            assert(request_views(requests@) =~= before.push(
                deletion(api_key@, topic.topic@, topic.type_),
            ));
        }
        i += 1;
    }
    assert(topics.data@.take(i as int) =~= topics.data@);
    let ghost before = request_views(requests@);
    requests.push(BafaClient::create_topic(api_key, "有人呼叫", DEF_BAFA_CALL_NOTIFY));
    assert(request_views(requests@) =~= before.push(
        creation(api_key@, "有人呼叫"@, DEF_BAFA_CALL_NOTIFY@),
    ));
    Ok(requests)
}

/// The topic of the button that opens a device's door.
pub open spec fn button_topic(id: Seq<char>) -> Seq<char> {
    "mjbt"@ + id + "006"@
}

fn button_topic_of(id: &str) -> (r: String)
    ensures
        r@ == button_topic(id@),
{
    let mut r = "mjbt".to_owned();
    r.append(id);
    r.append("006");
    r
}

/// A step of taking up the topics. One that fails is passed over.
#[derive(Debug)]
pub enum Setup {
    Request(ApiRequest),
    Subscribe { topic: String, quality: Quality },
}

pub enum SetupView {
    Request(ApiRequestView),
    Subscribe { topic: Seq<char>, quality: Quality },
}

impl View for Setup {
    type V = SetupView;

    open spec fn view(&self) -> SetupView {
        match *self {
            Setup::Request(request) => SetupView::Request(request@),
            Setup::Subscribe { topic, quality } => SetupView::Subscribe { topic: topic@, quality },
        }
    }
}

pub open spec fn setup_views(steps: Seq<Setup>) -> Seq<SetupView> {
    Seq::new(steps.len(), |i: int| steps[i]@)
}

/// What takes up the button of a device, where the button has a name.
pub open spec fn button_setup(api_key: Seq<char>, device: DeviceView) -> Seq<SetupView> {
    if device.btn_name.len() == 0 {
        Seq::empty()
    } else {
        seq![
            SetupView::Request(creation(api_key, device.btn_name, button_topic(device.id))),
            SetupView::Subscribe {
                topic: button_topic(device.id),
                quality: Quality::AtLeastOnce,
            },
        ]
    }
}

/// What takes up the buttons of the devices, in order.
pub open spec fn buttons_setup(api_key: Seq<char>, devices: Seq<DeviceView>) -> Seq<SetupView>
    decreases devices.len(),
{
    if devices.len() == 0 {
        Seq::empty()
    } else {
        buttons_setup(api_key, devices.drop_last()) + button_setup(api_key, devices.last())
    }
}

/// The subscription to the topic for calls.
pub open spec fn call_setup() -> SetupView {
    SetupView::Subscribe { topic: DEF_BAFA_CALL_NOTIFY@, quality: Quality::AtLeastOnce }
}

/// What takes up the topics once there is a connection: those of the buttons, then the one for
/// calls.
pub fn set_up(api_key: &str, vtos: &Vec<DeviceConfig>) -> (r: Vec<Setup>)
    ensures
        setup_views(r@) == buttons_setup(api_key@, config::device_views(vtos@)).push(call_setup()),
{
    let ghost devices = config::device_views(vtos@);
    let mut steps: Vec<Setup> = Vec::new();
    assert(setup_views(steps@) =~= buttons_setup(api_key@, devices.take(0)));
    let mut i: usize = 0;
    while i < vtos.len()
        invariant
            i <= vtos.len(),
            devices == config::device_views(vtos@),
            setup_views(steps@) == buttons_setup(api_key@, devices.take(i as int)),
        decreases vtos.len() - i,
    {
        let ghost before = setup_views(steps@);
        let ghost taken = devices.take(i + 1);
        assert(taken.drop_last() =~= devices.take(i as int));
        assert(taken.last() == vtos@[i as int]@);
        let vto = &vtos[i];
        if !vto.btn_name.as_str().is_empty() {
            let topic = button_topic_of(vto.id.as_str());
            steps.push(
                Setup::Request(
                    BafaClient::create_topic(api_key, vto.btn_name.as_str(), topic.as_str()),
                ),
            );
            steps.push(Setup::Subscribe { topic, quality: Quality::AtLeastOnce });
        }
        assert(setup_views(steps@) =~= before + button_setup(api_key@, taken.last()));
        i += 1;
    }
    assert(devices.take(i as int) =~= devices);
    let ghost before = setup_views(steps@);
    steps.push(
        Setup::Subscribe {
            topic: DEF_BAFA_CALL_NOTIFY.to_owned(),
            quality: Quality::AtLeastOnce,
        },
    );
    assert(setup_views(steps@) =~= before.push(call_setup()));
    steps
}

/// Where tidying up or taking up `len` topics stands once the step at a place was taken: a step
/// that fails is passed over.
pub fn passed_over<E>(len: usize, at: usize, outcome: Result<(), E>) -> (r: Course<E>)
    requires
        at < len,
    ensures
        r == course::after(Seq::new(len as nat, |i: int| false), at as int, outcome),
{
    course::proceed(len, at, false, outcome)
}

/// All steps of tidying up or taking up topics are taken, whatever comes of each.
pub proof fn all_steps_are_taken<E>(outcomes: Seq<Result<(), E>>)
    requires
        outcomes.len() <= usize::MAX,
    ensures
        course::finish(
            Seq::new(outcomes.len(), |i: int| false),
            outcomes,
            course::beginning(outcomes.len()),
            0,
        ) == (outcomes.len(), Course::<E>::Done),
{
    course::first_failure_is_the_result(Seq::new(outcomes.len(), |i: int| false), outcomes);
}

/// The clients by the topics of their devices' buttons: those of the devices whose button has a
/// name and that have a client.
pub open spec fn topic_clients(
    devices: Seq<DeviceView>,
    clients: Map<Seq<char>, usize>,
) -> Map<Seq<char>, usize>
    decreases devices.len(),
{
    if devices.len() == 0 {
        Map::empty()
    } else {
        let front = topic_clients(devices.drop_last(), clients);
        let device = devices.last();
        if device.btn_name.len() > 0 && clients.contains_key(device.id) {
            front.insert(button_topic(device.id), clients[device.id])
        } else {
            front
        }
    }
}

/// The clients by the topics of their devices' buttons.
pub fn button_topics(vtos: &Vec<DeviceConfig>, state: &ServerState) -> (r: Table<usize>)
    requires
        state.wf(),
    ensures
        r.wf(),
        r@ == topic_clients(config::device_views(vtos@), state@.vto_clients),
{
    let ghost devices = config::device_views(vtos@);
    let mut topics: Table<usize> = Table::new();
    let mut i: usize = 0;
    while i < vtos.len()
        invariant
            i <= vtos.len(),
            state.wf(),
            devices == config::device_views(vtos@),
            topics.wf(),
            topics@ == topic_clients(devices.take(i as int), state@.vto_clients),
        decreases vtos.len() - i,
    {
        proof {
            let taken = devices.take(i + 1);
            assert(taken.drop_last() =~= devices.take(i as int));
            assert(taken.last() == vtos@[i as int]@);
        }
        let vto = &vtos[i];
        if !vto.btn_name.as_str().is_empty() {
            if let Some(client) = state.client_of(vto.id.as_str()) {
                topics.insert(button_topic_of(vto.id.as_str()), client);
            }
        }
        i += 1;
    }
    assert(devices.take(i as int) =~= devices);
    topics
}

/// Whether a message says that a switch was turned on.
pub open spec fn turns_on(payload: Seq<u8>) -> bool {
    payload == seq![111u8, 110u8]
}

/// What an event leads to. A switch that is turned on opens the door that a caller stands at, and
/// where there is none the door of the switch's device; then the switch is turned off again.
pub open spec fn reaction(topics: Map<Seq<char>, usize>, event: EventView) -> Seq<ActionView> {
    match event {
        EventView::Message { topic, payload } => if topics.contains_key(topic) && turns_on(
            payload,
        ) {
            seq![ActionView::OpenCallDoor { topic, own: topics[topic] }]
        } else {
            Seq::empty()
        },
        EventView::CallDoor { topic, own, opened } => if opened {
            seq![
                ActionView::Publish { topic, text: "off"@ },
                ActionView::Publish { topic: DEF_BAFA_CALL_NOTIFY@, text: "off"@ },
            ]
        } else {
            seq![mqtt::own_door(own), ActionView::Publish { topic, text: "off"@ }]
        },
        EventView::Call => seq![
            ActionView::Publish { topic: DEF_BAFA_CALL_NOTIFY@, text: "on"@ },
            ActionView::PublishLater {
                secs: CALL_SECS,
                topic: DEF_BAFA_CALL_NOTIFY@,
                text: "off"@,
            },
        ],
        EventView::Broken => seq![ActionView::Reconnect { secs: 0 }],
        EventView::Other => Seq::empty(),
    }
}

/// What an event leads to.
pub fn react(topics: &Table<usize>, event: Event) -> (r: Vec<Action>)
    requires
        topics.wf(),
    ensures
        mqtt::action_views(r@) == reaction(topics@, event@),
{
    let ghost happened = event@;
    let mut actions: Vec<Action> = Vec::new();
    match event {
        Event::Message { topic, payload } => {
            if let Some(own) = topics.get(topic.as_str()) {
                if payload.len() == 2 && payload[0] == 111 && payload[1] == 110 {
                    assert(payload@ =~= seq![111u8, 110u8]);
                    actions.push(Action::OpenCallDoor { topic, own: *own });
                }
            }
        },
        Event::CallDoor { topic, own, opened } => {
            if opened {
                actions.push(Action::Publish { topic, text: "off".to_owned() });
                actions.push(
                    Action::Publish {
                        topic: DEF_BAFA_CALL_NOTIFY.to_owned(),
                        text: "off".to_owned(),
                    },
                );
            } else {
                actions.push(Action::OpenDoor(http_server::own_door(own)));
                actions.push(Action::Publish { topic, text: "off".to_owned() });
            }
        },
        Event::Call => {
            actions.push(
                Action::Publish { topic: DEF_BAFA_CALL_NOTIFY.to_owned(), text: "on".to_owned() },
            );
            actions.push(
                Action::PublishLater {
                    secs: CALL_SECS,
                    topic: DEF_BAFA_CALL_NOTIFY.to_owned(),
                    text: "off".to_owned(),
                },
            );
        },
        Event::Broken => {
            actions.push(Action::Reconnect { secs: 0 });
        },
        Event::Other => {},
    }
    assert(mqtt::action_views(actions@) =~= reaction(topics@, happened));
    actions
}

/// Different devices have buttons with different topics.
pub proof fn button_topics_differ(a: Seq<char>, b: Seq<char>)
    requires
        button_topic(a) == button_topic(b),
    ensures
        a == b,
{
    let n = "mjbt"@.len() as int;
    assert(button_topic(a).len() == n + a.len() + "006"@.len());
    assert(button_topic(b).len() == n + b.len() + "006"@.len());
    assert(a =~= button_topic(a).subrange(n, n + a.len()));
    assert(b =~= button_topic(b).subrange(n, n + b.len()));
}

proof fn lemma_topic_client(
    devices: Seq<DeviceView>,
    clients: Map<Seq<char>, usize>,
    topic: Seq<char>,
)
    requires
        topic_clients(devices, clients).contains_key(topic),
    ensures
        exists|i: int|
            0 <= i < devices.len() && (#[trigger] devices[i]).btn_name.len() > 0
                && clients.contains_key(devices[i].id) && topic == button_topic(devices[i].id)
                && topic_clients(devices, clients)[topic] == clients[devices[i].id],
    decreases devices.len(),
{
    let device = devices.last();
    let front = devices.drop_last();
    if device.btn_name.len() > 0 && clients.contains_key(device.id) && topic == button_topic(
        device.id,
    ) {
        assert(devices[devices.len() - 1] == device);
    } else {
        lemma_topic_client(front, clients, topic);
        let i = choose|i: int|
            0 <= i < front.len() && (#[trigger] front[i]).btn_name.len() > 0
                && clients.contains_key(front[i].id) && topic == button_topic(front[i].id)
                && topic_clients(front, clients)[topic] == clients[front[i].id];
        assert(devices[i] == front[i]);
    }
}

proof fn lemma_topic_there(devices: Seq<DeviceView>, clients: Map<Seq<char>, usize>, i: int)
    requires
        0 <= i < devices.len(),
        devices[i].btn_name.len() > 0,
        clients.contains_key(devices[i].id),
    ensures
        topic_clients(devices, clients).contains_key(button_topic(devices[i].id)),
    decreases devices.len(),
{
    if i < devices.len() - 1 {
        lemma_topic_there(devices.drop_last(), clients, i);
    }
}

/// A button that was taken up reaches the client of its device where it is turned on.
pub proof fn switch_reaches_its_device(
    devices: Seq<DeviceView>,
    clients: Map<Seq<char>, usize>,
    i: int,
    payload: Seq<u8>,
)
    requires
        0 <= i < devices.len(),
        devices[i].btn_name.len() > 0,
        clients.contains_key(devices[i].id),
        turns_on(payload),
    ensures
        reaction(
            topic_clients(devices, clients),
            EventView::Message { topic: button_topic(devices[i].id), payload },
        ) == seq![
            ActionView::OpenCallDoor {
                topic: button_topic(devices[i].id),
                own: clients[devices[i].id],
            },
        ],
{
    let topic = button_topic(devices[i].id);
    lemma_topic_there(devices, clients, i);
    lemma_topic_client(devices, clients, topic);
    let k = choose|k: int|
        0 <= k < devices.len() && (#[trigger] devices[k]).btn_name.len() > 0
            && clients.contains_key(devices[k].id) && topic == button_topic(devices[k].id)
            && topic_clients(devices, clients)[topic] == clients[devices[k].id];
    button_topics_differ(devices[i].id, devices[k].id);
}

/// A switch that led to a door is turned off again, whether the door was opened or not.
pub proof fn switch_is_turned_off(
    topics: Map<Seq<char>, usize>,
    topic: Seq<char>,
    own: usize,
    opened: bool,
)
    ensures
        reaction(topics, EventView::CallDoor { topic, own, opened }).contains(
            ActionView::Publish { topic, text: "off"@ },
        ),
{
    let actions = reaction(topics, EventView::CallDoor { topic, own, opened });
    let off = ActionView::Publish { topic, text: "off"@ };
    if opened {
        assert(actions[0] == off);
    } else {
        assert(actions[1] == off);
    }
}

/// Turning a switch off leads to nothing: what is published in answer to a switch starts nothing
/// anew.
pub proof fn turned_off_switch_leads_to_nothing(
    topics: Map<Seq<char>, usize>,
    topic: Seq<char>,
    payload: Seq<u8>,
)
    requires
        payload == vstd::utf8::encode_utf8("off"@),
    ensures
        reaction(topics, EventView::Message { topic, payload }).len() == 0,
{
    reveal_strlit("off");
    vstd::utf8::is_ascii_chars_encode_utf8("off"@);
    assert(payload.len() == 3);
}

/// What is published of calls is no switch.
pub proof fn own_messages_lead_to_nothing(
    devices: Seq<DeviceView>,
    clients: Map<Seq<char>, usize>,
    payload: Seq<u8>,
)
    ensures
        reaction(
            topic_clients(devices, clients),
            EventView::Message { topic: DEF_BAFA_CALL_NOTIFY@, payload },
        ).len() == 0,
{
    let topic = DEF_BAFA_CALL_NOTIFY@;
    if topic_clients(devices, clients).contains_key(topic) {
        lemma_topic_client(devices, clients, topic);
        reveal_strlit("callnotify1006");
        reveal_strlit("mjbt");
        assert(topic[0] == 'c');
        assert("mjbt"@[0] == 'm');
    }
}

/// A call is shown, and taken back after a moment.
pub proof fn call_is_shown_and_taken_back(topics: Map<Seq<char>, usize>)
    ensures
        reaction(topics, EventView::Call) == seq![
            ActionView::Publish { topic: DEF_BAFA_CALL_NOTIFY@, text: "on"@ },
            ActionView::PublishLater {
                secs: CALL_SECS,
                topic: DEF_BAFA_CALL_NOTIFY@,
                text: "off"@,
            },
        ],
{
}

/// Only topics that are offline are deleted.
pub proof fn online_topics_stay(api_key: Seq<char>, topics: Seq<TopicData>, i: int)
    requires
        0 <= i < deletions(api_key, topics).len(),
    ensures
        exists|k: int|
            0 <= k < topics.len() && !(#[trigger] topics[k]).online && deletions(
                api_key,
                topics,
            )[i] == deletion(api_key, topics[k].topic@, topics[k].type_),
    decreases topics.len(),
{
    let front = topics.drop_last();
    let n = topics.len() - 1;
    if i < deletions(api_key, front).len() {
        online_topics_stay(api_key, front, i);
        let k = choose|k: int|
            0 <= k < front.len() && !(#[trigger] front[k]).online && deletions(api_key, front)[i]
                == deletion(api_key, front[k].topic@, front[k].type_);
        assert(topics[k] == front[k]);
        assert(deletions(api_key, topics)[i] == deletions(api_key, front)[i]);
    } else {
        assert(topics[n] == topics.last());
    }
}

} // verus!
