//! The server: who is calling, who may open which door, and what requests are answered.

use crate::config;
use crate::config::{AppConfig, ConfigView, DeviceConfig, DeviceView};
use crate::config_laws;
use crate::dahuavto::{ClientConfig, ClientError, ClientView, DahuaVTOClient};
use crate::gpio;
use crate::gpio::{Step, StepView};
use crate::json::{Json, JsonView};
use crate::sip;
use crate::sip::{Station, StationView};
use crate::table::Table;
use crate::text;
use base64::engine::general_purpose::STANDARD;
use base64::Engine;
use std::sync::Arc;
use std::time::Duration;
use vstd::prelude::*;
use vstd::string::StringExecFns;

verus! {

/// Nanoseconds for which a call can be answered by opening the door.
pub const CALL_VALID_NANOS: i128 = 30_000_000_000;

/// Seconds to wait for a device to take a connection.
pub const CONNECT_TIMEOUT_SECS: u64 = 5;

/// Seconds until a device is tried again.
pub const RECONNECT_SECS: u64 = 10;

/// Seconds until the service is restarted with a new configuration.
pub const RESTART_DELAY_SECS: u64 = 1;

/// What asks a browser for a name and a password.
pub const WWW_AUTHENTICATE: &'static str = "Basic realm=\"Access to API\"";

pub const STATUS_OK: u16 = 200;

pub const STATUS_BAD_REQUEST: u16 = 400;

pub const STATUS_UNAUTHORIZED: u16 = 401;

pub const STATUS_NOT_FOUND: u16 = 404;

pub const STATUS_INTERNAL_SERVER_ERROR: u16 = 500;

/// The duration of so many whole seconds.
pub uninterp spec fn duration_of_secs(secs: u64) -> Duration;

/// `Duration::from_secs`: the duration of so many whole seconds.
pub assume_specification[ Duration::from_secs ](secs: u64) -> (r: Duration)
    ensures
        r == duration_of_secs(secs),
;

#[derive(Debug)]
pub enum ServerError {
    DoorOperationError(),
}

/// What the server knows. Moments are nanoseconds since the epoch, clients are numbers.
pub struct ServerState {
    vto_clients: Table<usize>,
    cfg: Arc<AppConfig>,
    last_call_client: Option<usize>,
    last_call_time: Option<i128>,
}

pub struct StateView {
    /// The clients by the names of their devices.
    pub vto_clients: Map<Seq<char>, usize>,
    /// The names of the devices, in order.
    pub order: Seq<Seq<char>>,
    pub cfg: ConfigView,
    pub last_call_client: Option<usize>,
    pub last_call_time: Option<i128>,
}

impl View for ServerState {
    type V = StateView;

    closed spec fn view(&self) -> StateView {
        StateView {
            vto_clients: self.vto_clients@,
            order: self.vto_clients.order(),
            cfg: self.cfg@,
            last_call_client: self.last_call_client,
            last_call_time: self.last_call_time,
        }
    }
}

/// A door that is to be opened: the client of its device, and the number to open it as.
#[derive(Debug)]
pub struct OpenDoor {
    pub client: usize,
    pub short_number: String,
}

pub struct OpenDoorView {
    pub client: usize,
    pub short_number: Seq<char>,
}

impl View for OpenDoor {
    type V = OpenDoorView;

    open spec fn view(&self) -> OpenDoorView {
        OpenDoorView { client: self.client, short_number: self.short_number@ }
    }
}

/// What a request is answered.
#[derive(Debug)]
pub struct Answer {
    pub status: u16,
    pub body: Json,
}

pub struct AnswerView {
    pub status: u16,
    pub body: JsonView,
}

impl View for Answer {
    type V = AnswerView;

    open spec fn view(&self) -> AnswerView {
        AnswerView { status: self.status, body: self.body.view() }
    }
}

/// The answer that says what went wrong.
pub open spec fn failure(status: u16, reason: Seq<char>) -> AnswerView {
    AnswerView { status, body: JsonView::Object(map!["error"@ => JsonView::Text(reason)]) }
}

/// The answer that says that all went well.
pub open spec fn success() -> AnswerView {
    AnswerView {
        status: STATUS_OK,
        body: JsonView::Object(map!["result"@ => JsonView::Text("success"@)]),
    }
}

/// The answer to a new configuration.
pub open spec fn updated() -> AnswerView {
    AnswerView {
        status: STATUS_OK,
        body: JsonView::Object(
            map!["result"@ => JsonView::Text("success"@), "message"@ => JsonView::Text(
                "配置更新成功"@,
            )],
        ),
    }
}

impl StateView {
    /// The client whose call can be answered at this moment by opening the door.
    pub open spec fn call_at(self, now: i128) -> Option<usize> {
        match (self.last_call_time, self.last_call_client) {
            (Some(time), Some(client)) => if 0 <= now - time <= CALL_VALID_NANOS {
                Some(client)
            } else {
                None
            },
            _ => None,
        }
    }

    /// What notifies of a call.
    pub open spec fn notification(self) -> Seq<StepView> {
        if self.cfg.gpio_out.len() == 0 {
            Seq::empty()
        } else {
            gpio::pulse(self.cfg.gpio_out)
        }
    }

    /// What is known after a call.
    pub open spec fn after_call(self, client: usize, now: i128) -> StateView {
        StateView { last_call_client: Some(client), last_call_time: Some(now), ..self }
    }

    /// The new configuration, which keeps the old password where it has none.
    pub open spec fn merged(self, new_cfg: ConfigView) -> ConfigView {
        ConfigView {
            password: if new_cfg.password.len() == 0 {
                self.cfg.password
            } else {
                new_cfg.password
            },
            ..new_cfg
        }
    }
}

/// What happened about a call.
#[derive(Debug)]
pub enum CallEvent {
    Received,
    /// It was tried to open the door.
    Opened(Result<(), ClientError>),
    /// It is this moment.
    Moment(i128),
}

/// What is to be done about a call.
#[derive(Debug)]
pub enum CallTask {
    Open(OpenDoor),
    /// Say which moment it is.
    TellTime,
    /// Notify of the call. Nothing is left to do behind that.
    Notify(Vec<Step>),
}

/// Which door a request asks to open, or the answer where that is not known.
pub open spec fn asked_door(state: StateView, id: Option<Seq<char>>) -> Result<
    OpenDoorView,
    AnswerView,
> {
    match id {
        None => Err(failure(STATUS_BAD_REQUEST, "请求参数错误"@)),
        Some(id) => if state.vto_clients.contains_key(id) {
            Ok(OpenDoorView { client: state.vto_clients[id], short_number: state.cfg.userid })
        } else {
            Err(failure(STATUS_NOT_FOUND, "VTO未找到"@))
        },
    }
}

/// The answer once a door was opened, or failed to open for this reason.
pub open spec fn opening_answer(failed: Option<Seq<char>>) -> AnswerView {
    match failed {
        Some(e) => failure(STATUS_INTERNAL_SERVER_ERROR, "执行开门操作错误: "@ + e),
        None => success(),
    }
}

/// The answer once a test was made, or failed for this reason.
pub open spec fn tested_answer(failed: Option<Seq<char>>) -> AnswerView {
    match failed {
        Some(e) => failure(STATUS_INTERNAL_SERVER_ERROR, "callNotify测试错误: "@ + e),
        None => success(),
    }
}

/// The door to open for a press of a device's button, by whether the door that a caller stands at
/// was opened.
pub open spec fn press_opens(own: usize, call_door_opened: bool) -> Option<OpenDoorView> {
    if call_door_opened {
        None
    } else {
        Some(OpenDoorView { client: own, short_number: Seq::empty() })
    }
}

/// The door that opens by itself when a device calls.
pub open spec fn opens_by_itself(state: StateView, client: usize) -> Option<OpenDoorView> {
    if state.cfg.auto_open {
        Some(OpenDoorView { client, short_number: Seq::empty() })
    } else {
        None
    }
}

/// A configuration to be stored, and the answer once that is done.
#[derive(Debug)]
pub struct Update {
    pub contents: String,
    pub answer: Answer,
}

fn error_answer(status: u16, reason: &str) -> (r: Answer)
    ensures
        r@ == failure(status, reason@),
{
    let body = Json::object().with("error", Json::text(reason));
    assert(body.view()->Object_0 =~= failure(status, reason@).body->Object_0);
    Answer { status, body }
}

fn success_answer() -> (r: Answer)
    ensures
        r@ == success(),
{
    let body = Json::object().with("result", Json::text("success"));
    assert(body.view()->Object_0 =~= success().body->Object_0);
    Answer { status: STATUS_OK, body }
}

impl ServerState {
    /// A call has a client where it has a time.
    pub closed spec fn wf(&self) -> bool {
        &&& self.vto_clients.wf()
        &&& self.last_call_client is Some <==> self.last_call_time is Some
    }

    pub fn new(cfg: Arc<AppConfig>) -> (r: Self)
        ensures
            r.wf(),
            r@ == (StateView {
                vto_clients: Map::empty(),
                order: Seq::empty(),
                cfg: cfg@,
                last_call_client: None,
                last_call_time: None,
            }),
    {
        ServerState {
            vto_clients: Table::new(),
            cfg,
            last_call_client: None,
            last_call_time: None,
        }
    }

    /// Takes in the client of a device.
    pub fn add_client(&mut self, id: String, client: usize)
        requires
            old(self).wf(),
        ensures
            final(self).wf(),
            final(self)@ == (StateView {
                vto_clients: old(self)@.vto_clients.insert(id@, client),
                order: if old(self)@.vto_clients.contains_key(id@) {
                    old(self)@.order
                } else {
                    old(self)@.order.push(id@)
                },
                ..old(self)@
            }),
    {
        self.vto_clients.insert(id, client);
    }

    /// The client of the device with this name.
    pub fn client_of(&self, id: &str) -> (r: Option<usize>)
        requires
            self.wf(),
        ensures
            r == if self@.vto_clients.contains_key(id@) {
                Some(self@.vto_clients[id@])
            } else {
                None
            },
    {
        match self.vto_clients.get(id) {
            Some(client) => Some(*client),
            None => None,
        }
    }

    /// Which door a caller stands at, if anyone has called a short while ago. A clock that was
    /// set back leaves no caller.
    pub fn open_call_door(&self, now: i128) -> (r: Result<OpenDoor, ServerError>)
        ensures
            match self@.call_at(now) {
                Some(client) => r is Ok && r->Ok_0@ == (OpenDoorView {
                    client,
                    short_number: self@.cfg.userid,
                }),
                None => r == Err::<OpenDoor, ServerError>(ServerError::DoorOperationError()),
            },
    {
        if let (Some(time), Some(client)) = (self.last_call_time, self.last_call_client) {
            if now < time {
                return Err(ServerError::DoorOperationError());
            }
            if let Some(elapsed) = now.checked_sub(time) {
                if elapsed <= CALL_VALID_NANOS {
                    return Ok(OpenDoor { client, short_number: self.cfg.userid.clone() });
                }
            }
        }
        Err(ServerError::DoorOperationError())
    }

    /// The door that opens by itself when a device calls.
    pub fn auto_open(&self, client: usize) -> (r: Option<OpenDoor>)
        ensures
            match r {
                Some(door) => opens_by_itself(self@, client) == Some(door@),
                None => opens_by_itself(self@, client) is None,
            },
            match r {
                Some(door) => self@.cfg.auto_open && door@ == (OpenDoorView {
                    client,
                    short_number: Seq::empty(),
                }),
                None => !self@.cfg.auto_open,
            },
    {
        if self.cfg.auto_open {
            Some(own_door(client))
        } else {
            None
        }
    }

    /// What is done next about a call of a device: first its door opens where it opens by itself,
    /// then the moment is noted, and then the call is notified of.
    pub fn on_call(&mut self, client: usize, event: CallEvent) -> (r: CallTask)
        requires
            old(self).wf(),
        ensures
            final(self).wf(),
            match event {
                CallEvent::Received => {
                    &&& final(self)@ == old(self)@
                    &&& if old(self)@.cfg.auto_open {
                        r matches CallTask::Open(door) && door@ == (OpenDoorView {
                            client,
                            short_number: Seq::empty(),
                        })
                    } else {
                        r is TellTime
                    }
                },
                CallEvent::Opened(_) => final(self)@ == old(self)@ && r is TellTime,
                CallEvent::Moment(now) => {
                    &&& final(self)@ == old(self)@.after_call(client, now)
                    &&& r matches CallTask::Notify(steps)
                    &&& gpio::steps_view(steps@) == old(self)@.notification()
                },
            },
    {
        match event {
            CallEvent::Received => match self.auto_open(client) {
                Some(door) => CallTask::Open(door),
                None => CallTask::TellTime,
            },
            CallEvent::Opened(_) => CallTask::TellTime,
            CallEvent::Moment(now) => CallTask::Notify(self.call_received(client, now)),
        }
    }

    /// Notes that a device calls, and says what notifies of it.
    pub fn call_received(&mut self, client: usize, now: i128) -> (r: Vec<Step>)
        requires
            old(self).wf(),
        ensures
            final(self).wf(),
            final(self)@ == old(self)@.after_call(client, now),
            gpio::steps_view(r@) == old(self)@.notification(),
    {
        self.last_call_client = Some(client);
        self.last_call_time = Some(now);
        self.handle_test()
    }

    /// What notifies of a call.
    pub fn handle_test(&self) -> (r: Vec<Step>)
        ensures
            gpio::steps_view(r@) == self@.notification(),
    {
        if self.cfg.gpio_out.as_str().is_empty() {
            let steps: Vec<Step> = Vec::new();
            assert(gpio::steps_view(steps@) =~= Seq::<StepView>::empty());
            steps
        } else {
            gpio::call_notify(self.cfg.gpio_out.as_str())
        }
    }

    /// The answer to a request for a test, by why it failed.
    pub fn test_answer(failed: Option<&str>) -> (r: Answer)
        ensures
            r@ == tested_answer(
                match failed {
                    Some(e) => Some(e@),
                    None => None,
                },
            ),
            r@ == match failed {
                Some(e) => failure(STATUS_INTERNAL_SERVER_ERROR, "callNotify测试错误: "@ + e@),
                None => success(),
            },
    {
        match failed {
            Some(e) => {
                let mut reason = "callNotify测试错误: ".to_owned();
                reason.append(e);
                error_answer(STATUS_INTERNAL_SERVER_ERROR, reason.as_str())
            },
            None => success_answer(),
        }
    }

    /// Which door a request asks to open, or the answer where that is not known.
    pub fn handle_open_door(&self, id: Option<&str>) -> (r: Result<OpenDoor, Answer>)
        requires
            self.wf(),
        ensures
            match asked_door(
                self@,
                match id {
                    Some(id) => Some(id@),
                    None => None,
                },
            ) {
                Ok(door) => r is Ok && r->Ok_0@ == door,
                Err(answer) => r is Err && r->Err_0@ == answer,
            },
            match id {
                None => r is Err && r->Err_0@ == failure(STATUS_BAD_REQUEST, "请求参数错误"@),
                Some(id) => if self@.vto_clients.contains_key(id@) {
                    r is Ok && r->Ok_0@ == (OpenDoorView {
                        client: self@.vto_clients[id@],
                        short_number: self@.cfg.userid,
                    })
                } else {
                    r is Err && r->Err_0@ == failure(STATUS_NOT_FOUND, "VTO未找到"@)
                },
            },
    {
        let id = match id {
            Some(id) => id,
            None => return Err(error_answer(STATUS_BAD_REQUEST, "请求参数错误")),
        };
        match self.client_of(id) {
            Some(client) => Ok(OpenDoor { client, short_number: self.cfg.userid.clone() }),
            None => Err(error_answer(STATUS_NOT_FOUND, "VTO未找到")),
        }
    }

    /// The answer to a request to open a door, by why that failed.
    pub fn open_door_answer(failed: Option<&str>) -> (r: Answer)
        ensures
            r@ == opening_answer(
                match failed {
                    Some(e) => Some(e@),
                    None => None,
                },
            ),
            r@ == match failed {
                Some(e) => failure(STATUS_INTERNAL_SERVER_ERROR, "执行开门操作错误: "@ + e@),
                None => success(),
            },
    {
        match failed {
            Some(e) => {
                let mut reason = "执行开门操作错误: ".to_owned();
                reason.append(e);
                error_answer(STATUS_INTERNAL_SERVER_ERROR, reason.as_str())
            },
            None => success_answer(),
        }
    }

    pub fn get_config(&self) -> (r: AppConfig)
        ensures
            r@ == self@.cfg,
    {
        (*self.cfg).clone()
    }

    /// What is to be stored as the new configuration.
    pub fn update_config(&self, new_cfg: AppConfig) -> (r: Update)
        ensures
            r.contents@ == config::rendered(self@.merged(new_cfg@)),
            r.contents@ == config::rendered(
                ConfigView {
                    password: if new_cfg@.password.len() == 0 {
                        self@.cfg.password
                    } else {
                        new_cfg@.password
                    },
                    ..new_cfg@
                },
            ),
            r.answer@ == updated(),
    {
        let mut new_cfg = new_cfg;
        let ghost given = new_cfg@;
        if new_cfg.password.as_str().is_empty() {
            new_cfg.password = self.cfg.password.clone();
        }
        assert(new_cfg@ =~= self@.merged(given));
        let body = Json::object().with("result", Json::text("success")).with(
            "message",
            Json::text("配置更新成功"),
        );
        assert(body.view()->Object_0 =~= updated().body->Object_0);
        Update { contents: new_cfg.to_file(), answer: Answer { status: STATUS_OK, body } }
    }

    /// The stations whose calls are listened for on the wire: each device that has a client.
    /// `None` where no interface is set.
    pub fn stations(&self, links: &[Link]) -> (r: Option<Vec<Station>>)
        requires
            self.wf(),
            forall|id: Seq<char>| #[trigger]
                self@.vto_clients.contains_key(id) ==> self@.vto_clients[id] < links@.len(),
        ensures
            match r {
                Some(stations) => self@.cfg.sip_interface.len() > 0 && sip::station_views(stations@)
                    == station_list(self@, links@),
                None => self@.cfg.sip_interface.len() == 0,
            },
    {
        if self.cfg.sip_interface.as_str().is_empty() {
            return None;
        }
        let ghost all = station_list(self@, links@);
        let mut stations: Vec<Station> = Vec::new();
        let mut i: usize = 0;
        while i < self.vto_clients.len()
            invariant
                self.wf(),
                i <= self@.order.len(),
                all == station_list(self@, links@),
                forall|id: Seq<char>| #[trigger]
                    self@.vto_clients.contains_key(id) ==> self@.vto_clients[id] < links@.len(),
                sip::station_views(stations@) == all.take(i as int),
            decreases self@.order.len() - i,
        {
            let ghost before = stations@;
            let client: usize = *self.vto_clients.entry(i).1;
            let config = links[client].client.config();
            stations.push(
                Station { host: config.host.clone(), user_id: config.user_id.clone(), client },
            );
            assert(sip::station_views(stations@) =~= sip::station_views(before).push(
                all[i as int],
            ));
            assert(all.take(i + 1) =~= all.take(i as int).push(all[i as int]));
            i += 1;
        }
        assert(all.take(i as int) =~= all);
        Some(stations)
    }
}

/// A link to a device, as a station.
pub open spec fn station_of(client: usize, link: Link) -> StationView {
    StationView {
        host: link.client@.config.host@,
        user_id: link.client@.config.user_id@,
        client,
    }
}

/// The stations of all devices, in order.
pub open spec fn station_list(state: StateView, links: Seq<Link>) -> Seq<StationView> {
    Seq::new(
        state.order.len(),
        |i: int|
            station_of(
                state.vto_clients[state.order[i]],
                links[state.vto_clients[state.order[i]] as int],
            ),
    )
}

/// The door of a device, opened as nobody in particular.
pub fn own_door(client: usize) -> (r: OpenDoor)
    ensures
        r@ == (OpenDoorView { client, short_number: Seq::empty() }),
{
    let short_number = "".to_owned();
    proof {
        reveal_strlit("");
        assert(short_number@ =~= Seq::<char>::empty());
    }
    OpenDoor { client, short_number }
}

/// Whether the door that a caller stands at was opened, by what came of it.
pub fn call_door_opened(outcome: Result<(), ClientError>) -> (r: Result<(), ServerError>)
    ensures
        outcome is Ok ==> r is Ok,
        outcome is Err ==> r == Err::<(), ServerError>(ServerError::DoorOperationError()),
{
    match outcome {
        Ok(_) => Ok(()),
        Err(_) => Err(ServerError::DoorOperationError()),
    }
}

/// The door to open for a press of a device's button: none where the door that a caller stands at
/// was opened, else the door of the device itself.
pub fn pressed(own: usize, call_door: Result<(), ServerError>) -> (r: Option<OpenDoor>)
    ensures
        match r {
            Some(door) => press_opens(own, call_door is Ok) == Some(door@),
            None => press_opens(own, call_door is Ok) is None,
        },
        match r {
            Some(door) => call_door is Err && door@ == (OpenDoorView {
                client: own,
                short_number: Seq::empty(),
            }),
            None => call_door is Ok,
        },
{
    match call_door {
        Ok(_) => None,
        Err(_) => Some(own_door(own)),
    }
}

/// What came of waiting for a call.
#[derive(Debug)]
pub enum CallReceipt {
    /// The device with this client calls.
    Call(usize),
    /// Calls came faster than they were taken, and some are lost.
    Lagged,
    /// No more calls will come.
    Closed,
}

/// Whether calls are still waited for: calls that are lost end nothing.
pub fn calls_go_on(received: &CallReceipt) -> (r: bool)
    ensures
        r == !(*received is Closed),
{
    match received {
        CallReceipt::Call(_) => true,
        CallReceipt::Lagged => true,
        CallReceipt::Closed => false,
    }
}

/// A device that is to be kept connected.
#[derive(Debug)]
pub struct Link {
    pub client: DahuaVTOClient,
    /// The pin whose presses open the door, and its name.
    pub button: Option<(u16, String)>,
    /// The user whose calls count.
    pub user_id: String,
    /// Whether the device's own events announce calls.
    pub is_callback: bool,
}

/// Whether a link is the one for a device: nothing has been said to the device yet.
pub open spec fn links_to(
    link: Link,
    device: DeviceView,
    cfg: ConfigView,
) -> bool {
    let config = link.client@.config;
    &&& link.client.wf()
    &&& link.client@ == (ClientView {
        config,
        request_id: 0,
        session_id: 0,
        connected: false,
        writer: false,
        pending: Set::empty(),
    })
    &&& config.username@ == device.name
    &&& config.password@ == device.password
    &&& config.host@ == device.ip
    &&& config.port == device.port
    &&& config.user_id@ == device.userid
    &&& config.connect_timeout == duration_of_secs(CONNECT_TIMEOUT_SECS)
    &&& match link.button {
        Some((pin, name)) => device.gpio != 0 && pin == device.gpio && name@ == text::decimal(
            pin as nat,
        ),
        None => device.gpio == 0,
    }
    &&& link.user_id@ == if device.userid.len() == 0 {
        cfg.userid
    } else {
        device.userid
    }
    &&& link.is_callback == (cfg.sip_interface.len() == 0)
}

/// A device that is to be kept connected.
pub fn init_vto_client(device: &DeviceConfig, cfg: &AppConfig) -> (r: Link)
    ensures
        links_to(r, device@, cfg@),
{
    let client = DahuaVTOClient::new(
        ClientConfig {
            username: device.name.clone(),
            password: device.password.clone(),
            host: device.ip.clone(),
            port: device.port,
            user_id: device.userid.clone(),
            connect_timeout: Duration::from_secs(CONNECT_TIMEOUT_SECS),
        },
    );
    let button = if device.gpio != 0 {
        Some((device.gpio, text::decimal_string(device.gpio as u64)))
    } else {
        None
    };
    let user_id = if device.userid.as_str().is_empty() {
        cfg.userid.clone()
    } else {
        device.userid.clone()
    };
    Link { client, button, user_id, is_callback: cfg.sip_interface.as_str().is_empty() }
}

/// What the server starts with.
pub struct Server {
    pub state: ServerState,
    /// The links to the devices, in the order of the configuration; a client's number is the
    /// place of its link.
    pub links: Vec<Link>,
    /// The stations whose calls are listened for on the wire, where an interface is set.
    pub stations: Option<Vec<Station>>,
}

/// The numbers of the clients by the names of their devices. Of two devices with one name the
/// later counts.
pub open spec fn numbered(devices: Seq<DeviceView>) -> Map<Seq<char>, usize>
    decreases devices.len(),
{
    if devices.len() == 0 {
        Map::empty()
    } else {
        numbered(devices.drop_last()).insert(devices.last().id, (devices.len() - 1) as usize)
    }
}

/// The names of the devices in the order in which they first occur.
pub open spec fn names(devices: Seq<DeviceView>) -> Seq<Seq<char>>
    decreases devices.len(),
{
    if devices.len() == 0 {
        Seq::empty()
    } else if numbered(devices.drop_last()).contains_key(devices.last().id) {
        names(devices.drop_last())
    } else {
        names(devices.drop_last()).push(devices.last().id)
    }
}

/// A new server: a link to each device, and nobody has called yet.
pub fn new(cfg: Arc<AppConfig>) -> (r: Server)
    ensures
        r.state.wf(),
        r.state@ == (StateView {
            vto_clients: numbered(cfg@.vtos),
            order: names(cfg@.vtos),
            cfg: cfg@,
            last_call_client: None,
            last_call_time: None,
        }),
        r.links@.len() == cfg@.vtos.len(),
        forall|i: int|
            0 <= i < cfg@.vtos.len() ==> links_to(
                #[trigger] r.links@[i],
                cfg@.vtos[i],
                cfg@,
            ),
        match r.stations {
            Some(stations) => cfg@.sip_interface.len() > 0 && sip::station_views(stations@)
                == station_list(r.state@, r.links@),
            None => cfg@.sip_interface.len() == 0,
        },
{
    let mut state = ServerState::new(cfg.clone());
    let mut links: Vec<Link> = Vec::new();
    let mut i: usize = 0;
    while i < cfg.vtos.len()
        invariant
            i <= cfg.vtos.len(),
            state.wf(),
            state@ == (StateView {
                vto_clients: numbered(cfg@.vtos.take(i as int)),
                order: names(cfg@.vtos.take(i as int)),
                cfg: cfg@,
                last_call_client: None,
                last_call_time: None,
            }),
            links@.len() == i,
            forall|k: int|
                0 <= k < i ==> links_to(
                    #[trigger] links@[k],
                    cfg@.vtos[k],
                    cfg@,
                ),
            forall|id: Seq<char>| #[trigger]
                state@.vto_clients.contains_key(id) ==> state@.vto_clients[id] < i,
        decreases cfg.vtos.len() - i,
    {
        proof {
            let taken = cfg@.vtos.take(i + 1);
            assert(taken.drop_last() =~= cfg@.vtos.take(i as int));
            assert(taken.last() == cfg.vtos@[i as int]@);
        }
        links.push(init_vto_client(&cfg.vtos[i], &cfg));
        state.add_client(cfg.vtos[i].id.clone(), i);
        i += 1;
    }
    assert(cfg@.vtos.take(i as int) =~= cfg@.vtos);
    let stations = state.stations(links.as_slice());
    Server { state, links, stations }
}

/// What happened to the connection to a device.
#[derive(Debug)]
pub enum LinkEvent {
    /// It was tried to connect and to log in.
    Connected(Result<(), ClientError>),
    /// The subscription to its events has ended.
    Unsubscribed(Result<(), ClientError>),
    /// The time to wait is over.
    Waited,
}

/// What is to be done about the connection to a device.
#[derive(Debug)]
pub enum LinkAction {
    Connect,
    Subscribe,
    /// Wait so many seconds.
    Wait(u64),
}

/// What is to be done next about the connection to a device.
pub open spec fn link_action(event: LinkEvent) -> LinkAction {
    match event {
        LinkEvent::Connected(Ok(_)) => LinkAction::Subscribe,
        LinkEvent::Unsubscribed(Ok(_)) => LinkAction::Connect,
        LinkEvent::Waited => LinkAction::Connect,
        _ => LinkAction::Wait(RECONNECT_SECS),
    }
}

/// What is to be done next about the connection to a device, which is never given up.
pub fn keep_connected(event: &LinkEvent) -> (r: LinkAction)
    ensures
        r == link_action(*event),
        match *event {
            LinkEvent::Connected(outcome) => if outcome is Ok {
                r == LinkAction::Subscribe
            } else {
                r == LinkAction::Wait(RECONNECT_SECS)
            },
            LinkEvent::Unsubscribed(outcome) => if outcome is Ok {
                r == LinkAction::Connect
            } else {
                r == LinkAction::Wait(RECONNECT_SECS)
            },
            LinkEvent::Waited => r == LinkAction::Connect,
        },
{
    match event {
        LinkEvent::Connected(Ok(_)) => LinkAction::Subscribe,
        LinkEvent::Unsubscribed(Ok(_)) => LinkAction::Connect,
        LinkEvent::Waited => LinkAction::Connect,
        LinkEvent::Connected(Err(_)) => LinkAction::Wait(RECONNECT_SECS),
        LinkEvent::Unsubscribed(Err(_)) => LinkAction::Wait(RECONNECT_SECS),
    }
}

/// The bytes that a text stands for in Base64 with the standard alphabet and padding.
pub uninterp spec fn base64_decoded(encoded: Seq<char>) -> Option<Seq<u8>>;

/// `Engine::decode` of the engine `STANDARD`.
#[verifier::external_body]
fn base64_decode(encoded: &str) -> (r: Option<Vec<u8>>)
    ensures
        match r {
            Some(bytes) => base64_decoded(encoded@) == Some(bytes@),
            None => base64_decoded(encoded@) is None,
        },
{
    match STANDARD.decode(encoded) {
        Ok(bytes) => Some(bytes),
        Err(_) => None,
    }
}

/// The credentials in the value of an authorization header of the basic scheme.
pub open spec fn basic_credentials(header: Seq<char>) -> Option<Seq<char>> {
    if "Basic "@.is_prefix_of(header) {
        Some(header.skip("Basic "@.len() as int))
    } else {
        None
    }
}

/// Whether credentials let a request in: a name and a password, parted by the first colon.
pub open spec fn admits(cfg: ConfigView, decoded: Option<Seq<u8>>) -> bool {
    match decoded {
        Some(bytes) => vstd::utf8::valid_utf8(bytes) && text::split_at_first(
            vstd::utf8::decode_utf8(bytes),
            ':',
        ) == Some((cfg.username, cfg.password)),
        None => false,
    }
}

/// Whether a request with this authorization header is let in.
pub open spec fn lets_in(cfg: ConfigView, header: Option<Seq<char>>) -> bool {
    match header {
        Some(value) => match basic_credentials(value) {
            Some(encoded) => admits(cfg, base64_decoded(encoded)),
            None => false,
        },
        None => false,
    }
}

/// The credentials in the value of an authorization header of the basic scheme.
pub fn credentials_in(header: &str) -> (r: Option<String>)
    ensures
        match r {
            Some(encoded) => basic_credentials(header@) == Some(encoded@),
            None => basic_credentials(header@) is None,
        },
{
    let value = text::char_vec(header);
    let scheme = text::char_vec("Basic ");
    if text::starts_with(value.as_slice(), scheme.as_slice()) {
        let rest = vstd::slice::slice_subrange(value.as_slice(), scheme.len(), value.len());
        assert(rest@ =~= header@.skip("Basic "@.len() as int));
        Some(text::string_of(rest))
    } else {
        None
    }
}

/// Whether credentials let a request in.
pub fn credentials_match(cfg: &AppConfig, decoded: Option<Vec<u8>>) -> (r: bool)
    ensures
        r == admits(
            cfg@,
            match decoded {
                Some(bytes) => Some(bytes@),
                None => None,
            },
        ),
{
    let bytes = match decoded {
        Some(bytes) => bytes,
        None => return false,
    };
    match text::utf8(bytes.as_slice()) {
        Some(credentials) => {
            let chars = text::char_vec(credentials.as_str());
            match text::split_once(chars.as_slice(), ':') {
                Some((username, password)) => {
                    let expected_name = text::char_vec(cfg.username.as_str());
                    let expected_word = text::char_vec(cfg.password.as_str());
                    text::same(username, expected_name.as_slice()) && text::same(
                        password,
                        expected_word.as_slice(),
                    )
                },
                None => false,
            }
        },
        None => false,
    }
}

/// Whether a request with this authorization header is let in.
pub fn authorized(cfg: &AppConfig, header: Option<&str>) -> (r: bool)
    ensures
        r == lets_in(
            cfg@,
            match header {
                Some(value) => Some(value@),
                None => None,
            },
        ),
{
    match header {
        Some(value) => match credentials_in(value) {
            Some(encoded) => credentials_match(cfg, base64_decode(encoded.as_str())),
            None => false,
        },
        None => false,
    }
}

/// Why a request is not let in: its status, and what asks for a name and a password.
#[derive(Debug)]
pub struct Refusal {
    pub status: u16,
    pub www_authenticate: String,
}

/// Lets a request with this authorization header in, or refuses it and asks for a name and a
/// password.
pub fn check_access(cfg: &AppConfig, header: Option<&str>) -> (r: Result<(), Refusal>)
    ensures
        match r {
            Ok(_) => lets_in(
                cfg@,
                match header {
                    Some(value) => Some(value@),
                    None => None,
                },
            ),
            Err(refusal) => !lets_in(
                cfg@,
                match header {
                    Some(value) => Some(value@),
                    None => None,
                },
            ) && refusal.status == STATUS_UNAUTHORIZED && refusal.www_authenticate@
                == WWW_AUTHENTICATE@,
        },
{
    if authorized(cfg, header) {
        Ok(())
    } else {
        Err(
            Refusal {
                status: STATUS_UNAUTHORIZED,
                www_authenticate: WWW_AUTHENTICATE.to_owned(),
            },
        )
    }
}

/// A device is found by its name, unless a later one has the same name.
pub proof fn device_is_found_by_name(devices: Seq<DeviceView>, i: int)
    requires
        0 <= i < devices.len() <= usize::MAX,
        forall|j: int| i < j < devices.len() ==> (#[trigger] devices[j]).id != devices[i].id,
    ensures
        numbered(devices).contains_key(devices[i].id),
        numbered(devices)[devices[i].id] == i,
    decreases devices.len(),
{
    if i < devices.len() - 1 {
        let front = devices.drop_last();
        assert forall|j: int| i < j < front.len() implies (#[trigger] front[j]).id
            != front[i].id by {
            assert(front[j] == devices[j]);
        }
        device_is_found_by_name(front, i);
        assert(devices.last() == devices[devices.len() - 1]);
    }
}

/// Every name that is known is that of a device, and stands for the link to it.
pub proof fn known_name_has_a_device(devices: Seq<DeviceView>, id: Seq<char>)
    requires
        devices.len() <= usize::MAX,
        numbered(devices).contains_key(id),
    ensures
        0 <= numbered(devices)[id] < devices.len(),
        devices[numbered(devices)[id] as int].id == id,
    decreases devices.len(),
{
    if devices.last().id != id {
        known_name_has_a_device(devices.drop_last(), id);
    }
}

/// The configured name and password let a request in, unless the name holds a colon.
pub proof fn configured_credentials_are_admitted(cfg: ConfigView, bytes: Seq<u8>)
    requires
        !cfg.username.contains(':'),
        bytes == vstd::utf8::encode_utf8(cfg.username + ":"@ + cfg.password),
    ensures
        admits(cfg, Some(bytes)),
{
    broadcast use vstd::utf8::encode_utf8_valid_utf8, vstd::utf8::encode_utf8_decode_utf8;

    reveal_strlit(":");
    let s = cfg.username + ":"@ + cfg.password;
    text::lemma_find_is(s, ':', cfg.username.len() as int);
    assert(s.take(cfg.username.len() as int) =~= cfg.username);
    assert(s.skip(cfg.username.len() as int + 1) =~= cfg.password);
}

/// Nothing but the configured name and password lets a request in.
pub proof fn only_configured_credentials_are_admitted(cfg: ConfigView, bytes: Seq<u8>)
    requires
        admits(cfg, Some(bytes)),
    ensures
        vstd::utf8::decode_utf8(bytes) == cfg.username + ":"@ + cfg.password,
        !cfg.username.contains(':'),
{
    reveal_strlit(":");
    let s = vstd::utf8::decode_utf8(bytes);
    text::lemma_find(s, ':');
    assert(s =~= cfg.username + ":"@ + cfg.password);
}

/// A call can be answered by opening the door of the device that called last, from the moment of
/// the call until half a minute after it.
pub proof fn call_is_answered_for_a_while(state: StateView, client: usize, at: i128, now: i128)
    ensures
        state.after_call(client, at).call_at(now) == if at <= now <= at + CALL_VALID_NANOS {
            Some(client)
        } else {
            None
        },
{
}

/// Of two calls the later one counts.
pub proof fn later_call_counts(state: StateView, first: usize, second: usize, at: i128, then: i128)
    ensures
        state.after_call(first, at).after_call(second, then) == state.after_call(second, then),
{
}

/// A new configuration that can be stored is read back as it was given, with the old password
/// where it came without one.
pub proof fn updated_config_reads_back(state: StateView, new_cfg: ConfigView)
    requires
        config_laws::storable(state.merged(new_cfg)),
    ensures
        config::loadable(config::rendered(state.merged(new_cfg))),
        config::parsed(config::rendered(state.merged(new_cfg))) == state.merged(new_cfg),
        new_cfg.password.len() == 0 ==> state.merged(new_cfg).password == state.cfg.password,
        new_cfg.password.len() > 0 ==> state.merged(new_cfg) == new_cfg,
{
    config_laws::written_config_reads_back(state.merged(new_cfg));
    if new_cfg.password.len() > 0 {
        assert(state.merged(new_cfg) =~= new_cfg);
    }
}

/// Storing the configuration that is handed out, whatever stands for its password, changes
/// nothing but a password that is given.
pub proof fn storing_what_was_handed_out_keeps_it(state: StateView)
    ensures
        state.merged(state.cfg) == state.cfg,
        state.merged(ConfigView { password: Seq::empty(), ..state.cfg }) == state.cfg,
{
    assert(state.merged(state.cfg) =~= state.cfg);
    assert(state.merged(ConfigView { password: Seq::empty(), ..state.cfg }) =~= state.cfg);
}

} // verus!
