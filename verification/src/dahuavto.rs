//! The client of a door station: the state of one connection and every decision it takes.

use crate::digest;
use crate::frame;
use crate::json;
use crate::json::{Json, JsonView, Payload};
use std::collections::HashSet;
use std::time::Duration;
use vstd::prelude::*;
use vstd::string::StringExecFns;

verus! {

broadcast use vstd::std_specs::hash::group_hash_axioms;

/// Seconds between two signs of life where the device names none, and at most.
pub const DEFAULT_KEEPALIVEINTERVAL: u32 = 60;

/// Seconds to wait for the answer to a request.
pub const RESPONSE_TIMEOUT_SECS: u64 = 2;

/// How to reach a device.
#[derive(Debug)]
pub struct ClientConfig {
    pub username: String,
    pub password: String,
    pub user_id: String,
    pub host: String,
    pub port: u16,
    pub connect_timeout: Duration,
}

impl Clone for ClientConfig {
    fn clone(&self) -> (r: Self)
        ensures
            r.username@ == self.username@,
            r.password@ == self.password@,
            r.user_id@ == self.user_id@,
            r.host@ == self.host@,
            r.port == self.port,
            r.connect_timeout == self.connect_timeout,
    {
        ClientConfig {
            username: self.username.clone(),
            password: self.password.clone(),
            user_id: self.user_id.clone(),
            host: self.host.clone(),
            port: self.port,
            connect_timeout: self.connect_timeout,
        }
    }
}

#[derive(Debug)]
pub enum ClientError {
    ConnectionFailed,
    ProtocolError,
    LoginFailed,
    Timeout,
    SerializationError,
    IoError(String),
}

pub enum ErrorView {
    ConnectionFailed,
    ProtocolError,
    LoginFailed,
    Timeout,
    SerializationError,
    IoError(Seq<char>),
}

impl View for ClientError {
    type V = ErrorView;

    open spec fn view(&self) -> ErrorView {
        match *self {
            ClientError::ConnectionFailed => ErrorView::ConnectionFailed,
            ClientError::ProtocolError => ErrorView::ProtocolError,
            ClientError::LoginFailed => ErrorView::LoginFailed,
            ClientError::Timeout => ErrorView::Timeout,
            ClientError::SerializationError => ErrorView::SerializationError,
            ClientError::IoError(reason) => ErrorView::IoError(reason@),
        }
    }
}

/// The text that is shown for an error.
pub open spec fn error_message(e: ErrorView) -> Seq<char> {
    match e {
        ErrorView::ConnectionFailed => "连接失败"@,
        ErrorView::ProtocolError => "协议错误"@,
        ErrorView::LoginFailed => "登录失败"@,
        ErrorView::Timeout => "超时"@,
        ErrorView::SerializationError => "序列化错误"@,
        ErrorView::IoError(reason) => "IO错误: "@ + reason,
    }
}

impl ClientError {
    /// The text that is shown for the error.
    pub fn message(&self) -> (r: String)
        ensures
            r@ == error_message(self@),
    {
        match self {
            ClientError::ConnectionFailed => "连接失败".to_owned(),
            ClientError::ProtocolError => "协议错误".to_owned(),
            ClientError::LoginFailed => "登录失败".to_owned(),
            ClientError::Timeout => "超时".to_owned(),
            ClientError::SerializationError => "序列化错误".to_owned(),
            ClientError::IoError(reason) => {
                let mut r = "IO错误: ".to_owned();
                r.append(reason.as_str());
                r
            },
        }
    }

    pub(crate) fn io(reason: &str) -> (r: ClientError)
        ensures
            r@ == ErrorView::IoError(reason@),
    {
        ClientError::IoError(reason.to_owned())
    }
}

/// A message from a device.
#[derive(Debug)]
pub struct ReceiveRes {
    pub method: Option<String>,
    pub params: Option<Payload>,
    pub session: Option<u32>,
    pub id: Option<u32>,
    /// The members of the error object.
    pub error: Option<Vec<(String, Payload)>>,
    pub result: Option<Payload>,
}

/// What a message's parameters say of a login.
#[derive(Debug)]
pub struct ReceiveParams {
    pub random: Option<String>,
    pub realm: Option<String>,
    pub keep_alive_interval: Option<u32>,
}

/// The state of one client.
#[derive(Debug)]
pub struct DahuaVTOClient {
    config: ClientConfig,
    request_id: u32,
    session_id: u32,
    connected: bool,
    writer: bool,
    pending: HashSet<u32>,
}

pub struct ClientView {
    pub config: ClientConfig,
    /// The number of the last request.
    pub request_id: u32,
    /// The session that the device gave; 0 where it has given none.
    pub session_id: u32,
    pub connected: bool,
    /// Whether there is a stream to write to.
    pub writer: bool,
    /// The requests whose answers are waited for.
    pub pending: Set<u32>,
}

impl View for DahuaVTOClient {
    type V = ClientView;

    closed spec fn view(&self) -> ClientView {
        ClientView {
            config: self.config,
            request_id: self.request_id,
            session_id: self.session_id,
            connected: self.connected,
            writer: self.writer,
            pending: self.pending@,
        }
    }
}

/// What became of the attempt to open the stream.
#[derive(Debug)]
pub enum Connection {
    Opened,
    Refused,
    TimedOut,
}

/// What came of reading from the stream.
#[derive(Debug)]
pub enum Received {
    /// The stream has ended.
    Closed,
    Data(Vec<u8>),
    Failed,
}

/// A request that is to be written.
#[derive(Debug)]
pub struct Request {
    pub id: u32,
    pub bytes: Vec<u8>,
    /// Whether an answer is waited for.
    pub waits: bool,
}

/// What came of waiting for an answer.
#[derive(Debug)]
pub enum Reply {
    Received(ReceiveRes),
    Closed,
    TimedOut,
}

/// To whom a received message goes.
#[derive(Debug)]
pub enum Route {
    /// To the one who waits for this request's answer; `must` says that it is an error where it
    /// cannot be handed over.
    Deliver { id: u32, must: bool },
    /// To nobody.
    Nobody,
}

/// The number of the request after `id`.
pub open spec fn next_id(id: u32) -> u32 {
    if id == u32::MAX {
        0
    } else {
        (id + 1) as u32
    }
}

/// A message with its request's number, and with the session where there is one.
pub open spec fn addressed(message: JsonView, id: u32, session: u32) -> JsonView {
    let numbered = message->Object_0.insert("id"@, JsonView::Int(id as int));
    JsonView::Object(
        if session > 0 {
            numbered.insert("session"@, JsonView::Int(session as int))
        } else {
            numbered
        },
    )
}

/// The bytes of a request.
pub open spec fn request_bytes(message: JsonView, id: u32, session: u32) -> Seq<u8> {
    frame::packet(session, id, json::json_bytes(addressed(message, id, session)))
}

/// Whether the error object of a message holds a number as its code.
pub open spec fn has_code(error: Seq<(String, Payload)>) -> bool {
    json::member(error, "code"@) matches Some(code) && json::is_number(code)
}

/// The object with the given method and parameters.
pub open spec fn call(method: Seq<char>, params: Map<Seq<char>, JsonView>) -> JsonView {
    JsonView::Object(
        Map::<Seq<char>, JsonView>::empty().insert("method"@, JsonView::Text(method)).insert(
            "params"@,
            JsonView::Object(params),
        ),
    )
}

pub open spec fn no_params() -> Map<Seq<char>, JsonView> {
    Map::empty()
}

/// The first login message: it asks for a challenge.
pub open spec fn login_request() -> JsonView {
    call(
        "global.login"@,
        no_params().insert("clientType"@, JsonView::Text(""@)).insert(
            "ipAddr"@,
            JsonView::Text("(null)"@),
        ).insert("loginType"@, JsonView::Text("Direct"@)),
    )
}

/// The second login message: it answers the challenge.
pub open spec fn login_answer(username: Seq<char>, hash: Seq<char>, session: u32) -> JsonView {
    JsonView::Object(
        call(
            "global.login"@,
            no_params().insert("userName"@, JsonView::Text(username)).insert(
                "password"@,
                JsonView::Text(hash),
            ).insert("clientType"@, JsonView::Text(""@)).insert(
                "ipAddr"@,
                JsonView::Text("(null)"@),
            ).insert("loginType"@, JsonView::Text("Direct"@)),
        )->Object_0.insert("session"@, JsonView::Int(session as int)),
    )
}

/// The sign of life.
pub open spec fn keep_alive(interval: u32, session: u32) -> JsonView {
    JsonView::Object(
        call(
            "global.keepAlive"@,
            no_params().insert("timeout"@, JsonView::Int(interval as int)).insert(
                "action"@,
                JsonView::Bool(true),
            ),
        )->Object_0.insert("session"@, JsonView::Int(session as int)),
    )
}

/// The message that ends the current call.
pub open spec fn hang_up() -> JsonView {
    call("console.runCmd"@, no_params().insert("command"@, JsonView::Text("hc"@)))
}

/// The message that asks for an access control object.
pub open spec fn create_access_control() -> JsonView {
    call(
        "accessControl.factory.instance"@,
        no_params().insert("channel"@, JsonView::Int(0)),
    )
}

/// The message that opens the door.
pub open spec fn unlock(object: i64, short_number: Seq<char>) -> JsonView {
    JsonView::Object(
        call(
            "accessControl.openDoor"@,
            no_params().insert("DoorIndex"@, JsonView::Int(0)).insert(
                "ShortNumber"@,
                JsonView::Text(short_number),
            ),
        )->Object_0.insert("object"@, JsonView::Int(object as int)),
    )
}

/// The message that gives an access control object back.
pub open spec fn destroy_access_control(object: i64) -> JsonView {
    JsonView::Object(
        Map::<Seq<char>, JsonView>::empty().insert(
            "method"@,
            JsonView::Text("accessControl.destroy"@),
        ).insert("object"@, JsonView::Int(object as int)),
    )
}

/// The message that asks for an event manager.
pub open spec fn create_event_manager() -> JsonView {
    call("eventManager.factory.instance"@, no_params())
}

/// The message that subscribes to every event.
pub open spec fn attach_events() -> JsonView {
    call(
        "eventManager.attach"@,
        no_params().insert("codes"@, JsonView::Array(seq![JsonView::Text("All"@)])),
    )
}

/// The names of the members of the message that opens the door differ.
pub proof fn lemma_door_members()
    ensures
        "method"@ != "params"@,
        "method"@ != "object"@,
        "params"@ != "object"@,
        "DoorIndex"@ != "ShortNumber"@,
{
    reveal_strlit("method");
    reveal_strlit("params");
    reveal_strlit("object");
    reveal_strlit("DoorIndex");
    reveal_strlit("ShortNumber");
    assert("method"@[0] == 'm' && "params"@[0] == 'p' && "object"@[0] == 'o');
    assert("DoorIndex"@[0] == 'D' && "ShortNumber"@[0] == 'S');
}

fn method_call(method: &str, params: Json) -> (r: Json)
    requires
        params.view() is Object,
    ensures
        r.view() == call(method@, params.view()->Object_0),
{
    Json::object().with("method", Json::text(method)).with("params", params)
}

/// The client once something came of reading from its stream.
pub open spec fn after_read(client: ClientView, received: Received) -> ClientView {
    if received is Closed {
        ClientView { connected: false, pending: Set::empty(), ..client }
    } else {
        client
    }
}

/// What was received and not yet taken out, once something came of reading.
pub open spec fn gathered(chunk: Seq<u8>, received: Received) -> Seq<u8> {
    match received {
        Received::Data(bytes) => chunk + bytes@,
        _ => chunk,
    }
}

/// The client once its connection was given up.
pub open spec fn after_close(client: ClientView) -> ClientView {
    ClientView { connected: false, writer: false, pending: Set::empty(), ..client }
}

/// What waiting for an answer came to.
pub open spec fn answer_of(reply: Reply) -> Result<ReceiveRes, ErrorView> {
    match reply {
        Reply::Received(message) => Ok(message),
        Reply::Closed => Err(ErrorView::IoError("Response channel closed unexpectedly"@)),
        Reply::TimedOut => Err(ErrorView::Timeout),
    }
}

/// Seconds to let pass between two signs of life.
pub open spec fn period_of(interval: u32) -> u64 {
    if interval < DEFAULT_KEEPALIVEINTERVAL {
        interval as u64
    } else {
        DEFAULT_KEEPALIVEINTERVAL as u64
    }
}

/// The next sign of life of a client.
pub open spec fn sign_of_life(client: ClientView, interval: u32) -> Option<JsonView> {
    if client.connected {
        Some(keep_alive(interval, client.session_id))
    } else {
        None
    }
}

/// What keeps a client from sending.
pub open spec fn unsendable(client: ClientView) -> Option<ErrorView> {
    if !client.connected {
        Some(ErrorView::ConnectionFailed)
    } else if !client.writer {
        Some(ErrorView::IoError("TCP writer not initialized"@))
    } else {
        None
    }
}

/// The client once a request was made.
pub open spec fn after_send(client: ClientView, response_expected: bool) -> ClientView {
    let id = next_id(client.request_id);
    ClientView {
        request_id: id,
        pending: if client.connected && response_expected {
            client.pending.insert(id)
        } else {
            client.pending
        },
        ..client
    }
}

/// The client once it waits for the answer to a request no more.
pub open spec fn after_answer(client: ClientView, id: u32) -> ClientView {
    ClientView { pending: client.pending.remove(id), ..client }
}

/// To whom an answer to a request goes.
pub open spec fn answer_route(client: ClientView, id: Option<u32>) -> Route {
    match id {
        Some(id) => if client.pending.contains(id) {
            Route::Deliver { id, must: false }
        } else {
            Route::Nobody
        },
        None => Route::Nobody,
    }
}

/// To whom a message goes.
pub open spec fn route_of(client: ClientView, message: ReceiveRes) -> Result<Route, ErrorView> {
    match message.error {
        Some(error) => if !has_code(error@) {
            Err(ErrorView::LoginFailed)
        } else if client.pending.contains(client.request_id) {
            Ok(Route::Deliver { id: client.request_id, must: true })
        } else {
            Err(ErrorView::ProtocolError)
        },
        None => Ok(answer_route(client, message.id)),
    }
}

impl DahuaVTOClient {
    /// A client that is not connected waits for no answer, and one that is connected has a stream
    /// to write to.
    pub closed spec fn wf(&self) -> bool {
        &&& !self.connected ==> self.pending@ == Set::<u32>::empty()
        &&& self.connected ==> self.writer
    }

    /// A client that is not connected waits for no answer, and one that is connected has a stream
    /// to write to.
    pub proof fn connection_is_whole(&self)
        requires
            self.wf(),
        ensures
            !self@.connected ==> self@.pending == Set::<u32>::empty(),
            self@.connected ==> self@.writer,
    {
    }

    pub fn new(config: ClientConfig) -> (r: Self)
        ensures
            r.wf(),
            r@ == (ClientView {
                config,
                request_id: 0,
                session_id: 0,
                connected: false,
                writer: false,
                pending: Set::empty(),
            }),
    {
        DahuaVTOClient {
            config,
            request_id: 0,
            session_id: 0,
            connected: false,
            writer: false,
            pending: HashSet::new(),
        }
    }

    /// How its device is reached.
    pub fn config(&self) -> (r: &ClientConfig)
        ensures
            *r == self@.config,
    {
        &self.config
    }

    pub fn is_connected(&self) -> (r: bool)
        ensures
            r == self@.connected,
    {
        self.connected
    }

    /// Takes note of the attempt to open the stream. Where it is open, the message that asks
    /// for a challenge is to be sent.
    pub fn connect(&mut self, outcome: Connection) -> (r: Result<Json, ClientError>)
        requires
            old(self).wf(),
        ensures
            final(self).wf(),
            match outcome {
                Connection::Opened => r matches Ok(message) && message.view() == login_request()
                    && final(self)@ == (ClientView { connected: true, writer: true, ..old(self)@ }),
                Connection::Refused => r matches Err(e) && e@ == ErrorView::ConnectionFailed
                    && final(self)@ == old(self)@,
                Connection::TimedOut => r matches Err(e) && e@ == ErrorView::Timeout
                    && final(self)@ == old(self)@,
            },
    {
        match outcome {
            Connection::Opened => {
                self.writer = true;
                self.connected = true;
                let params = Json::object().with("clientType", Json::text("")).with(
                    "ipAddr",
                    Json::text("(null)"),
                ).with("loginType", Json::text("Direct"));
                Ok(method_call("global.login", params))
            },
            Connection::Refused => Err(ClientError::ConnectionFailed),
            Connection::TimedOut => Err(ClientError::Timeout),
        }
    }

    /// The connection has ended: nobody waits any more.
    fn disconnected(&mut self)
        ensures
            final(self).wf(),
            final(self)@ == (ClientView {
                connected: false,
                pending: Set::empty(),
                ..old(self)@
            }),
    {
        self.connected = false;
        self.pending.clear();
    }

    /// Takes note of what came of reading from the stream, and says whether it has not ended.
    /// Received bytes are added to `chunk`. A failed read ends nothing.
    pub fn handle_connection(&mut self, chunk: &mut Vec<u8>, received: Received) -> (r: bool)
        requires
            old(self).wf(),
        ensures
            final(self).wf(),
            r == !(received is Closed),
            final(self)@ == after_read(old(self)@, received),
            final(chunk)@ == gathered(old(chunk)@, received),
            final(self)@ == if r {
                old(self)@
            } else {
                ClientView { connected: false, pending: Set::empty(), ..old(self)@ }
            },
            final(chunk)@ == match received {
                Received::Data(bytes) => old(chunk)@ + bytes@,
                _ => old(chunk)@,
            },
    {
        match received {
            Received::Closed => {
                self.disconnected();
                false
            },
            Received::Data(bytes) => {
                let mut bytes = bytes;
                chunk.append(&mut bytes);
                true
            },
            Received::Failed => true,
        }
    }

    /// The next packet in what was received: `None` where it is not whole yet.
    pub fn process_data(chunk: &Vec<u8>) -> (r: Result<Option<frame::Packet>, ClientError>)
        requires
            frame::countable(chunk@),
        ensures
            match frame::decoded(chunk@) {
                frame::Decoded::Incomplete => r matches Ok(None),
                frame::Decoded::Foreign => r matches Err(e) && e@ == ErrorView::ProtocolError,
                frame::Decoded::Packet { body, tail } => r matches Ok(Some(p)) && p.body@ == body
                    && p.tail == tail,
            },
    {
        match frame::next_packet(chunk) {
            Ok(p) => Ok(p),
            Err(_) => Err(ClientError::ProtocolError),
        }
    }

    /// Takes a packet out of what was received, and says to whom the message in it goes. A packet
    /// whose body is no message, as `parsed` tells, stays where it is.
    pub fn take_packet(
        &self,
        chunk: &mut Vec<u8>,
        packet: &frame::Packet,
        parsed: Result<ReceiveRes, ()>,
    ) -> (r: Result<(ReceiveRes, Route), ClientError>)
        requires
            frame::decoded(old(chunk)@) == (frame::Decoded::Packet {
                body: packet.body@,
                tail: packet.tail as int,
            }),
        ensures
            match parsed {
                Err(_) => {
                    &&& final(chunk)@ == old(chunk)@
                    &&& r matches Err(e)
                    &&& e@ == ErrorView::SerializationError
                },
                Ok(message) => {
                    &&& final(chunk)@ == old(chunk)@.skip(packet.tail as int)
                    &&& match route_of(self@, message) {
                        Ok(route) => r == Ok::<(ReceiveRes, Route), ClientError>((message, route)),
                        Err(reason) => r is Err && r->Err_0@ == reason,
                    }
                },
            },
    {
        let message = match parsed {
            Ok(message) => message,
            Err(_) => return Err(ClientError::SerializationError),
        };
        frame::drop_packet(chunk, packet.tail);
        match self.receive(&message) {
            Ok(route) => Ok((message, route)),
            Err(e) => Err(e),
        }
    }

    /// To whom a message goes. One that reports an error with a code goes to the last request;
    /// any other goes to the request that it names.
    pub fn receive(&self, message: &ReceiveRes) -> (r: Result<Route, ClientError>)
        ensures
            match route_of(self@, *message) {
                Ok(route) => r == Ok::<Route, ClientError>(route),
                Err(reason) => r is Err && r->Err_0@ == reason,
            },
    {
        match &message.error {
            Some(error) => {
                let coded = match json::find_member(error, "code") {
                    Some(code) => code.is_number(),
                    None => false,
                };
                if !coded {
                    Err(ClientError::LoginFailed)
                } else if self.pending.contains(&self.request_id) {
                    Ok(Route::Deliver { id: self.request_id, must: true })
                } else {
                    Err(ClientError::ProtocolError)
                }
            },
            None => Ok(self.handle_response(message)),
        }
    }

    /// To whom an answer goes.
    pub fn handle_response(&self, message: &ReceiveRes) -> (r: Route)
        ensures
            r == answer_route(self@, message.id),
    {
        match message.id {
            Some(id) => if self.pending.contains(&id) {
                Route::Deliver { id, must: false }
            } else {
                Route::Nobody
            },
            None => Route::Nobody,
        }
    }

    /// What handing a message over means, by whether it was taken.
    pub fn delivered(must: bool, taken: bool) -> (r: Result<(), ClientError>)
        ensures
            if must && !taken {
                r matches Err(e) && e@ == ErrorView::ProtocolError
            } else {
                r is Ok
            },
    {
        if must && !taken {
            Err(ClientError::ProtocolError)
        } else {
            Ok(())
        }
    }

    /// The answer to a challenge. The parameters of the message that holds the challenge are
    /// `None` where it has none, and an error where they are not of the right form.
    pub fn login(
        &mut self,
        session: Option<u32>,
        params: Option<Result<ReceiveParams, ()>>,
    ) -> (r: Result<Json, ClientError>)
        requires
            old(self).wf(),
        ensures
            final(self).wf(),
            final(self)@ == match (params, session) {
                (Some(Ok(_)), Some(id)) => ClientView { session_id: id, ..old(self)@ },
                _ => old(self)@,
            },
            match params {
                None => r matches Err(e) && e@ == ErrorView::ProtocolError,
                Some(Err(_)) => r matches Err(e) && e@ == ErrorView::SerializationError,
                Some(Ok(p)) => match (p.random, p.realm) {
                    (Some(random), Some(realm)) => r matches Ok(message) && message.view()
                        == login_answer(
                        old(self)@.config.username@,
                        digest::password_hash(
                            old(self)@.config.username@,
                            old(self)@.config.password@,
                            random@,
                            realm@,
                        ),
                        final(self)@.session_id,
                    ),
                    _ => r matches Err(e) && e@ == ErrorView::ProtocolError,
                },
            },
    {
        let params = match params {
            None => return Err(ClientError::ProtocolError),
            Some(Err(_)) => return Err(ClientError::SerializationError),
            Some(Ok(p)) => p,
        };
        if let Some(id) = session {
            self.session_id = id;
        }
        let random = match params.random {
            Some(random) => random,
            None => return Err(ClientError::ProtocolError),
        };
        let realm = match params.realm {
            Some(realm) => realm,
            None => return Err(ClientError::ProtocolError),
        };
        let hash = digest::hashed_password(
            self.config.username.as_str(),
            self.config.password.as_str(),
            random.as_str(),
            realm.as_str(),
        );
        let params = Json::object().with(
            "userName",
            Json::text(self.config.username.as_str()),
        ).with("password", Json::Text(hash)).with("clientType", Json::text("")).with(
            "ipAddr",
            Json::text("(null)"),
        ).with("loginType", Json::text("Direct"));
        Ok(method_call("global.login", params).with("session", Json::Int(self.session_id as i64)))
    }

    /// Seconds between two signs of life, from the parameters of the device's answer to the
    /// login: `None` where it has none or they are not of the right form.
    pub fn keep_alive_interval(params: Option<ReceiveParams>) -> (r: u32)
        ensures
            r == match params {
                Some(p) => match p.keep_alive_interval {
                    Some(interval) => interval,
                    None => DEFAULT_KEEPALIVEINTERVAL,
                },
                None => DEFAULT_KEEPALIVEINTERVAL,
            },
    {
        match params {
            Some(p) => match p.keep_alive_interval {
                Some(interval) => interval,
                None => DEFAULT_KEEPALIVEINTERVAL,
            },
            None => DEFAULT_KEEPALIVEINTERVAL,
        }
    }

    /// Seconds to let pass between two signs of life.
    pub fn heartbeat_period(interval: u32) -> (r: u64)
        ensures
            r == period_of(interval),
            r == if interval < DEFAULT_KEEPALIVEINTERVAL {
                interval
            } else {
                DEFAULT_KEEPALIVEINTERVAL
            },
    {
        if interval < DEFAULT_KEEPALIVEINTERVAL {
            interval as u64
        } else {
            DEFAULT_KEEPALIVEINTERVAL as u64
        }
    }

    /// The next sign of life; `None` where the connection has ended and no more are due.
    pub fn start_heartbeat(&self, interval: u32) -> (r: Option<Json>)
        ensures
            match r {
                Some(message) => sign_of_life(self@, interval) == Some(message.view()),
                None => sign_of_life(self@, interval) is None,
            },
            match r {
                Some(message) => self@.connected && message.view() == keep_alive(
                    interval,
                    self@.session_id,
                ),
                None => !self@.connected,
            },
    {
        if !self.connected {
            return None;
        }
        let params = Json::object().with("timeout", Json::Int(interval as i64)).with(
            "action",
            Json::Bool(true),
        );
        Some(
            method_call("global.keepAlive", params).with(
                "session",
                Json::Int(self.session_id as i64),
            ),
        )
    }

    /// Takes note of whether a sign of life was answered; where not, the connection is closed.
    pub fn heartbeat_answered(&mut self, answered: bool)
        requires
            old(self).wf(),
        ensures
            final(self).wf(),
            final(self)@ == if answered {
                old(self)@
            } else {
                after_close(old(self)@)
            },
            final(self)@ == if answered {
                old(self)@
            } else {
                ClientView {
                    connected: false,
                    writer: false,
                    pending: Set::empty(),
                    ..old(self)@
                }
            },
    {
        if !answered {
            self.close();
        }
    }

    /// The number for the next request.
    pub fn next_request(&mut self) -> (id: u32)
        requires
            old(self).wf(),
        ensures
            final(self).wf(),
            id == next_id(old(self)@.request_id),
            final(self)@ == (ClientView { request_id: id, ..old(self)@ }),
    {
        self.request_id = self.request_id.wrapping_add(1);
        self.request_id
    }

    /// The bytes to be written for a message with this request number.
    pub fn send_recv(&mut self, id: u32, message: &Json, response_expected: bool) -> (r: Result<
        Vec<u8>,
        ClientError,
    >)
        requires
            old(self).wf(),
            message.view() is Object,
        ensures
            final(self).wf(),
            final(self)@ == if old(self)@.connected && response_expected {
                ClientView { pending: old(self)@.pending.insert(id), ..old(self)@ }
            } else {
                old(self)@
            },
            if !old(self)@.connected {
                r matches Err(e) && e@ == ErrorView::ConnectionFailed
            } else if !old(self)@.writer {
                r matches Err(e) && e@ == ErrorView::IoError("TCP writer not initialized"@)
            } else {
                r matches Ok(bytes) && bytes@ == request_bytes(
                    message.view(),
                    id,
                    old(self)@.session_id,
                )
            },
    {
        if !self.connected {
            return Err(ClientError::ConnectionFailed);
        }
        let session = self.session_id;
        let mut value = message.to_value();
        json::set_member(&mut value, "id", json::int_value(id as i64));
        if session > 0 {
            json::set_member(&mut value, "session", json::int_value(session as i64));
        }
        let data = match json::to_vec(&value) {
            Ok(data) => data,
            Err(_) => return Err(ClientError::SerializationError),
        };
        if response_expected {
            self.pending.insert(id);
        }
        if !self.writer {
            return Err(ClientError::io("TCP writer not initialized"));
        }
        let mut bytes = frame::make_header(session, id, data.len());
        let mut data = data;
        bytes.append(&mut data);
        Ok(bytes)
    }

    /// The request to be written for a message.
    pub fn send(&mut self, message: &Json, response_expected: bool) -> (r: Result<
        Request,
        ClientError,
    >)
        requires
            old(self).wf(),
            message.view() is Object,
        ensures
            final(self).wf(),
            final(self)@ == after_send(old(self)@, response_expected),
            match unsendable(old(self)@) {
                Some(reason) => r is Err && r->Err_0@ == reason,
                None => r is Ok,
            },
            if !old(self)@.connected {
                r matches Err(e) && e@ == ErrorView::ConnectionFailed
            } else if !old(self)@.writer {
                r matches Err(e) && e@ == ErrorView::IoError("TCP writer not initialized"@)
            } else {
                r matches Ok(request) && request.id == next_id(old(self)@.request_id)
                    && request.waits == response_expected && request.bytes@ == request_bytes(
                    message.view(),
                    request.id,
                    old(self)@.session_id,
                )
            },
    {
        let id = self.next_request();
        match self.send_recv(id, message, response_expected) {
            Ok(bytes) => Ok(Request { id, bytes, waits: response_expected }),
            Err(e) => Err(e),
        }
    }

    /// Takes note of what came of waiting for an answer.
    pub fn settle(&mut self, id: u32, reply: Reply) -> (r: Result<ReceiveRes, ClientError>)
        requires
            old(self).wf(),
        ensures
            final(self).wf(),
            final(self)@ == after_answer(old(self)@, id),
            match answer_of(reply) {
                Ok(message) => r == Ok::<ReceiveRes, ClientError>(message),
                Err(reason) => r is Err && r->Err_0@ == reason,
            },
            match reply {
                Reply::Received(message) => r == Ok::<ReceiveRes, ClientError>(message),
                Reply::Closed => r matches Err(e) && e@ == ErrorView::IoError(
                    "Response channel closed unexpectedly"@,
                ),
                Reply::TimedOut => r matches Err(e) && e@ == ErrorView::Timeout,
            },
    {
        self.forget(id);
        match reply {
            Reply::Received(message) => Ok(message),
            Reply::Closed => Err(ClientError::io("Response channel closed unexpectedly")),
            Reply::TimedOut => Err(ClientError::Timeout),
        }
    }

    /// Nobody waits for this request's answers any more.
    pub(crate) fn forget(&mut self, id: u32)
        requires
            old(self).wf(),
        ensures
            final(self).wf(),
            final(self)@ == (ClientView { pending: old(self)@.pending.remove(id), ..old(self)@ }),
    {
        self.pending.remove(&id);
        proof {
            if !self.connected {
                assert(self.pending@ =~= Set::<u32>::empty());
            }
        }
    }

    /// The connection is given up: nobody waits any more and nothing can be written.
    pub fn close(&mut self)
        requires
            old(self).wf(),
        ensures
            final(self).wf(),
            final(self)@ == after_close(old(self)@),
            final(self)@ == (ClientView {
                connected: false,
                writer: false,
                pending: Set::empty(),
                ..old(self)@
            }),
    {
        self.disconnected();
        self.writer = false;
    }
}

/// The number of the request `n` requests after `id`.
pub open spec fn id_after(id: u32, n: nat) -> u32
    decreases n,
{
    if n == 0 {
        id
    } else {
        next_id(id_after(id, (n - 1) as nat))
    }
}

proof fn lemma_id_after(id: u32, n: nat)
    requires
        n <= u32::MAX,
    ensures
        id_after(id, n) == if id + n <= u32::MAX {
            id + n
        } else {
            id + n - u32::MAX - 1
        },
    decreases n,
{
    if n > 0 {
        lemma_id_after(id, (n - 1) as nat);
    }
}

/// Requests share a number only where all the numbers were given out between them.
pub proof fn request_numbers_differ(id: u32, m: nat, n: nat)
    requires
        m < n <= u32::MAX,
    ensures
        id_after(id, m) != id_after(id, n),
{
    lemma_id_after(id, m);
    lemma_id_after(id, n);
}

/// Whoever is handed a message waits for one.
pub proof fn messages_go_to_who_waits(client: ClientView, message: ReceiveRes)
    requires
        route_of(client, message) matches Ok(route) && route is Deliver,
    ensures
        client.pending.contains(route_of(client, message)->Ok_0->id),
{
}

/// The answer to a request goes to that request, as long as it is waited for.
pub proof fn answer_goes_to_its_request(client: ClientView, message: ReceiveRes)
    requires
        client.connected,
        message.error is None,
        message.id == Some(next_id(client.request_id)),
    ensures
        route_of(after_send(client, true), message) == Ok::<Route, ErrorView>(
            Route::Deliver { id: next_id(client.request_id), must: false },
        ),
        route_of(
            after_answer(after_send(client, true), next_id(client.request_id)),
            message,
        ) == Ok::<Route, ErrorView>(Route::Nobody),
{
}

/// A request that is answered or given up leaves nothing behind but its number.
pub proof fn answered_request_leaves_its_number(client: ClientView)
    requires
        !client.pending.contains(next_id(client.request_id)),
    ensures
        after_answer(after_send(client, true), next_id(client.request_id)) == (ClientView {
            request_id: next_id(client.request_id),
            ..client
        }),
{
    let id = next_id(client.request_id);
    assert(client.pending.insert(id).remove(id) =~= client.pending);
    assert(client.pending.remove(id) =~= client.pending);
}

/// The bytes of a request are read back as one packet that holds its message.
pub proof fn request_reads_back(message: JsonView, id: u32, session: u32)
    requires
        json::json_bytes(addressed(message, id, session)).len() <= usize::MAX,
    ensures
        frame::decoded(request_bytes(message, id, session)) == (frame::Decoded::Packet {
            body: json::json_bytes(addressed(message, id, session)),
            tail: request_bytes(message, id, session).len() as int,
        }),
{
    let body = json::json_bytes(addressed(message, id, session));
    let none = Seq::<u8>::empty();
    frame::sent_packet_reads_back(session, id, body, none);
    frame::lemma_header_len(session, id, body.len());
    assert(request_bytes(message, id, session) + none =~= request_bytes(message, id, session));
}

} // verus!
