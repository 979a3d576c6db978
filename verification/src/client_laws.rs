//! What a client says to its device and makes of what the device says, stated member by member and
//! step by step.

use crate::dahuavto;
use crate::dahuavto::{
    ClientError, ClientView, Connection, ErrorView, ReceiveRes, Received, Reply, Route,
};
use crate::digest;
use crate::door;
use crate::door::{DoorEvent, DoorStage, DoorTask};
use crate::events;
use crate::events::{Happening, Stage, Task};
use crate::frame;
use crate::json;
use crate::json::{JsonView, Payload};
use crate::session;
use vstd::prelude::*;

verus! {

/// The messages of the login: the first holds neither name nor password, the second the name, the
/// hash and the session.
pub proof fn login_messages_hold_their_members(
    username: Seq<char>,
    hash: Seq<char>,
    number: u32,
)
    ensures
        dahuavto::login_request() == JsonView::Object(
            map![
                "method"@ => JsonView::Text("global.login"@),
                "params"@ => JsonView::Object(map![
                    "clientType"@ => JsonView::Text(""@),
                    "ipAddr"@ => JsonView::Text("(null)"@),
                    "loginType"@ => JsonView::Text("Direct"@),
                ]),
            ],
        ),
        dahuavto::login_answer(username, hash, number) == JsonView::Object(
            map![
                "method"@ => JsonView::Text("global.login"@),
                "params"@ => JsonView::Object(map![
                    "userName"@ => JsonView::Text(username),
                    "password"@ => JsonView::Text(hash),
                    "clientType"@ => JsonView::Text(""@),
                    "ipAddr"@ => JsonView::Text("(null)"@),
                    "loginType"@ => JsonView::Text("Direct"@),
                ]),
                "session"@ => JsonView::Int(number as int),
            ],
        ),
{
}

/// A sign of life names the interval that the device named, and the session.
pub proof fn sign_of_life_holds_its_members(interval: u32, number: u32)
    ensures
        dahuavto::keep_alive(interval, number) == JsonView::Object(
            map![
                "method"@ => JsonView::Text("global.keepAlive"@),
                "params"@ => JsonView::Object(map![
                    "timeout"@ => JsonView::Int(interval as int),
                    "action"@ => JsonView::Bool(true),
                ]),
                "session"@ => JsonView::Int(number as int),
            ],
        ),
{
}

/// The messages about a door: whatever the object and the number, it is the first door that is
/// opened, as that number and through that object.
pub proof fn door_messages_hold_their_members(object: i64, short_number: Seq<char>)
    ensures
        dahuavto::create_access_control() == JsonView::Object(
            map![
                "method"@ => JsonView::Text("accessControl.factory.instance"@),
                "params"@ => JsonView::Object(map!["channel"@ => JsonView::Int(0)]),
            ],
        ),
        dahuavto::unlock(object, short_number) == JsonView::Object(
            map![
                "method"@ => JsonView::Text("accessControl.openDoor"@),
                "object"@ => JsonView::Int(object as int),
                "params"@ => JsonView::Object(map![
                    "DoorIndex"@ => JsonView::Int(0),
                    "ShortNumber"@ => JsonView::Text(short_number),
                ]),
            ],
        ),
        dahuavto::destroy_access_control(object) == JsonView::Object(
            map![
                "method"@ => JsonView::Text("accessControl.destroy"@),
                "object"@ => JsonView::Int(object as int),
            ],
        ),
        dahuavto::hang_up() == JsonView::Object(
            map![
                "method"@ => JsonView::Text("console.runCmd"@),
                "params"@ => JsonView::Object(map!["command"@ => JsonView::Text("hc"@)]),
            ],
        ),
{
    dahuavto::lemma_door_members();
    let params = map![
        "DoorIndex"@ => JsonView::Int(0),
        "ShortNumber"@ => JsonView::Text(short_number),
    ];
    assert(dahuavto::unlock(object, short_number)->Object_0 =~= map![
        "method"@ => JsonView::Text("accessControl.openDoor"@),
        "object"@ => JsonView::Int(object as int),
        "params"@ => JsonView::Object(params),
    ]);
}

/// The messages of a subscription ask for all events.
pub proof fn subscription_messages_hold_their_members()
    ensures
        dahuavto::create_event_manager() == JsonView::Object(
            map![
                "method"@ => JsonView::Text("eventManager.factory.instance"@),
                "params"@ => JsonView::Object(Map::<Seq<char>, JsonView>::empty()),
            ],
        ),
        dahuavto::attach_events() == JsonView::Object(
            map![
                "method"@ => JsonView::Text("eventManager.attach"@),
                "params"@ => JsonView::Object(map![
                    "codes"@ => JsonView::Array(seq![JsonView::Text("All"@)]),
                ]),
            ],
        ),
{
}

/// A message is sent as it is but for the number of its request, and for the session where there
/// is one; in a packet with both in its header.
pub proof fn message_is_sent_as_it_is(
    members: Map<Seq<char>, JsonView>,
    id: u32,
    number: u32,
    key: Seq<char>,
)
    ensures
        ({
            let sent = dahuavto::addressed(JsonView::Object(members), id, number);
            &&& sent is Object
            &&& sent->Object_0.contains_key("id"@)
            &&& sent->Object_0["id"@] == JsonView::Int(id as int)
            &&& number > 0 ==> sent->Object_0.contains_key("session"@)
                && sent->Object_0["session"@] == JsonView::Int(number as int)
            &&& key != "id"@ && (number == 0 || key != "session"@) ==> {
                &&& sent->Object_0.contains_key(key) == members.contains_key(key)
                &&& sent->Object_0[key] == members[key]
            }
            &&& dahuavto::request_bytes(JsonView::Object(members), id, number) == frame::packet(
                number,
                id,
                json::json_bytes(sent),
            )
        }),
{
    reveal_strlit("id");
    reveal_strlit("session");
    assert("id"@.len() != "session"@.len());
}

/// Requests are numbered one after the other, and the number after the largest is 0.
pub proof fn requests_are_numbered_in_order(id: u32)
    ensures
        dahuavto::next_id(id) as int == (id + 1) % 0x1_0000_0000,
{
}

/// Making a request gives the next number, and only one that waits for its answer, over a
/// connection, is waited for; giving it up touches nothing else.
pub proof fn request_changes_nothing_else(client: ClientView, waits: bool, id: u32, other: u32)
    ensures
        ({
            let after = dahuavto::after_send(client, waits);
            &&& after.request_id as int == (client.request_id + 1) % 0x1_0000_0000
            &&& after.config == client.config
            &&& after.session_id == client.session_id
            &&& after.connected == client.connected
            &&& after.writer == client.writer
            &&& after.pending.contains(other) <==> client.pending.contains(other) || (waits
                && client.connected && other == after.request_id)
        }),
        ({
            let after = dahuavto::after_answer(client, id);
            &&& after.request_id == client.request_id
            &&& after.config == client.config
            &&& after.session_id == client.session_id
            &&& after.connected == client.connected
            &&& after.writer == client.writer
            &&& after.pending.contains(other) <==> client.pending.contains(other) && other != id
        }),
{
}

/// A message that reports no error goes to the request that it names, where that is waited for,
/// and else to nobody. One that reports an error goes to the last request, where the error has a
/// number as its code and that request is waited for, and else it is an error itself.
pub proof fn message_goes_where_it_belongs(client: ClientView, message: ReceiveRes)
    ensures
        match message.error {
            None => dahuavto::route_of(client, message) == Ok::<Route, ErrorView>(
                match message.id {
                    Some(id) => if client.pending.contains(id) {
                        Route::Deliver { id, must: false }
                    } else {
                        Route::Nobody
                    },
                    None => Route::Nobody,
                },
            ),
            Some(error) => dahuavto::route_of(client, message) == match json::member(
                error@,
                "code"@,
            ) {
                Some(Payload::Int(_)) | Some(Payload::Number) => if client.pending.contains(
                    client.request_id,
                ) {
                    Ok(Route::Deliver { id: client.request_id, must: true })
                } else {
                    Err(ErrorView::ProtocolError)
                },
                _ => Err(ErrorView::LoginFailed),
            },
        },
        match message.id {
            Some(id) => dahuavto::answer_route(client, message.id) == if client.pending.contains(
                id,
            ) {
                Route::Deliver { id, must: false }
            } else {
                Route::Nobody
            },
            None => dahuavto::answer_route(client, message.id) == Route::Nobody,
        },
{
}

/// Each error has its own text, and that of an input or output error ends with the reason.
pub proof fn errors_have_their_texts(e: ClientError)
    ensures
        match e {
            ClientError::ConnectionFailed => e@ == ErrorView::ConnectionFailed
                && dahuavto::error_message(e@) == "连接失败"@,
            ClientError::ProtocolError => e@ == ErrorView::ProtocolError && dahuavto::error_message(
                e@,
            ) == "协议错误"@,
            ClientError::LoginFailed => e@ == ErrorView::LoginFailed && dahuavto::error_message(e@)
                == "登录失败"@,
            ClientError::Timeout => e@ == ErrorView::Timeout && dahuavto::error_message(e@)
                == "超时"@,
            ClientError::SerializationError => e@ == ErrorView::SerializationError
                && dahuavto::error_message(e@) == "序列化错误"@,
            ClientError::IoError(reason) => e@ == ErrorView::IoError(reason@)
                && dahuavto::error_message(e@) == "IO错误: "@ + reason@,
        },
{
}

/// Coming to a session: what each outcome leads to. The challenge is answered with the hash of the
/// configured name and password, and no step changes more of the client than it says.
pub proof fn session_takes_its_course(
    before: ClientView,
    stage: session::Stage,
    happening: session::Happening,
    client: ClientView,
    next: session::Stage,
    task: session::Task,
)
    requires
        session::follows(before, stage, happening, client, next, task),
    ensures
        client.config == before.config,
        client.request_id == before.request_id,
        client.pending == before.pending,
        stage is Connecting ==> happening is Tried && client.session_id == before.session_id
            && match happening->Tried_0 {
            Connection::Opened => {
                &&& client.connected && client.writer
                &&& next is Greeting
                &&& task is Send && task->Send_0.view() == dahuavto::login_request()
            },
            Connection::Refused => {
                &&& client == before && next is Ended
                &&& task is Fail && task->Fail_0@ == ErrorView::ConnectionFailed
            },
            Connection::TimedOut => {
                &&& client == before && next is Ended
                &&& task is Fail && task->Fail_0@ == ErrorView::Timeout
            },
        },
        !(stage is Connecting) ==> happening is Answered && client.connected == before.connected
            && client.writer == before.writer,
        !(stage is Connecting) && happening is Answered && happening->Answered_0 is Err ==> client
            == before && next is Ended && task is Fail && task->Fail_0@
            == happening->Answered_0->Err_0@,
        stage is Greeting && happening is Answered && happening->Answered_0 is Ok ==> {
            let answer = happening->Answered_0->Ok_0;
            match answer.params {
                None => client == before && next is Ended && task is Fail && task->Fail_0@
                    == ErrorView::ProtocolError,
                Some(Err(_)) => client == before && next is Ended && task is Fail && task->Fail_0@
                    == ErrorView::SerializationError,
                Some(Ok(params)) => {
                    &&& client.session_id == match answer.session {
                        Some(id) => id,
                        None => before.session_id,
                    }
                    &&& if params.random is Some && params.realm is Some {
                        &&& next is Answering
                        &&& task is Send
                        &&& task->Send_0.view() == dahuavto::login_answer(
                            before.config.username@,
                            digest::password_hash(
                                before.config.username@,
                                before.config.password@,
                                params.random->Some_0@,
                                params.realm->Some_0@,
                            ),
                            client.session_id,
                        )
                    } else {
                        next is Ended && task is Fail && task->Fail_0@ == ErrorView::ProtocolError
                    }
                },
            }
        },
        stage is Answering && happening is Answered && happening->Answered_0 is Ok ==> {
            let params = happening->Answered_0->Ok_0.params;
            &&& client == before
            &&& next is Ended
            &&& task is Beat
            &&& task->Beat_0 == if params is Some && params->Some_0 is Ok
                && params->Some_0->Ok_0.keep_alive_interval is Some {
                params->Some_0->Ok_0.keep_alive_interval->Some_0
            } else {
                60
            }
        },
        !(stage is Ended),
{
}

/// Coming to a session waits for the outcome of its last task, whatever that is.
pub proof fn session_waits_for_every_outcome(
    stage: session::Stage,
    happening: session::Happening,
)
    ensures
        session::awaits(stage, happening) <==> ((stage is Connecting && happening is Tried) || ((
        stage is Greeting || stage is Answering) && happening is Answered)),
{
}

/// Of events one after the other as many are calls as of their parts.
pub proof fn calls_add_up(a: Seq<Payload>, b: Seq<Payload>, user_id: Seq<char>)
    ensures
        events::calls(a + b, user_id) == events::calls(a, user_id) + events::calls(b, user_id),
        events::calls(Seq::<Payload>::empty(), user_id) == 0,
    decreases b.len(),
{
    if b.len() == 0 {
        assert(a + b =~= a);
    } else {
        calls_add_up(a, b.drop_last(), user_id);
        assert((a + b).drop_last() =~= a + b.drop_last());
        assert((a + b).last() == b.last());
    }
}

/// An event is a call for a user exactly where its code is the text `Invite` and its data name
/// that very user, letter for letter; data that name nobody name the user `Unknown`.
pub proof fn call_is_for_whom_it_names(event: Payload, user_id: Seq<char>)
    ensures
        events::calls(seq![event], user_id) == match (
            json::field(event, "Code"@),
            json::field(event, "Data"@),
        ) {
            (Some(Payload::Text(code)), Some(data)) => if code@ != "Invite"@ {
                0nat
            } else {
                match json::field(data, "UserID"@) {
                    Some(Payload::Text(id)) => if id@ == user_id {
                        1nat
                    } else {
                        0nat
                    },
                    _ => if "Unknown"@ == user_id {
                        1nat
                    } else {
                        0nat
                    },
                }
            },
            _ => 0nat,
        },
{
    let one = seq![event];
    assert(one.drop_last() =~= Seq::<Payload>::empty());
    assert(one.last() == event);
    assert(events::calls(one.drop_last(), user_id) == 0);
}

/// Two users are told of the same call only where they are the same user.
pub proof fn call_is_for_one_user(event: Payload, u: Seq<char>, v: Seq<char>)
    requires
        events::calls(seq![event], u) > 0,
        events::calls(seq![event], v) > 0,
    ensures
        u == v,
{
    call_is_for_whom_it_names(event, u);
    call_is_for_whom_it_names(event, v);
}

/// A message reports events exactly where its method says so, and then those of its list; a
/// message with another method, or none, reports no events.
pub proof fn events_are_those_of_the_list(message: ReceiveRes)
    ensures
        events::reported(message) == match message.method {
            Some(method) => if method@ != "client.notifyEventStream"@ {
                Some(Seq::<Payload>::empty())
            } else {
                match message.params {
                    Some(params) => match json::field(params, "eventList"@) {
                        Some(Payload::Array(list)) => Some(list@),
                        _ => None,
                    },
                    None => None,
                }
            },
            None => Some(Seq::<Payload>::empty()),
        },
{
}

/// A subscription: what each happening leads to.
pub proof fn subscription_takes_its_course(
    stage: Stage,
    happening: Happening,
    user_id: Seq<char>,
    is_callback: bool,
    next: Stage,
    task: Task,
)
    requires
        events::follows(stage, happening, user_id, is_callback, next, task),
    ensures
        stage is Creating && happening is Sent ==> next is Attaching && task is Send && task->waits
            && task->message.view() == dahuavto::attach_events(),
        stage is Attaching && happening is Sent ==> next is Listening && task is Listen,
        (stage is Creating || stage is Attaching) && happening is NotSent ==> next is Ended && task
            is Finish && task->Finish_0 is Err && task->Finish_0->Err_0
            == happening->NotSent_0,
        stage is Listening && happening is Message ==> match events::reported(
            happening->Message_0,
        ) {
            Some(list) => if is_callback && events::calls(list, user_id) > 0 {
                &&& next is Announcing
                &&& next->Announcing_0 == (events::calls(list, user_id) - 1) as usize
                &&& task is Announce
            } else {
                next is Listening && task is Listen
            },
            None => next is Ended && task is Finish && task->Finish_0 is Ok,
        },
        stage is Listening && happening is Silence ==> next is Ended && task is Finish
            && task->Finish_0 is Err && task->Finish_0->Err_0@ == ErrorView::IoError(
            "Pending response channel closed"@,
        ),
        stage is Announcing && happening is Announced ==> if stage->Announcing_0 > 0 {
            &&& next is Announcing
            &&& next->Announcing_0 == stage->Announcing_0 - 1
            &&& task is Announce
        } else {
            next is Listening && task is Listen
        },
        stage is Announcing && happening is NotAnnounced ==> next is Ended && task is Finish
            && task->Finish_0 is Err && task->Finish_0->Err_0@ == ErrorView::IoError(
            "Failed to send client to tx"@,
        ),
        !(stage is Ended),
{
}

/// A subscription waits for whatever can become of its last task.
pub proof fn subscription_waits_for_every_outcome(stage: Stage, happening: Happening)
    ensures
        events::awaits(stage, happening) <==> match stage {
            Stage::Creating | Stage::Attaching => happening is Sent || happening is NotSent,
            Stage::Listening => happening is Message || happening is Silence,
            Stage::Announcing(_) => happening is Announced || happening is NotAnnounced,
            Stage::Ended => false,
        },
{
}

/// An answer gives an object only by an integer, and says that a door was opened only by true or
/// by null.
pub proof fn answers_about_a_door_say_what_they_say(answer: Option<ReceiveRes>)
    ensures
        door::object_of(answer) == match answer {
            Some(message) => match message.result {
                Some(Payload::Int(n)) => Some(n),
                _ => None,
            },
            None => None,
        },
        door::opened(answer) is Ok <==> answer is Some && (answer->Some_0.result == Some(
            Payload::Bool(true),
        ) || answer->Some_0.result == Some(Payload::Null)),
        door::opened(answer) is Err ==> door::opened(answer)->Err_0 == ErrorView::IoError(
            if answer is Some && answer->Some_0.result == Some(Payload::Bool(false)) {
                "Open door failed: result is false"@
            } else {
                "Open door failed: invalid response"@
            },
        ),
{
}

/// Opening a door: what each answer leads to, whatever the number to open it as.
pub proof fn door_takes_its_course(
    stage: DoorStage,
    event: DoorEvent,
    short_number: Seq<char>,
    hangs_up: bool,
    next: DoorStage,
    task: DoorTask,
)
    requires
        door::door_follows(stage, event, short_number, hangs_up, next, task),
    ensures
        stage is Creating && event->Answer_0 is Err ==> next is Ended && task is Finish
            && task->Finish_0 is Err && task->Finish_0->Err_0 == event->Answer_0->Err_0,
        stage is Creating && event->Answer_0 is Ok ==> match door::object_of(
            event->Answer_0->Ok_0,
        ) {
            None => next is Ended && task is Finish && task->Finish_0 is Err
                && task->Finish_0->Err_0@ == ErrorView::IoError("Failed to get object ID"@),
            Some(n) => if n == 0 {
                next is Ended && task is Finish && task->Finish_0 is Err && task->Finish_0->Err_0@
                    == ErrorView::IoError("Invalid object ID"@)
            } else {
                &&& next is Opening && next->Opening_0 == n
                &&& task is Send && task->waits
                &&& task->message.view() == dahuavto::unlock(n, short_number)
            },
        },
        stage is Opening ==> {
            &&& next is Releasing
            &&& event->Answer_0 is Err ==> next->Releasing_0 is Err && next->Releasing_0->Err_0@
                == event->Answer_0->Err_0@
            &&& event->Answer_0 is Ok ==> (next->Releasing_0 is Ok <==> door::opened(
                event->Answer_0->Ok_0,
            ) is Ok)
            &&& event->Answer_0 is Ok && next->Releasing_0 is Err ==> next->Releasing_0->Err_0@
                == door::opened(event->Answer_0->Ok_0)->Err_0
            &&& task is Send && !task->waits
            &&& task->message.view() == dahuavto::destroy_access_control(stage->Opening_0)
        },
        stage is Releasing && stage->Releasing_0 is Err ==> next is Ended && task is Finish
            && task->Finish_0 is Err && task->Finish_0->Err_0 == stage->Releasing_0->Err_0,
        stage is Releasing && stage->Releasing_0 is Ok ==> if hangs_up {
            next is Waiting && task is Wait && task->Wait_0 == 1
        } else {
            next is Ended && task is Finish && task->Finish_0 is Ok
        },
        stage is Waiting ==> next is HangingUp && task is Send && task->waits
            && task->message.view() == dahuavto::hang_up(),
        stage is HangingUp ==> next is Ended && task is Finish && task->Finish_0 is Ok,
        !(stage is Ended),
        event is Elapsed <==> stage is Waiting,
{
}

/// Opening a door waits for whatever can become of its last task.
pub proof fn door_waits_for_every_outcome(stage: DoorStage, event: DoorEvent)
    ensures
        door::door_awaits(stage, event) <==> match stage {
            DoorStage::Waiting => event is Elapsed,
            DoorStage::Ended => false,
            _ => event is Answer,
        },
{
}

/// An outcome is reported as it is.
pub proof fn outcomes_are_what_they_show(r: Result<(), ClientError>)
    ensures
        door::outcome_view(r) is Ok <==> r is Ok,
        r is Err ==> door::outcome_view(r)->Err_0 == r->Err_0@,
{
}

/// An answer is waited for two seconds, signs of life are a minute apart at most, and a call is
/// ended one second after the door was opened.
pub proof fn client_waits_no_longer()
    ensures
        dahuavto::RESPONSE_TIMEOUT_SECS == 2,
        dahuavto::DEFAULT_KEEPALIVEINTERVAL == 60,
        door::HANG_UP_DELAY_SECS == 1,
{
}

/// The end of the stream, and nothing else that comes of reading, ends the connection; whatever is
/// received is added behind what is there.
pub proof fn only_the_end_of_the_stream_disconnects(
    client: ClientView,
    chunk: Seq<u8>,
    bytes: Vec<u8>,
)
    ensures
        dahuavto::after_read(client, Received::Data(bytes)) == client,
        dahuavto::after_read(client, Received::Failed) == client,
        ({
            let after = dahuavto::after_read(client, Received::Closed);
            &&& !after.connected
            &&& after.pending == Set::<u32>::empty()
            &&& after.config == client.config
            &&& after.request_id == client.request_id
            &&& after.session_id == client.session_id
            &&& after.writer == client.writer
        }),
        dahuavto::gathered(chunk, Received::Data(bytes)) == chunk + bytes@,
        dahuavto::gathered(chunk, Received::Failed) == chunk,
        dahuavto::gathered(chunk, Received::Closed) == chunk,
{
}

/// A connection that is given up is neither there nor written to, and nobody waits any more; the
/// numbering of the requests goes on.
pub proof fn closing_ends_the_waiting(client: ClientView)
    ensures
        ({
            let after = dahuavto::after_close(client);
            &&& !after.connected
            &&& !after.writer
            &&& after.pending == Set::<u32>::empty()
            &&& after.config == client.config
            &&& after.request_id == client.request_id
            &&& after.session_id == client.session_id
        }),
{
}

/// An answer is handed over as it came, and a missing one is told apart by why it is missing.
pub proof fn answer_is_handed_over_as_it_came(message: ReceiveRes)
    ensures
        dahuavto::answer_of(Reply::Received(message)) == Ok::<ReceiveRes, ErrorView>(message),
        dahuavto::answer_of(Reply::Closed) == Err::<ReceiveRes, ErrorView>(
            ErrorView::IoError("Response channel closed unexpectedly"@),
        ),
        dahuavto::answer_of(Reply::TimedOut) == Err::<ReceiveRes, ErrorView>(ErrorView::Timeout),
{
}

/// Signs of life are as far apart as the device asks, but never more than a minute, and come only
/// as long as there is a connection.
pub proof fn signs_of_life_come_often_enough(client: ClientView, interval: u32)
    ensures
        dahuavto::period_of(interval) <= interval,
        dahuavto::period_of(interval) <= 60,
        dahuavto::period_of(interval) == interval || dahuavto::period_of(interval) == 60,
        client.connected ==> dahuavto::sign_of_life(client, interval) == Some(
            dahuavto::keep_alive(interval, client.session_id),
        ),
        !client.connected ==> dahuavto::sign_of_life(client, interval) is None,
{
}

/// Whoever is connected and can write can send, whatever the message.
pub proof fn connected_client_can_send(client: ClientView)
    ensures
        dahuavto::unsendable(client) is None <==> client.connected && client.writer,
        !client.connected ==> dahuavto::unsendable(client) == Some(ErrorView::ConnectionFailed),
        client.connected && !client.writer ==> dahuavto::unsendable(client) == Some(
            ErrorView::IoError("TCP writer not initialized"@),
        ),
{
}

} // verus!
