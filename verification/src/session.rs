//! Coming to a session with a door station: the stream is opened, a challenge is asked for and
//! answered, and then signs of life begin.

use crate::dahuavto;
use crate::dahuavto::{
    ClientError, ClientView, Connection, DahuaVTOClient, ErrorView, ReceiveParams,
};
use crate::digest;
use crate::json::Json;
use vstd::prelude::*;

verus! {

/// How far it has come.
#[derive(Debug)]
pub enum Stage {
    /// The stream is being opened.
    Connecting,
    /// A challenge is asked for.
    Greeting,
    /// The challenge is being answered.
    Answering,
    Ended,
}

/// What a device answered: its session, and its parameters, which are `None` where there are none
/// and an error where they are not of the right form.
#[derive(Debug)]
pub struct Answer {
    pub session: Option<u32>,
    pub params: Option<Result<ReceiveParams, ()>>,
}

/// What came of the last task.
#[derive(Debug)]
pub enum Happening {
    Tried(Connection),
    /// The answer to the request, or why there is none.
    Answered(Result<Answer, ClientError>),
}

#[derive(Debug)]
pub enum Task {
    /// Open the stream.
    Open,
    /// Send the message and wait for its answer.
    Send(Json),
    /// There is a session: begin with signs of life, so many seconds apart by the device's word.
    Beat(u32),
    Fail(ClientError),
}

/// The client once it has read a challenge: where the parameters can be read, it takes over the
/// session.
pub open spec fn challenged(client: ClientView, answer: Answer) -> ClientView {
    match (answer.params, answer.session) {
        (Some(Ok(_)), Some(id)) => ClientView { session_id: id, ..client },
        _ => client,
    }
}

/// The seconds between two signs of life that an answer to a login names.
pub open spec fn interval_in(answer: Answer) -> u32 {
    match answer.params {
        Some(Ok(params)) => match params.keep_alive_interval {
            Some(interval) => interval,
            None => dahuavto::DEFAULT_KEEPALIVEINTERVAL,
        },
        _ => dahuavto::DEFAULT_KEEPALIVEINTERVAL,
    }
}

/// Whether it ends with this error.
pub open spec fn fails(next: Stage, task: Task, reason: ErrorView) -> bool {
    &&& next is Ended
    &&& task matches Task::Fail(e)
    &&& e@ == reason
}

/// What is done next, and what becomes of the client.
pub open spec fn follows(
    before: ClientView,
    stage: Stage,
    happening: Happening,
    client: ClientView,
    next: Stage,
    task: Task,
) -> bool {
    match (stage, happening) {
        (Stage::Connecting, Happening::Tried(Connection::Opened)) => {
            &&& client == (ClientView { connected: true, writer: true, ..before })
            &&& next is Greeting
            &&& task matches Task::Send(message)
            &&& message.view() == dahuavto::login_request()
        },
        (Stage::Connecting, Happening::Tried(Connection::Refused)) => client == before && fails(
            next,
            task,
            ErrorView::ConnectionFailed,
        ),
        (Stage::Connecting, Happening::Tried(Connection::TimedOut)) => client == before && fails(
            next,
            task,
            ErrorView::Timeout,
        ),
        (Stage::Greeting, Happening::Answered(Err(e))) => client == before && fails(next, task, e@),
        (Stage::Greeting, Happening::Answered(Ok(answer))) => {
            &&& client == challenged(before, answer)
            &&& match answer.params {
                None => fails(next, task, ErrorView::ProtocolError),
                Some(Err(_)) => fails(next, task, ErrorView::SerializationError),
                Some(Ok(params)) => match (params.random, params.realm) {
                    (Some(random), Some(realm)) => {
                        &&& next is Answering
                        &&& task matches Task::Send(message)
                        &&& message.view() == dahuavto::login_answer(
                            before.config.username@,
                            digest::password_hash(
                                before.config.username@,
                                before.config.password@,
                                random@,
                                realm@,
                            ),
                            client.session_id,
                        )
                    },
                    _ => fails(next, task, ErrorView::ProtocolError),
                },
            }
        },
        (Stage::Answering, Happening::Answered(Err(e))) => client == before && fails(next, task, e@),
        (Stage::Answering, Happening::Answered(Ok(answer))) => {
            &&& client == before
            &&& next is Ended
            &&& task == Task::Beat(interval_in(answer))
        },
        _ => false,
    }
}

/// Whether this is waited for.
pub open spec fn awaits(stage: Stage, happening: Happening) -> bool {
    match stage {
        Stage::Connecting => happening is Tried,
        Stage::Greeting | Stage::Answering => happening is Answered,
        Stage::Ended => false,
    }
}

/// The beginning: the stream is to be opened.
pub fn begin() -> (r: (Stage, Task))
    ensures
        r.0 is Connecting,
        r.1 is Open,
{
    (Stage::Connecting, Task::Open)
}

impl DahuaVTOClient {
    /// The next step on the way to a session.
    pub fn come_to_session(&mut self, stage: Stage, happening: Happening) -> (r: (Stage, Task))
        requires
            old(self).wf(),
            awaits(stage, happening),
        ensures
            final(self).wf(),
            follows(old(self)@, stage, happening, final(self)@, r.0, r.1),
    {
        match (stage, happening) {
            (Stage::Connecting, Happening::Tried(outcome)) => match self.connect(outcome) {
                Ok(message) => (Stage::Greeting, Task::Send(message)),
                Err(e) => (Stage::Ended, Task::Fail(e)),
            },
            (Stage::Greeting, Happening::Answered(Ok(answer))) => {
                match self.login(answer.session, answer.params) {
                    Ok(message) => (Stage::Answering, Task::Send(message)),
                    Err(e) => (Stage::Ended, Task::Fail(e)),
                }
            },
            (Stage::Answering, Happening::Answered(Ok(answer))) => {
                let params = match answer.params {
                    Some(Ok(params)) => Some(params),
                    _ => None,
                };
                (Stage::Ended, Task::Beat(DahuaVTOClient::keep_alive_interval(params)))
            },
            (Stage::Greeting, Happening::Answered(Err(e))) => (Stage::Ended, Task::Fail(e)),
            (Stage::Answering, Happening::Answered(Err(e))) => (Stage::Ended, Task::Fail(e)),
            (_, _) => (Stage::Ended, Task::Open),
        }
    }
}

/// Signs of life begin only once a challenge was answered and the device answered to that.
pub proof fn session_needs_an_answered_challenge(
    before: ClientView,
    stage: Stage,
    happening: Happening,
    client: ClientView,
    next: Stage,
    task: Task,
)
    requires
        follows(before, stage, happening, client, next, task),
    ensures
        task is Beat ==> stage is Answering && happening is Answered && happening->Answered_0 is Ok,
        next is Answering ==> stage is Greeting && happening is Answered
            && happening->Answered_0 is Ok,
        next is Greeting ==> stage is Connecting && client.connected,
{
}

} // verus!
