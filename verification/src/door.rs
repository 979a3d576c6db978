//! Opening a door: the requests that it takes, in their order.

use crate::dahuavto;
use crate::dahuavto::{ClientError, DahuaVTOClient, ErrorView, ReceiveRes};
use crate::json::{Json, JsonView, Payload};
use vstd::prelude::*;

verus! {

/// Seconds between opening the door and ending the call.
pub const HANG_UP_DELAY_SECS: u64 = 1;

/// Which access control object an answer gives.
pub open spec fn object_of(answer: Option<ReceiveRes>) -> Option<i64> {
    match answer {
        Some(message) => match message.result {
            Some(Payload::Int(n)) => Some(n),
            _ => None,
        },
        None => None,
    }
}

/// What an answer says of opening the door.
pub open spec fn opened(answer: Option<ReceiveRes>) -> Result<(), ErrorView> {
    match answer {
        Some(message) => match message.result {
            Some(Payload::Bool(true)) => Ok(()),
            Some(Payload::Bool(false)) => Err(
                ErrorView::IoError("Open door failed: result is false"@),
            ),
            Some(Payload::Null) => Ok(()),
            _ => Err(ErrorView::IoError("Open door failed: invalid response"@)),
        },
        None => Err(ErrorView::IoError("Open door failed: invalid response"@)),
    }
}

pub open spec fn outcome_view(r: Result<(), ClientError>) -> Result<(), ErrorView> {
    match r {
        Ok(_) => Ok(()),
        Err(e) => Err(e@),
    }
}

impl DahuaVTOClient {
    /// The message that ends the current call.
    pub fn cancel_call() -> (r: Json)
        ensures
            r.view() == dahuavto::hang_up(),
    {
        Json::object().with("method", Json::text("console.runCmd")).with(
            "params",
            Json::object().with("command", Json::text("hc")),
        )
    }

    /// The message that asks for an access control object.
    pub fn access_control_request() -> (r: Json)
        ensures
            r.view() == dahuavto::create_access_control(),
    {
        Json::object().with("method", Json::text("accessControl.factory.instance")).with(
            "params",
            Json::object().with("channel", Json::Int(0)),
        )
    }

    /// Which access control object an answer gives.
    pub fn access_control_instance(answer: Option<ReceiveRes>) -> (r: Result<i64, ClientError>)
        ensures
            match object_of(answer) {
                None => r matches Err(e) && e@ == ErrorView::IoError("Failed to get object ID"@),
                Some(n) => if n == 0 {
                    r matches Err(e) && e@ == ErrorView::IoError("Invalid object ID"@)
                } else {
                    r == Ok::<i64, ClientError>(n)
                },
            },
    {
        let object = match answer {
            Some(message) => match message.result {
                Some(Payload::Int(n)) => n,
                _ => return Err(ClientError::io("Failed to get object ID")),
            },
            None => return Err(ClientError::io("Failed to get object ID")),
        };
        if object == 0 {
            return Err(ClientError::io("Invalid object ID"));
        }
        Ok(object)
    }

    /// The message that gives an access control object back.
    pub fn access_control_release(object: i64) -> (r: Json)
        ensures
            r.view() == dahuavto::destroy_access_control(object),
    {
        Json::object().with("method", Json::text("accessControl.destroy")).with(
            "object",
            Json::Int(object),
        )
    }

    /// The message that opens the door.
    pub fn open_door_request(object: i64, short_number: &str) -> (r: Json)
        ensures
            r.view() == dahuavto::unlock(object, short_number@),
            r.view() is Object,
            r.view()->Object_0.dom() == set!["method"@, "object"@, "params"@],
            r.view()->Object_0["method"@] == JsonView::Text("accessControl.openDoor"@),
            r.view()->Object_0["object"@] == JsonView::Int(object as int),
            r.view()->Object_0["params"@] is Object,
            r.view()->Object_0["params"@]->Object_0.dom() == set!["DoorIndex"@, "ShortNumber"@],
            r.view()->Object_0["params"@]->Object_0["DoorIndex"@] == JsonView::Int(0),
            r.view()->Object_0["params"@]->Object_0["ShortNumber"@] == JsonView::Text(
                short_number@,
            ),
    {
        proof {
            dahuavto::lemma_door_members();
        }
        let params = Json::object().with("DoorIndex", Json::Int(0)).with(
            "ShortNumber",
            Json::text(short_number),
        );
        Json::object().with("method", Json::text("accessControl.openDoor")).with(
            "params",
            params,
        ).with("object", Json::Int(object))
    }

    /// Whether the door was opened, by the device's answer.
    pub fn open_door(answer: Option<ReceiveRes>) -> (r: Result<(), ClientError>)
        ensures
            outcome_view(r) == opened(answer),
    {
        match answer {
            Some(message) => match message.result {
                Some(Payload::Bool(success)) => if success {
                    Ok(())
                } else {
                    Err(ClientError::io("Open door failed: result is false"))
                },
                Some(Payload::Null) => Ok(()),
                _ => Err(ClientError::io("Open door failed: invalid response")),
            },
            None => Err(ClientError::io("Open door failed: invalid response")),
        }
    }
}

/// How far the opening of a door has come.
#[derive(Debug)]
pub enum DoorStage {
    /// An access control object is asked for.
    Creating,
    /// The door is being opened through this object.
    Opening(i64),
    /// The object is given back; the door was opened or not.
    Releasing(Result<(), ClientError>),
    /// The door is open, and the call has yet to be ended.
    Waiting,
    /// The call is being ended.
    HangingUp,
    Ended,
}

/// What came of the last task.
#[derive(Debug)]
pub enum DoorEvent {
    /// The answer to the request, `None` where none was waited for; or why there is none.
    Answer(Result<Option<ReceiveRes>, ClientError>),
    /// The time has passed.
    Elapsed,
}

#[derive(Debug)]
pub enum DoorTask {
    /// Send the message; `waits` says whether its answer is waited for.
    Send { message: Json, waits: bool },
    /// Let so many seconds pass.
    Wait(u64),
    Finish(Result<(), ClientError>),
}

/// What is done next when a door is opened and the last task is done.
pub open spec fn door_follows(
    stage: DoorStage,
    event: DoorEvent,
    short_number: Seq<char>,
    hangs_up: bool,
    next: DoorStage,
    task: DoorTask,
) -> bool {
    match (stage, event) {
        (DoorStage::Creating, DoorEvent::Answer(Err(e))) => next is Ended && task
            == DoorTask::Finish(Err(e)),
        (DoorStage::Creating, DoorEvent::Answer(Ok(answer))) => match object_of(answer) {
            None => {
                &&& next is Ended
                &&& task matches DoorTask::Finish(Err(e))
                &&& e@ == ErrorView::IoError("Failed to get object ID"@)
            },
            Some(n) => if n == 0 {
                &&& next is Ended
                &&& task matches DoorTask::Finish(Err(e))
                &&& e@ == ErrorView::IoError("Invalid object ID"@)
            } else {
                &&& next == DoorStage::Opening(n)
                &&& task matches DoorTask::Send { message, waits }
                &&& message.view() == dahuavto::unlock(n, short_number)
                &&& waits
            },
        },
        (DoorStage::Opening(object), DoorEvent::Answer(answer)) => {
            &&& next matches DoorStage::Releasing(outcome)
            &&& outcome_view(outcome) == match answer {
                Ok(answer) => opened(answer),
                Err(e) => Err(e@),
            }
            &&& task matches DoorTask::Send { message, waits }
            &&& message.view() == dahuavto::destroy_access_control(object)
            &&& !waits
        },
        (DoorStage::Releasing(Err(e)), DoorEvent::Answer(_)) => next is Ended && task
            == DoorTask::Finish(Err(e)),
        (DoorStage::Releasing(Ok(_)), DoorEvent::Answer(_)) => if hangs_up {
            next is Waiting && task == DoorTask::Wait(HANG_UP_DELAY_SECS)
        } else {
            next is Ended && task == DoorTask::Finish(Ok(()))
        },
        (DoorStage::Waiting, DoorEvent::Elapsed) => {
            &&& next is HangingUp
            &&& task matches DoorTask::Send { message, waits }
            &&& message.view() == dahuavto::hang_up()
            &&& waits
        },
        (DoorStage::HangingUp, DoorEvent::Answer(_)) => next is Ended && task
            == DoorTask::Finish(Ok(())),
        _ => false,
    }
}

/// Whether the opening of a door waits for this.
pub open spec fn door_awaits(stage: DoorStage, event: DoorEvent) -> bool {
    match stage {
        DoorStage::Waiting => event is Elapsed,
        DoorStage::Ended => false,
        _ => event is Answer,
    }
}

/// The beginning: an access control object is asked for.
pub fn begin() -> (r: (DoorStage, DoorTask))
    ensures
        r.0 is Creating,
        r.1 matches DoorTask::Send { message, waits } && message.view()
            == dahuavto::create_access_control() && waits,
{
    let message = DahuaVTOClient::access_control_request();
    (DoorStage::Creating, DoorTask::Send { message, waits: true })
}

impl DahuaVTOClient {
    /// The next step of opening a door, and, where `hangs_up`, of ending the call afterwards.
    /// The object through which the door is opened is given back whether it was opened or not;
    /// whether ending the call succeeds does not matter.
    pub fn open_door_and_cancel_call(
        stage: DoorStage,
        event: DoorEvent,
        short_number: &str,
        hangs_up: bool,
    ) -> (r: (DoorStage, DoorTask))
        requires
            door_awaits(stage, event),
        ensures
            door_follows(stage, event, short_number@, hangs_up, r.0, r.1),
    {
        match (stage, event) {
            (DoorStage::Creating, DoorEvent::Answer(Err(e))) => {
                (DoorStage::Ended, DoorTask::Finish(Err(e)))
            },
            (DoorStage::Creating, DoorEvent::Answer(Ok(answer))) => {
                match DahuaVTOClient::access_control_instance(answer) {
                    Ok(object) => {
                        let message = DahuaVTOClient::open_door_request(object, short_number);
                        (DoorStage::Opening(object), DoorTask::Send { message, waits: true })
                    },
                    Err(e) => (DoorStage::Ended, DoorTask::Finish(Err(e))),
                }
            },
            (DoorStage::Opening(object), DoorEvent::Answer(answer)) => {
                let outcome = match answer {
                    Ok(answer) => DahuaVTOClient::open_door(answer),
                    Err(e) => Err(e),
                };
                let message = DahuaVTOClient::access_control_release(object);
                (DoorStage::Releasing(outcome), DoorTask::Send { message, waits: false })
            },
            (DoorStage::Releasing(outcome), _) => match outcome {
                Ok(_) => if hangs_up {
                    (DoorStage::Waiting, DoorTask::Wait(HANG_UP_DELAY_SECS))
                } else {
                    (DoorStage::Ended, DoorTask::Finish(Ok(())))
                },
                Err(e) => (DoorStage::Ended, DoorTask::Finish(Err(e))),
            },
            (DoorStage::Waiting, _) => {
                let message = DahuaVTOClient::cancel_call();
                (DoorStage::HangingUp, DoorTask::Send { message, waits: true })
            },
            (_, _) => (DoorStage::Ended, DoorTask::Finish(Ok(()))),
        }
    }
}

/// The object through which a door is opened is given back, whatever the device answered.
pub proof fn object_is_given_back(
    object: i64,
    answer: Result<Option<ReceiveRes>, ClientError>,
    short_number: Seq<char>,
    hangs_up: bool,
    next: DoorStage,
    task: DoorTask,
)
    requires
        door_follows(
            DoorStage::Opening(object),
            DoorEvent::Answer(answer),
            short_number,
            hangs_up,
            next,
            task,
        ),
    ensures
        task is Send,
        task->message.view() == dahuavto::destroy_access_control(object),
        next is Releasing,
{
}

/// A call is ended only once the door is open.
pub proof fn hanging_up_follows_opening(
    stage: DoorStage,
    event: DoorEvent,
    short_number: Seq<char>,
    hangs_up: bool,
    next: DoorStage,
    task: DoorTask,
)
    requires
        door_follows(stage, event, short_number, hangs_up, next, task),
    ensures
        next is Waiting ==> stage is Releasing && stage->Releasing_0 is Ok && hangs_up,
        next is HangingUp ==> stage is Waiting,
{
}

/// What is reported in the end is what the device answered to the opening, whatever became of
/// giving the object back and of ending the call.
pub proof fn opening_is_reported(
    object: i64,
    answer: Result<Option<ReceiveRes>, ClientError>,
    short_number: Seq<char>,
    hangs_up: bool,
    stages: Seq<DoorStage>,
    events: Seq<DoorEvent>,
    tasks: Seq<DoorTask>,
)
    requires
        stages.len() == events.len() + 1,
        tasks.len() == events.len(),
        events.len() > 0,
        stages[0] == DoorStage::Opening(object),
        events[0] == DoorEvent::Answer(answer),
        forall|i: int|
            0 <= i < events.len() ==> door_follows(
                #[trigger] stages[i],
                events[i],
                short_number,
                hangs_up,
                stages[i + 1],
                tasks[i],
            ),
        tasks.last() is Finish,
    ensures
        outcome_view(tasks.last()->Finish_0) == match answer {
            Ok(answer) => opened(answer),
            Err(e) => Err(e@),
        },
{
    let n = events.len();
    assert(door_follows(stages[0], events[0], short_number, hangs_up, stages[1], tasks[0]));
    assert(n >= 2);
    assert(door_follows(stages[1], events[1], short_number, hangs_up, stages[2], tasks[1]));
    if n > 2 {
        assert(door_follows(stages[2], events[2], short_number, hangs_up, stages[3], tasks[2]));
        if n > 3 {
            assert(door_follows(stages[3], events[3], short_number, hangs_up, stages[4], tasks[3]));
            if n > 4 {
                assert(door_follows(
                    stages[4],
                    events[4],
                    short_number,
                    hangs_up,
                    stages[5],
                    tasks[4],
                ));
            }
        }
    }
}

} // verus!
