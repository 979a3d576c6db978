use dahuavto::dahuavto::{ClientError, DahuaVTOClient, ReceiveRes};
use dahuavto::door::{begin, DoorEvent, DoorStage, DoorTask};
use dahuavto::json::Payload;

fn answer(result: Option<Payload>) -> Option<ReceiveRes> {
    Some(ReceiveRes { method: None, params: None, session: None, id: None, error: None, result })
}

fn sent(task: &DoorTask) -> (String, bool) {
    match task {
        DoorTask::Send { message, waits } => (message.to_text(), *waits),
        other => panic!("{:?}", other),
    }
}

fn reason(r: Result<(), ClientError>) -> String {
    match r {
        Err(ClientError::IoError(reason)) => reason,
        other => panic!("{:?}", other),
    }
}

fn finished(task: DoorTask) -> Result<(), ClientError> {
    match task {
        DoorTask::Finish(outcome) => outcome,
        other => panic!("{:?}", other),
    }
}

fn step(stage: DoorStage, event: DoorEvent) -> (DoorStage, DoorTask) {
    DahuaVTOClient::open_door_and_cancel_call(stage, event, "8001", true)
}

#[test]
fn door_is_opened_and_the_call_ended() {
    let (stage, task) = begin();
    assert_eq!(
        sent(&task),
        ("{\"method\":\"accessControl.factory.instance\",\"params\":{\"channel\":0}}".to_string(), true)
    );
    let (stage, task) = step(stage, DoorEvent::Answer(Ok(answer(Some(Payload::Int(42))))));
    assert_eq!(
        sent(&task),
        (
            "{\"method\":\"accessControl.openDoor\",\"object\":42,\"params\":{\"DoorIndex\":0,\"ShortNumber\":\"8001\"}}".to_string(),
            true
        )
    );
    let (stage, task) = step(stage, DoorEvent::Answer(Ok(answer(Some(Payload::Bool(true))))));
    assert_eq!(
        sent(&task),
        ("{\"method\":\"accessControl.destroy\",\"object\":42}".to_string(), false)
    );
    let (stage, task) = step(stage, DoorEvent::Answer(Err(ClientError::Timeout)));
    assert!(matches!(task, DoorTask::Wait(1)));
    let (stage, task) = step(stage, DoorEvent::Elapsed);
    assert_eq!(
        sent(&task),
        ("{\"method\":\"console.runCmd\",\"params\":{\"command\":\"hc\"}}".to_string(), true)
    );
    let (stage, task) = step(stage, DoorEvent::Answer(Err(ClientError::Timeout)));
    assert!(finished(task).is_ok());
    assert!(matches!(stage, DoorStage::Ended));
}

#[test]
fn call_goes_on_where_the_door_stays_shut() {
    let refused = DoorEvent::Answer(Ok(answer(Some(Payload::Bool(false)))));
    let (stage, task) = step(DoorStage::Opening(7), refused);
    assert_eq!(sent(&task).0, "{\"method\":\"accessControl.destroy\",\"object\":7}");
    let (stage, task) = step(stage, DoorEvent::Answer(Ok(None)));
    assert_eq!(reason(finished(task)), "Open door failed: result is false");
    assert!(matches!(stage, DoorStage::Ended));
}

#[test]
fn object_is_given_back_after_an_error() {
    let (stage, task) = step(DoorStage::Opening(7), DoorEvent::Answer(Err(ClientError::Timeout)));
    assert_eq!(sent(&task).0, "{\"method\":\"accessControl.destroy\",\"object\":7}");
    let (_, task) = step(stage, DoorEvent::Answer(Ok(None)));
    assert!(matches!(finished(task), Err(ClientError::Timeout)));
}

#[test]
fn object_is_needed() {
    let (_, task) = step(DoorStage::Creating, DoorEvent::Answer(Ok(answer(Some(Payload::Int(0))))));
    assert_eq!(reason(finished(task)), "Invalid object ID");
    let (_, task) = step(DoorStage::Creating, DoorEvent::Answer(Ok(answer(Some(Payload::Number)))));
    assert_eq!(reason(finished(task)), "Failed to get object ID");
    let (_, task) = step(DoorStage::Creating, DoorEvent::Answer(Ok(answer(None))));
    assert_eq!(reason(finished(task)), "Failed to get object ID");
    let (_, task) = step(DoorStage::Creating, DoorEvent::Answer(Err(ClientError::Timeout)));
    assert!(matches!(finished(task), Err(ClientError::Timeout)));
}

#[test]
fn answers_to_opening_are_told_apart() {
    assert!(DahuaVTOClient::open_door(answer(Some(Payload::Bool(true)))).is_ok());
    assert!(DahuaVTOClient::open_door(answer(Some(Payload::Null))).is_ok());
    let invalid = "Open door failed: invalid response";
    assert_eq!(reason(DahuaVTOClient::open_door(answer(Some(Payload::Int(1))))), invalid);
    assert_eq!(reason(DahuaVTOClient::open_door(answer(None))), invalid);
    assert_eq!(reason(DahuaVTOClient::open_door(None)), invalid);
}

#[test]
fn door_alone_leaves_the_call() {
    let (stage, task) = DahuaVTOClient::open_door_and_cancel_call(
        DoorStage::Releasing(Ok(())),
        DoorEvent::Answer(Ok(None)),
        "",
        false,
    );
    assert!(finished(task).is_ok());
    assert!(matches!(stage, DoorStage::Ended));
}
