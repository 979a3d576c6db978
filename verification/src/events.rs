//! The events of a door station: the subscription and the calls in it.

use crate::dahuavto;
use crate::dahuavto::{ClientError, ClientView, DahuaVTOClient, ErrorView, ReceiveRes};
use crate::json;
use crate::json::{Json, Payload};
use crate::text;
use vstd::prelude::*;

verus! {

/// Who a call is for, by the event's data.
pub open spec fn callee(data: Payload) -> Seq<char> {
    match json::field(data, "UserID"@) {
        Some(id) => match json::text_of(id) {
            Some(s) => s,
            None => "Unknown"@,
        },
        None => "Unknown"@,
    }
}

/// Whether an event is a call for this user.
pub open spec fn is_call(event: Payload, user_id: Seq<char>) -> bool {
    &&& json::field(event, "Code"@) matches Some(code)
    &&& json::text_of(code) == Some("Invite"@)
    &&& json::field(event, "Data"@) matches Some(data)
    &&& callee(data) == user_id
}

/// How many of the events are calls for this user.
pub open spec fn calls(events: Seq<Payload>, user_id: Seq<char>) -> nat
    decreases events.len(),
{
    if events.len() == 0 {
        0
    } else {
        calls(events.drop_last(), user_id) + if is_call(events.last(), user_id) {
            1nat
        } else {
            0nat
        }
    }
}

/// The events that a message reports; `None` where it reports events but has no list of them.
pub open spec fn reported(message: ReceiveRes) -> Option<Seq<Payload>> {
    if !reports_events(message) {
        Some(Seq::empty())
    } else {
        match message.params {
            Some(params) => match json::field(params, "eventList"@) {
                Some(Payload::Array(events)) => Some(events@),
                _ => None,
            },
            None => None,
        }
    }
}

pub open spec fn reports_events(message: ReceiveRes) -> bool {
    message.method matches Some(method) && method@ == "client.notifyEventStream"@
}

fn call_for(event: &Payload, user_id: &str) -> (r: bool)
    ensures
        r == is_call(*event, user_id@),
{
    let invited = match event.get("Code") {
        Some(Payload::Text(code)) => text::text_eq(code.as_str(), "Invite"),
        _ => false,
    };
    if !invited {
        return false;
    }
    match event.get("Data") {
        Some(data) => {
            let callee = match data.get("UserID") {
                Some(id) => id.text_or("Unknown"),
                None => "Unknown",
            };
            text::text_eq(callee, user_id)
        },
        None => false,
    }
}

/// What a message of the subscription asks for: to announce so many calls, one after the other,
/// and go on; `None` where the subscription ends.
pub fn announcements(message: &ReceiveRes, user_id: &str, is_callback: bool) -> (r: Option<usize>)
    ensures
        match reported(*message) {
            Some(events) => r matches Some(n) && n == (if is_callback {
                calls(events, user_id@)
            } else {
                0
            }),
            None => r is None,
        },
        match (message.method, message.params) {
            (Some(method), Some(params)) => match json::field(params, "eventList"@) {
                Some(Payload::Array(list)) => match (
                    json::field(list@[0], "Code"@),
                    json::field(list@[0], "Data"@),
                ) {
                    (Some(Payload::Text(code)), Some(data)) => match json::field(data, "UserID"@) {
                        Some(Payload::Text(id)) => is_callback && method@
                            == "client.notifyEventStream"@ && list@.len() == 1 && code@
                            == "Invite"@ ==> r == Some(
                            if id@ == user_id@ {
                                1usize
                            } else {
                                0usize
                            },
                        ),
                        _ => true,
                    },
                    _ => true,
                },
                _ => true,
            },
            _ => true,
        },
{
    proof {
        reveal_with_fuel(calls, 2);
    }
    let notified = match &message.method {
        Some(method) => text::text_eq(method.as_str(), "client.notifyEventStream"),
        None => false,
    };
    if !notified {
        return Some(0);
    }
    let params = match &message.params {
        Some(params) => params,
        None => return None,
    };
    let events = match params.get("eventList") {
        Some(Payload::Array(events)) => events,
        _ => return None,
    };
    let mut n: usize = 0;
    let mut i: usize = 0;
    while i < events.len()
        invariant
            i <= events.len(),
            n <= i,
            n == if is_callback {
                calls(events@.take(i as int), user_id@)
            } else {
                0
            },
        decreases events.len() - i,
    {
        assert(events@.take(i + 1).drop_last() =~= events@.take(i as int));
        if is_callback && call_for(&events[i], user_id) {
            n += 1;
        }
        i += 1;
    }
    assert(events@.take(i as int) =~= events@);
    Some(n)
}

/// How far a subscription has come.
#[derive(Debug)]
pub enum Stage {
    /// The event manager is asked for.
    Creating,
    /// The subscription is asked for.
    Attaching,
    /// Events are waited for.
    Listening,
    /// Calls are announced; so many are left.
    Announcing(usize),
    Ended,
}

/// What happened to a subscription.
#[derive(Debug)]
pub enum Happening {
    /// What was to be sent has been sent.
    Sent,
    NotSent(ClientError),
    Message(ReceiveRes),
    /// No more messages will come.
    Silence,
    /// The call has been announced.
    Announced,
    NotAnnounced,
}

/// What is to be done for a subscription.
#[derive(Debug)]
pub enum Task {
    /// Send the message; `waits` says whether its answers are listened for.
    Send { message: Json, waits: bool },
    /// Wait for the next message.
    Listen,
    /// Announce a call.
    Announce,
    Finish(Result<(), ClientError>),
}

/// What a subscription does when something happens that it waits for.
pub open spec fn follows(
    stage: Stage,
    happening: Happening,
    user_id: Seq<char>,
    is_callback: bool,
    next: Stage,
    task: Task,
) -> bool {
    match (stage, happening) {
        (Stage::Creating, Happening::Sent) => {
            &&& next is Attaching
            &&& task matches Task::Send { message, waits }
            &&& message.view() == dahuavto::attach_events()
            &&& waits
        },
        (Stage::Attaching, Happening::Sent) => next is Listening && task is Listen,
        (Stage::Creating, Happening::NotSent(e)) => next is Ended && task == Task::Finish(Err(e)),
        (Stage::Attaching, Happening::NotSent(e)) => next is Ended && task == Task::Finish(Err(e)),
        (Stage::Listening, Happening::Message(message)) => match reported(message) {
            Some(events) => {
                let n = if is_callback {
                    calls(events, user_id)
                } else {
                    0
                };
                if n > 0 {
                    next == Stage::Announcing((n - 1) as usize) && task is Announce
                } else {
                    next is Listening && task is Listen
                }
            },
            None => next is Ended && task == Task::Finish(Ok(())),
        },
        (Stage::Listening, Happening::Silence) => {
            &&& next is Ended
            &&& task matches Task::Finish(Err(e))
            &&& e@ == ErrorView::IoError("Pending response channel closed"@)
        },
        (Stage::Announcing(left), Happening::Announced) => if left > 0 {
            next == Stage::Announcing((left - 1) as usize) && task is Announce
        } else {
            next is Listening && task is Listen
        },
        (Stage::Announcing(_), Happening::NotAnnounced) => {
            &&& next is Ended
            &&& task matches Task::Finish(Err(e))
            &&& e@ == ErrorView::IoError("Failed to send client to tx"@)
        },
        _ => false,
    }
}

/// Whether a subscription waits for this.
pub open spec fn awaits(stage: Stage, happening: Happening) -> bool {
    match stage {
        Stage::Creating | Stage::Attaching => happening is Sent || happening is NotSent,
        Stage::Listening => happening is Message || happening is Silence,
        Stage::Announcing(_) => happening is Announced || happening is NotAnnounced,
        Stage::Ended => false,
    }
}

/// The beginning of a subscription: the event manager is asked for, and its answer not waited
/// for.
pub fn begin() -> (r: (Stage, Task))
    ensures
        r.0 is Creating,
        r.1 matches Task::Send { message, waits } && message.view()
            == dahuavto::create_event_manager() && !waits,
{
    let message = Json::object().with("method", Json::text("eventManager.factory.instance")).with(
        "params",
        Json::object(),
    );
    (Stage::Creating, Task::Send { message, waits: false })
}

fn attach_message() -> (r: Json)
    ensures
        r.view() == dahuavto::attach_events(),
{
    let mut codes: Vec<Json> = Vec::new();
    codes.push(Json::text("All"));
    proof {
        assert(codes@.drop_last() =~= Seq::<Json>::empty());
        assert(Json::items_view(codes@.drop_last()) =~= Seq::<json::JsonView>::empty());
        assert(Json::items_view(codes@) =~= seq![json::JsonView::Text("All"@)]);
    }
    Json::object().with("method", Json::text("eventManager.attach")).with(
        "params",
        Json::object().with("codes", Json::Array(codes)),
    )
}

fn next_task(stage: Stage, happening: Happening, user_id: &str, is_callback: bool) -> (r: (
    Stage,
    Task,
))
    requires
        awaits(stage, happening),
    ensures
        follows(stage, happening, user_id@, is_callback, r.0, r.1),
{
    match (stage, happening) {
        (Stage::Creating, Happening::Sent) => {
            (Stage::Attaching, Task::Send { message: attach_message(), waits: true })
        },
        (Stage::Attaching, Happening::Sent) => (Stage::Listening, Task::Listen),
        (Stage::Creating, Happening::NotSent(e)) => (Stage::Ended, Task::Finish(Err(e))),
        (Stage::Attaching, Happening::NotSent(e)) => (Stage::Ended, Task::Finish(Err(e))),
        (Stage::Listening, Happening::Message(message)) => match announcements(
            &message,
            user_id,
            is_callback,
        ) {
            Some(n) => if n > 0 {
                (Stage::Announcing(n - 1), Task::Announce)
            } else {
                (Stage::Listening, Task::Listen)
            },
            None => (Stage::Ended, Task::Finish(Ok(()))),
        },
        (Stage::Listening, Happening::Silence) => {
            let e = ClientError::io("Pending response channel closed");
            (Stage::Ended, Task::Finish(Err(e)))
        },
        (Stage::Announcing(left), Happening::Announced) => if left > 0 {
            (Stage::Announcing(left - 1), Task::Announce)
        } else {
            (Stage::Listening, Task::Listen)
        },
        (Stage::Announcing(_), Happening::NotAnnounced) => {
            let e = ClientError::io("Failed to send client to tx");
            (Stage::Ended, Task::Finish(Err(e)))
        },
        (_, _) => (Stage::Ended, Task::Listen),
    }
}

impl DahuaVTOClient {
    /// The next step of a subscription whose request has the number `id`.
    pub fn sub_event(
        &mut self,
        id: u32,
        stage: Stage,
        happening: Happening,
        user_id: &str,
        is_callback: bool,
    ) -> (r: (Stage, Task))
        requires
            old(self).wf(),
            awaits(stage, happening),
        ensures
            final(self).wf(),
            final(self)@ == if stage is Listening && happening is Silence {
                ClientView { pending: old(self)@.pending.remove(id), ..old(self)@ }
            } else {
                old(self)@
            },
            follows(stage, happening, user_id@, is_callback, r.0, r.1),
    {
        if matches!(stage, Stage::Listening) && matches!(happening, Happening::Silence) {
            self.forget(id);
        }
        next_task(stage, happening, user_id, is_callback)
    }
}

/// Where calls are not reported back, no event is announced.
pub proof fn silent_subscription_announces_nothing(
    message: ReceiveRes,
    user_id: Seq<char>,
    next: Stage,
    task: Task,
)
    requires
        follows(Stage::Listening, Happening::Message(message), user_id, false, next, task),
    ensures
        !(task is Announce),
{
}

/// Every call that a message reports is announced, one after the other, before the next message
/// is waited for.
pub proof fn every_call_is_announced(
    message: ReceiveRes,
    user_id: Seq<char>,
    stages: Seq<Stage>,
    happenings: Seq<Happening>,
    tasks: Seq<Task>,
)
    requires
        reported(message) is Some,
        calls(reported(message)->Some_0, user_id) <= usize::MAX,
        happenings.len() == calls(reported(message)->Some_0, user_id) + 1,
        stages.len() == happenings.len() + 1,
        tasks.len() == happenings.len(),
        stages[0] is Listening,
        happenings[0] == Happening::Message(message),
        forall|i: int| 1 <= i < happenings.len() ==> (#[trigger] happenings[i]) is Announced,
        forall|i: int|
            0 <= i < happenings.len() ==> follows(
                #[trigger] stages[i],
                happenings[i],
                user_id,
                true,
                stages[i + 1],
                tasks[i],
            ),
    ensures
        forall|i: int| 0 <= i < tasks.len() - 1 ==> (#[trigger] tasks[i]) is Announce,
        tasks.last() is Listen,
        stages.last() is Listening,
{
    let n = calls(reported(message)->Some_0, user_id);
    assert(follows(stages[0], happenings[0], user_id, true, stages[1], tasks[0]));
    lemma_announcing(user_id, n as int, stages, happenings, tasks, n as int);
}

/// After the first `k` of `n` calls were announced, the rest are left.
proof fn lemma_announcing(
    user_id: Seq<char>,
    n: int,
    stages: Seq<Stage>,
    happenings: Seq<Happening>,
    tasks: Seq<Task>,
    k: int,
)
    requires
        0 <= k <= n <= usize::MAX,
        happenings.len() == n + 1,
        stages.len() == n + 2,
        tasks.len() == n + 1,
        n > 0 ==> stages[1] == Stage::Announcing((n - 1) as usize) && tasks[0] is Announce,
        n == 0 ==> stages[1] is Listening && tasks[0] is Listen,
        forall|i: int| 1 <= i < happenings.len() ==> (#[trigger] happenings[i]) is Announced,
        forall|i: int|
            0 <= i < happenings.len() ==> follows(
                #[trigger] stages[i],
                happenings[i],
                user_id,
                true,
                stages[i + 1],
                tasks[i],
            ),
    ensures
        forall|i: int| 0 <= i < k ==> (#[trigger] tasks[i]) is Announce,
        k < n ==> stages[k + 1] == Stage::Announcing((n - 1 - k) as usize) && tasks[k] is Announce,
        k == n ==> stages[k + 1] is Listening && tasks[k] is Listen,
    decreases k,
{
    if k > 0 {
        lemma_announcing(user_id, n, stages, happenings, tasks, k - 1);
        assert(happenings[k] is Announced);
        assert(follows(stages[k], happenings[k], user_id, true, stages[k + 1], tasks[k]));
    }
}

/// Events that are no calls for the user do not count, wherever they stand among the others.
pub proof fn other_events_do_not_count(
    before: Seq<Payload>,
    event: Payload,
    after: Seq<Payload>,
    user_id: Seq<char>,
)
    requires
        !is_call(event, user_id),
    ensures
        calls(before + seq![event] + after, user_id) == calls(before + after, user_id),
    decreases after.len(),
{
    let with = before + seq![event] + after;
    let without = before + after;
    if after.len() == 0 {
        assert(with.drop_last() =~= before);
        assert(without =~= before);
    } else {
        other_events_do_not_count(before, event, after.drop_last(), user_id);
        assert(with.drop_last() =~= before + seq![event] + after.drop_last());
        assert(without.drop_last() =~= before + after.drop_last());
    }
}

} // verus!
