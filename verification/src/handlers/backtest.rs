//! What is decided when backtest tasks are created, looked up and
//! streamed. Waiting, locking and sending are the caller's.

use crate::errors::{AppError, AppResult, ErrorKind};
use crate::models::exchange::MarketPrecision;
use crate::tasks::backtest::{BacktestStatus, BacktestTask, TaskView};
use crate::tasks::runner::Progress;
use uuid::Uuid;
use vstd::prelude::*;

verus! {

/// A request for a backtest of the strategy `name` on a market.
#[derive(Debug)]
pub struct CreateBacktestTaskRequest {
    pub name: String,
    pub exchange: String,
    pub symbol: String,
    pub timeframe: String,
}

/// The answer to a request: the identifier of the task, a UUID as a
/// 128-bit integer.
#[derive(Clone, Copy, Debug, PartialEq, Eq, Structural)]
pub struct CreateBacktestTaskResponse {
    pub task_id: u128,
}

/// The pending task that `request` creates, known as `task_id`, with the
/// market's step sizes as they are at the time `now`; and the answer to
/// the request.
pub fn create_task(
    request: CreateBacktestTaskRequest,
    task_id: u128,
    precision: MarketPrecision,
    now: i64,
) -> (r: (BacktestTask, CreateBacktestTaskResponse))
    ensures
        r.1.task_id == task_id,
        r.0@ == (TaskView {
            id: task_id,
            status: BacktestStatus::Pending,
            progress: Progress { done: 0, total: 1 },
            name: request.name@,
            exchange: request.exchange@,
            symbol: request.symbol@,
            timeframe: request.timeframe@,
            precision: precision@,
            statistic: None,
            error_message: None,
            created_at: now as int,
            started_at: None,
            completed_at: None,
            updated_at: now as int,
        }),
{
    let task = BacktestTask::new(
        task_id,
        request.name,
        request.exchange,
        request.symbol,
        request.timeframe,
        precision,
        now,
    );
    (task, CreateBacktestTaskResponse { task_id })
}

/// The text of a UUID: its hexadecimal digits in five groups.
pub uninterp spec fn uuid_text(id: u128) -> Seq<char>;

/// The text of the failure to find the task known as `task_id`.
pub open spec fn task_not_found_message(task_id: u128) -> Seq<char> {
    "Task with id '"@ + uuid_text(task_id) + "' is not a Backtest task"@
}

/// What a lookup of the task known as `task_id` answers: what was found,
/// or a failure that names the identifier.
pub fn get_task<T>(found: Option<T>, task_id: u128) -> (r: AppResult<T>)
    ensures
        match found {
            Some(task) => r == Ok::<T, AppError>(task),
            None => r is Err && r->Err_0.kind_of() == ErrorKind::NotFound && r->Err_0.message_of()
                == task_not_found_message(task_id),
        },
{
    match found {
        Some(task) => Ok(task),
        None => {
            let mut message = "Task with id '".to_owned();
            let id = format_uuid(task_id);
            message.append(id.as_str());
            message.append("' is not a Backtest task");
            Err(AppError::NotFound(message))
        },
    }
}

/// `Uuid`'s text, as `to_string` gives it for the UUID of these 128 bits.
#[verifier::external_body]
fn format_uuid(id: u128) -> (r: String)
    ensures
        r@ == uuid_text(id),
{
    Uuid::from_u128(id).to_string()
}

/// What reaches the stream of a subscriber.
#[derive(Debug)]
pub enum StreamEvent {
    /// The process shuts down.
    Shutdown,
    /// The channel of task changes is closed.
    Closed,
    /// The subscriber was too slow and has missed changes.
    Lagged,
    /// A task changed; its text, where it could be written.
    Changed(Option<String>),
}

/// What the stream does about an event.
#[derive(Debug)]
pub enum StreamAction {
    /// The stream ends.
    Stop,
    /// The stream goes on and sends nothing.
    Skip,
    /// The stream sends the text.
    Emit(String),
}

/// The view of a text that may be absent.
pub open spec fn text_view(text: Option<String>) -> Option<Seq<char>> {
    match text {
        Some(t) => Some(t@),
        None => None,
    }
}

/// What the stream of a subscriber does about `event`: it ends with the
/// process and with the channel, sends the text of a changed task where
/// there is one, and goes on otherwise.
pub fn stream_step(event: StreamEvent) -> (r: StreamAction)
    ensures
        match event {
            StreamEvent::Shutdown => r is Stop,
            StreamEvent::Closed => r is Stop,
            StreamEvent::Lagged => r is Skip,
            StreamEvent::Changed(None) => r is Skip,
            StreamEvent::Changed(Some(text)) => r == StreamAction::Emit(text),
        },
{
    match event {
        StreamEvent::Shutdown => StreamAction::Stop,
        StreamEvent::Closed => StreamAction::Stop,
        StreamEvent::Lagged => StreamAction::Skip,
        StreamEvent::Changed(None) => StreamAction::Skip,
        StreamEvent::Changed(Some(text)) => StreamAction::Emit(text),
    }
}

/// The texts that are there, in their order.
pub open spec fn written(texts: Seq<Option<Seq<char>>>) -> Seq<Seq<char>>
    decreases texts.len(),
{
    if texts.len() == 0 {
        Seq::empty()
    } else {
        match texts.last() {
            Some(text) => written(texts.drop_last()).push(text),
            None => written(texts.drop_last()),
        }
    }
}

/// The texts of a sequence, each by its view.
pub open spec fn text_views(texts: Seq<String>) -> Seq<Seq<char>> {
    texts.map_values(|t: String| t@)
}

/// The views of texts that may be absent.
pub open spec fn optional_text_views(texts: Seq<Option<String>>) -> Seq<Option<Seq<char>>> {
    texts.map_values(|t: Option<String>| text_view(t))
}

/// What a new subscriber is sent first: the text of every current task
/// that could be written, in the order of the snapshot.
pub fn initial_events(snapshot: Vec<Option<String>>) -> (r: Vec<String>)
    ensures
        text_views(r@) == written(optional_text_views(snapshot@)),
{
    let ghost all = optional_text_views(snapshot@);
    let mut events: Vec<String> = Vec::new();
    let mut i: usize = 0;
    assert(all.take(0) =~= Seq::empty());
    assert(text_views(events@) =~= Seq::empty());
    while i < snapshot.len()
        invariant
            i <= snapshot@.len(),
            all == optional_text_views(snapshot@),
            text_views(events@) == written(all.take(i as int)),
        decreases snapshot@.len() - i,
    {
        proof {
            assert(all.take(i as int + 1).drop_last() =~= all.take(i as int));
            assert(all.take(i as int + 1).last() == text_view(snapshot@[i as int]));
        }
        match &snapshot[i] {
            Some(text) => {
                let kept = text.clone();
                proof {
                    assert(text_views(events@.push(kept)) =~= text_views(events@).push(kept@));
                }
                events.push(kept);
            },
            None => {},
        }
        i += 1;
    }
    assert(all.take(snapshot@.len() as int) =~= all);
    events
}

} // verus!
