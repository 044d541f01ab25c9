use merco::decimal::Decimal;
use merco::errors::AppError;
use merco::errors::ErrorKind;
use merco::handlers::backtest::{
    create_task, get_task, initial_events, stream_step, CreateBacktestTaskRequest,
    CreateBacktestTaskResponse, StreamAction, StreamEvent,
};
use merco::models::{Candle, MarketPrecision};
use merco::tasks::backtest::{BacktestStatistic, BacktestStatus, BacktestTask, TaskEvent};
use merco::tasks::runner::Progress;
use merco::tasks::statistic::calculate_backtest_statistic;

fn dec(text: &str) -> Decimal {
    Decimal::parse(text).expect("a decimal")
}

fn task() -> BacktestTask {
    BacktestTask::new(
        42,
        "my-strategy".to_string(),
        "binance".to_string(),
        "BTC/USDT".to_string(),
        "1h".to_string(),
        MarketPrecision { price_precision: dec("0.01"), amount_precision: dec("0.001") },
        1000,
    )
}

fn statistic() -> BacktestStatistic {
    let candles = [Candle {
        timestamp: 1,
        open: dec("1"),
        high: dec("1"),
        low: dec("1"),
        close: dec("1"),
        volume: dec("1"),
    }];
    calculate_backtest_statistic(dec("10000"), &candles, &[]).unwrap()
}

#[test]
fn a_new_task_is_pending() {
    let t = task();
    assert_eq!(t.id, 42);
    assert_eq!(t.status, BacktestStatus::Pending);
    assert_eq!(t.progress, Progress { done: 0, total: 1 });
    assert_eq!(t.name, "my-strategy");
    assert_eq!(t.exchange, "binance");
    assert_eq!(t.symbol, "BTC/USDT");
    assert_eq!(t.timeframe, "1h");
    assert!(t.statistic.is_none());
    assert!(t.error_message.is_none());
    assert_eq!(t.created_at, 1000);
    assert_eq!(t.updated_at, 1000);
    assert!(t.started_at.is_none());
    assert!(t.completed_at.is_none());
}

#[test]
fn a_request_becomes_a_pending_task() {
    let request = CreateBacktestTaskRequest {
        name: "s".to_string(),
        exchange: "e".to_string(),
        symbol: "A/B".to_string(),
        timeframe: "1d".to_string(),
    };
    let (t, response) = create_task(
        request,
        7,
        MarketPrecision { price_precision: dec("0.5"), amount_precision: dec("1") },
        99,
    );
    assert_eq!(response, CreateBacktestTaskResponse { task_id: 7 });
    assert_eq!(t.id, 7);
    assert_eq!(t.status, BacktestStatus::Pending);
    assert_eq!(t.name, "s");
    assert_eq!(t.timeframe, "1d");
    assert_eq!(t.created_at, 99);
    assert!(t.precision.price_precision.equals(&dec("0.5")));
    assert_eq!(CreateBacktestTaskResponse { task_id: t.id }.task_id, 7);
}

#[test]
fn the_life_of_a_task_that_completes() {
    let mut t = task();
    assert!(t.apply(TaskEvent::Started, 2000));
    assert_eq!(t.status, BacktestStatus::Running);
    assert_eq!(t.started_at, Some(2000));
    assert_eq!(t.updated_at, 2000);
    assert!(t.apply(TaskEvent::Progressed(Progress { done: 1, total: 250 }), 2100));
    assert_eq!(t.status, BacktestStatus::Running);
    assert_eq!(t.progress, Progress { done: 1, total: 250 });
    assert_eq!(t.updated_at, 2100);
    assert!(t.apply(TaskEvent::Completed(statistic()), 3000));
    assert_eq!(t.status, BacktestStatus::Completed);
    assert_eq!(t.progress, Progress { done: 1, total: 1 });
    assert!(t.statistic.is_some());
    assert!(t.error_message.is_none());
    assert_eq!(t.completed_at, Some(3000));
    assert_eq!(t.updated_at, 3000);
    assert_eq!(t.created_at, 1000);
}

#[test]
fn the_life_of_a_task_that_fails() {
    let mut t = task();
    assert!(t.apply(TaskEvent::Started, 2000));
    assert!(t.apply(TaskEvent::Progressed(Progress { done: 101, total: 250 }), 2100));
    assert!(t.apply(TaskEvent::Failed("boom".to_string()), 2500));
    assert_eq!(t.status, BacktestStatus::Failed);
    assert_eq!(t.error_message.as_deref(), Some("boom"));
    assert!(t.statistic.is_none());
    assert_eq!(t.progress, Progress { done: 101, total: 250 });
    assert_eq!(t.completed_at, Some(2500));
}

#[test]
fn an_empty_window_fails_the_task_before_it_runs() {
    let mut t = task();
    let event = BacktestTask::conclude(Err(AppError::NoData));
    assert!(t.apply(event, 1500));
    assert_eq!(t.status, BacktestStatus::Failed);
    assert_eq!(t.error_message.as_deref(), Some("No candles available for backtest"));
    assert!(t.started_at.is_none());
    assert_eq!(t.completed_at, Some(1500));
}

#[test]
fn terminal_states_are_absorbing() {
    let mut done = task();
    done.apply(TaskEvent::Started, 1);
    done.apply(TaskEvent::Completed(statistic()), 2);
    let mut failed = task();
    failed.apply(TaskEvent::Failed("x".to_string()), 2);
    for t in [&mut done, &mut failed] {
        let status = t.status;
        assert!(!t.apply(TaskEvent::Started, 9));
        assert!(!t.apply(TaskEvent::Progressed(Progress { done: 5, total: 9 }), 9));
        assert!(!t.apply(TaskEvent::Completed(statistic()), 9));
        assert!(!t.apply(TaskEvent::Failed("again".to_string()), 9));
        assert_eq!(t.status, status);
        assert_eq!(t.updated_at, 2);
        assert_eq!(t.completed_at, Some(2));
    }
    assert!(done.error_message.is_none());
    assert_eq!(failed.error_message.as_deref(), Some("x"));
}

#[test]
fn events_out_of_turn_are_not_taken() {
    let mut t = task();
    assert!(!t.apply(TaskEvent::Progressed(Progress { done: 1, total: 2 }), 5));
    assert!(!t.apply(TaskEvent::Completed(statistic()), 5));
    assert_eq!(t.status, BacktestStatus::Pending);
    assert_eq!(t.updated_at, 1000);
    assert!(t.apply(TaskEvent::Started, 6));
    assert!(!t.apply(TaskEvent::Started, 7));
    assert_eq!(t.started_at, Some(6));
    assert_eq!(t.updated_at, 6);
}

#[test]
fn conclude_maps_the_outcome_of_a_run() {
    assert!(matches!(BacktestTask::conclude(Ok(statistic())), TaskEvent::Completed(_)));
    match BacktestTask::conclude(Err(AppError::Strategy("tick failed".to_string()))) {
        TaskEvent::Failed(message) => assert_eq!(message, "tick failed"),
        other => panic!("{:?}", other),
    }
    match BacktestTask::conclude(Err(AppError::InsufficientFunds)) {
        TaskEvent::Failed(message) => assert_eq!(message, "Insufficient funds"),
        other => panic!("{:?}", other),
    }
}

#[test]
fn a_stream_ends_with_the_process_or_the_channel() {
    assert!(matches!(stream_step(StreamEvent::Shutdown), StreamAction::Stop));
    assert!(matches!(stream_step(StreamEvent::Closed), StreamAction::Stop));
}

#[test]
fn a_stream_goes_on_over_what_it_cannot_send() {
    assert!(matches!(stream_step(StreamEvent::Lagged), StreamAction::Skip));
    assert!(matches!(stream_step(StreamEvent::Changed(None)), StreamAction::Skip));
}

#[test]
fn a_stream_sends_the_text_of_a_changed_task() {
    match stream_step(StreamEvent::Changed(Some("{\"id\":1}".to_string()))) {
        StreamAction::Emit(text) => assert_eq!(text, "{\"id\":1}"),
        other => panic!("{:?}", other),
    }
}

#[test]
fn a_subscriber_first_gets_the_snapshot() {
    let snapshot = vec![Some("a".to_string()), None, Some("b".to_string()), None];
    assert_eq!(initial_events(snapshot), vec!["a".to_string(), "b".to_string()]);
    assert!(initial_events(Vec::new()).is_empty());
    assert!(initial_events(vec![None]).is_empty());
}

#[test]
fn a_lookup_finds_the_task_or_names_the_identifier() {
    assert_eq!(get_task(Some(5u8), 1).unwrap(), 5);
    let id = 0x67e5504410b1426f9247bb680e5fe0c8u128;
    let err = get_task::<u8>(None, id).unwrap_err();
    assert_eq!(err.kind(), ErrorKind::NotFound);
    assert_eq!(
        err.message(),
        "Task with id '67e55044-10b1-426f-9247-bb680e5fe0c8' is not a Backtest task"
    );
    assert!(matches!(err, AppError::NotFound(_)));
}
