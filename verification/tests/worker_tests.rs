use bucklog::config::RabbitMQSettings;
use bucklog::json_log::{Fields, Level, LogEntry, Source};
use bucklog::timestamp::Timestamp;
use bucklog::worker::{
    poll_command, Command, CommandPoll, ConnWaker, Notification, Received, Stage, WorkerAction,
    WorkerEvent, WorkerState,
};

fn conf(host: &str) -> RabbitMQSettings {
    RabbitMQSettings {
        host: host.to_string(),
        vhost: "v".to_string(),
        port: 5672,
        username: "u".to_string(),
        password: "p".to_string(),
    }
}

fn entry(msg: &str) -> LogEntry {
    LogEntry {
        timestamp: Timestamp { year: 2024, month: 5, day: 1, hour: 12, minute: 0, second: 0, offset_hour: 0 },
        level: Level::INFO,
        message: msg.to_string(),
        fields: Fields::new(),
        span: None,
        source: Source { target: None, function: None, file: "a.rs".to_string(), line: 1 },
    }
}

fn connected(host: &str) -> WorkerState {
    let (mut w, _) = WorkerState::new(conf(host));
    w.step(WorkerEvent::ConnectionOpened);
    w.step(WorkerEvent::ChannelOpened);
    w.step(WorkerEvent::ConsumerStarted);
    w
}

#[test]
fn starts_by_connecting_with_its_settings() {
    let (w, actions) = WorkerState::new(conf("h1"));
    assert_eq!(w.stage, Stage::Connecting);
    assert!(!w.consuming);
    assert!(w.commands_open);
    assert!(matches!(&actions[..], [WorkerAction::OpenConnection(u)] if u == "amqp://u:p@h1:5672/v"));
}

#[test]
fn connecting_goes_through_channel_and_consumer() {
    let (mut w, _) = WorkerState::new(conf("h1"));
    let a = w.step(WorkerEvent::ConnectionOpened);
    assert!(matches!(&a[..], [WorkerAction::OpenChannel]));
    let a = w.step(WorkerEvent::ChannelOpened);
    assert!(matches!(&a[..], [WorkerAction::Consume { queue, consumer_tag }] if queue == "log" && consumer_tag.is_empty()));
    let a = w.step(WorkerEvent::ConsumerStarted);
    assert!(matches!(
        &a[..],
        [WorkerAction::WakeConnectionWaiters, WorkerAction::Notify(Notification::ConnectionStatusChanged { status: Ok(()) })]
    ));
    assert_eq!(w.stage, Stage::Waiting);
    assert!(w.consuming);
}

#[test]
fn failed_connection_is_reported() {
    let (mut w, _) = WorkerState::new(conf("h1"));
    let a = w.step(WorkerEvent::ConnectionFailed("refused".to_string()));
    assert!(matches!(
        &a[..],
        [WorkerAction::Notify(Notification::ConnectionStatusChanged { status: Err(e) })] if e == "refused"
    ));
    assert_eq!(w.stage, Stage::Waiting);
    assert!(!w.consuming);
}

#[test]
fn failed_channel_and_consumer_are_reported() {
    let (mut w, _) = WorkerState::new(conf("h1"));
    w.step(WorkerEvent::ConnectionOpened);
    let a = w.step(WorkerEvent::ChannelFailed("no channel".to_string()));
    assert!(matches!(&a[..], [WorkerAction::Notify(Notification::ConnectionStatusChanged { status: Err(e) })] if e == "no channel"));
    let (mut w, _) = WorkerState::new(conf("h1"));
    w.step(WorkerEvent::ConnectionOpened);
    w.step(WorkerEvent::ChannelOpened);
    let a = w.step(WorkerEvent::ConsumerFailed("no queue".to_string()));
    assert!(matches!(&a[..], [WorkerAction::Notify(Notification::ConnectionStatusChanged { status: Err(e) })] if e == "no queue"));
    assert!(!w.consuming);
}

#[test]
fn deliveries_are_acknowledged_and_forwarded() {
    let mut w = connected("h1");
    let a = w.step(WorkerEvent::Delivery(Ok(entry("hello"))));
    assert!(matches!(&a[..], [WorkerAction::Acknowledge, WorkerAction::Notify(Notification::LogEntry(e))] if e.message == "hello"));
    let a = w.step(WorkerEvent::Delivery(Err("expected value".to_string())));
    assert!(matches!(&a[..], [WorkerAction::Acknowledge, WorkerAction::Send(Notification::Error(m))] if m == "expected value"));
    assert!(w.consuming);
}

#[test]
fn new_settings_are_used_on_reconnect() {
    let mut w = connected("h1");
    let a = w.step(WorkerEvent::CommandReceived(Command::UpdateConfig(conf("h2"))));
    assert!(a.is_empty());
    assert!(!w.consuming);
    let a = w.step(WorkerEvent::CommandReceived(Command::Reconnect));
    assert!(matches!(&a[..], [WorkerAction::OpenConnection(u)] if u == "amqp://u:p@h2:5672/v"));
    assert_eq!(w.stage, Stage::Connecting);
}

#[test]
fn stops_when_commands_close_without_consumer() {
    let mut w = connected("h1");
    assert!(w.step(WorkerEvent::CommandsClosed).is_empty());
    assert_eq!(w.stage, Stage::Waiting);
    let a = w.step(WorkerEvent::ConsumerEnded);
    assert!(matches!(&a[..], [WorkerAction::Stop]));
    assert_eq!(w.stage, Stage::Stopped);
    assert!(w.step(WorkerEvent::CommandReceived(Command::Reconnect)).is_empty());
}

#[test]
fn failed_connection_without_commands_stops() {
    let (mut w, _) = WorkerState::new(conf("h1"));
    let a = w.step(WorkerEvent::ConnectionFailed("x".to_string()));
    assert_eq!(a.len(), 1);
    let a = w.step(WorkerEvent::CommandsClosed);
    assert!(matches!(&a[..], [WorkerAction::Stop]));
}

#[test]
fn out_of_place_events_are_ignored() {
    let (mut w, _) = WorkerState::new(conf("h1"));
    assert!(w.step(WorkerEvent::Delivery(Ok(entry("x")))).is_empty());
    assert!(w.step(WorkerEvent::ChannelOpened).is_empty());
    assert_eq!(w.stage, Stage::Connecting);
}

#[test]
fn conn_waker_takes_the_waker_out() {
    let mut c: ConnWaker<u32> = ConnWaker::new();
    assert_eq!(c.wake(), None);
    c.put(1);
    c.put(2);
    assert_eq!(c.wake(), Some(2));
    assert_eq!(c.wake(), None);
}

#[test]
fn polling_commands() {
    assert!(matches!(poll_command(Received::Message(Command::Reconnect)), CommandPoll::Ready(Some(Command::Reconnect))));
    assert!(matches!(poll_command(Received::Empty), CommandPoll::Pending));
    assert!(matches!(poll_command(Received::Disconnected), CommandPoll::Ready(None)));
}
