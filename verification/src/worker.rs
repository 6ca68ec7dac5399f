//! The decisions of the background worker that receives log records from
//! RabbitMQ.
//!
//! The worker connects to the broker (connection, then channel, then a
//! consumer of the queue `log`), then waits for either a command from the
//! user interface or a delivery. A command stops the current consumer; a
//! `Reconnect` command connects anew with the current settings, an
//! `UpdateConfig` command replaces the settings. A delivery is acknowledged and
//! forwarded to the interface as a log record, or as an error when its body is
//! not a log record. The worker stops once the command channel is closed and
//! no consumer is left.
//!
//! [`WorkerState::step`] takes the worker's state and what just happened and
//! gives the next state and the actions to perform; the program around it
//! performs the actions and reports their outcome as the next event.

use vstd::prelude::*;
use crate::config::{spec_connection_string, RabbitMQSettings, RabbitMQSettingsView};
use crate::json_log::LogEntry;

verus! {

/// A request from the user interface to the worker.
#[derive(Debug)]
pub enum Command {
    /// Drop the current connection and connect anew.
    Reconnect,
    /// Use these settings for the next connection.
    UpdateConfig(RabbitMQSettings),
}

/// What a command holds.
pub enum CommandView {
    Reconnect,
    UpdateConfig(RabbitMQSettingsView),
}

impl View for Command {
    type V = CommandView;

    open spec fn view(&self) -> CommandView {
        match self {
            Command::Reconnect => CommandView::Reconnect,
            Command::UpdateConfig(s) => CommandView::UpdateConfig(s@),
        }
    }
}

/// A message from the worker to the user interface.
#[derive(Debug)]
pub enum Notification {
    /// A log record arrived.
    LogEntry(LogEntry),
    /// A connection attempt ended: `Ok` when consuming started, otherwise the
    /// error's text.
    ConnectionStatusChanged { status: Result<(), String> },
    /// A delivery could not be read as a log record; the decoder's message.
    Error(String),
}

/// What a notification holds.
pub enum NotificationView {
    LogEntry(LogEntry),
    ConnectionStatusChanged(Result<(), Seq<char>>),
    Error(Seq<char>),
}

impl View for Notification {
    type V = NotificationView;

    open spec fn view(&self) -> NotificationView {
        match self {
            Notification::LogEntry(e) => NotificationView::LogEntry(*e),
            Notification::ConnectionStatusChanged { status } => NotificationView::ConnectionStatusChanged(
                match status {
                    Ok(()) => Ok(()),
                    Err(e) => Err(e@),
                },
            ),
            Notification::Error(e) => NotificationView::Error(e@),
        }
    }
}

/// Where the worker stands.
#[derive(Clone, Copy, Debug, PartialEq, Eq, Structural)]
pub enum Stage {
    /// Opening a connection to the broker.
    Connecting,
    /// Opening a channel on the new connection.
    OpeningChannel,
    /// Starting the consumer of the queue `log`.
    StartingConsumer,
    /// Waiting for a command or a delivery.
    Waiting,
    /// Stopped for good.
    Stopped,
}

/// The worker's state.
#[derive(Debug)]
pub struct WorkerState {
    /// The settings of the next connection.
    pub rmq_conf: RabbitMQSettings,
    pub stage: Stage,
    /// A consumer is delivering records.
    pub consuming: bool,
    /// The command channel can still deliver commands.
    pub commands_open: bool,
}

/// What the worker's state holds.
pub struct WorkerStateView {
    pub conf: RabbitMQSettingsView,
    pub stage: Stage,
    pub consuming: bool,
    pub commands_open: bool,
}

impl View for WorkerState {
    type V = WorkerStateView;

    open spec fn view(&self) -> WorkerStateView {
        WorkerStateView {
            conf: self.rmq_conf@,
            stage: self.stage,
            consuming: self.consuming,
            commands_open: self.commands_open,
        }
    }
}

/// What just happened to the worker.
#[derive(Debug)]
pub enum WorkerEvent {
    ConnectionOpened,
    /// Opening the connection failed; the error's text.
    ConnectionFailed(String),
    ChannelOpened,
    ChannelFailed(String),
    ConsumerStarted,
    ConsumerFailed(String),
    CommandReceived(Command),
    /// The command channel is closed and empty.
    CommandsClosed,
    /// A delivery arrived: its body read as a log record, or the decoder's message.
    Delivery(Result<LogEntry, String>),
    /// The consumer ended or failed.
    ConsumerEnded,
}

/// What an event holds.
pub enum WorkerEventView {
    ConnectionOpened,
    ConnectionFailed(Seq<char>),
    ChannelOpened,
    ChannelFailed(Seq<char>),
    ConsumerStarted,
    ConsumerFailed(Seq<char>),
    CommandReceived(CommandView),
    CommandsClosed,
    Delivery(Result<LogEntry, Seq<char>>),
    ConsumerEnded,
}

impl View for WorkerEvent {
    type V = WorkerEventView;

    open spec fn view(&self) -> WorkerEventView {
        match self {
            WorkerEvent::ConnectionOpened => WorkerEventView::ConnectionOpened,
            WorkerEvent::ConnectionFailed(e) => WorkerEventView::ConnectionFailed(e@),
            WorkerEvent::ChannelOpened => WorkerEventView::ChannelOpened,
            WorkerEvent::ChannelFailed(e) => WorkerEventView::ChannelFailed(e@),
            WorkerEvent::ConsumerStarted => WorkerEventView::ConsumerStarted,
            WorkerEvent::ConsumerFailed(e) => WorkerEventView::ConsumerFailed(e@),
            WorkerEvent::CommandReceived(c) => WorkerEventView::CommandReceived(c@),
            WorkerEvent::CommandsClosed => WorkerEventView::CommandsClosed,
            WorkerEvent::Delivery(r) => WorkerEventView::Delivery(
                match r {
                    Ok(e) => Ok(*e),
                    Err(m) => Err(m@),
                },
            ),
            WorkerEvent::ConsumerEnded => WorkerEventView::ConsumerEnded,
        }
    }
}

/// Something the worker asks the program around it to do.
#[derive(Debug)]
pub enum WorkerAction {
    /// Connect to the broker at this AMQP URI.
    OpenConnection(String),
    /// Open a channel on the connection just opened.
    OpenChannel,
    /// Start consuming the queue, under the consumer tag.
    Consume { queue: String, consumer_tag: String },
    /// Wake the tasks waiting for a connection.
    WakeConnectionWaiters,
    /// Acknowledge the delivery just received.
    Acknowledge,
    /// Send the notification and ask the interface to repaint.
    Notify(Notification),
    /// Send the notification without asking for a repaint.
    Send(Notification),
    /// Leave the worker's loop.
    Stop,
}

/// What an action holds.
pub enum WorkerActionView {
    OpenConnection(Seq<char>),
    OpenChannel,
    Consume(Seq<char>, Seq<char>),
    WakeConnectionWaiters,
    Acknowledge,
    Notify(NotificationView),
    Send(NotificationView),
    Stop,
}

impl View for WorkerAction {
    type V = WorkerActionView;

    open spec fn view(&self) -> WorkerActionView {
        match self {
            WorkerAction::OpenConnection(u) => WorkerActionView::OpenConnection(u@),
            WorkerAction::OpenChannel => WorkerActionView::OpenChannel,
            WorkerAction::Consume { queue, consumer_tag } => WorkerActionView::Consume(
                queue@,
                consumer_tag@,
            ),
            WorkerAction::WakeConnectionWaiters => WorkerActionView::WakeConnectionWaiters,
            WorkerAction::Acknowledge => WorkerActionView::Acknowledge,
            WorkerAction::Notify(n) => WorkerActionView::Notify(n@),
            WorkerAction::Send(n) => WorkerActionView::Send(n@),
            WorkerAction::Stop => WorkerActionView::Stop,
        }
    }
}

/// The views of a sequence of actions.
pub open spec fn actions_view(a: Seq<WorkerAction>) -> Seq<WorkerActionView> {
    a.map_values(|x: WorkerAction| x@)
}

/// The queue that log records are consumed from.
pub open spec fn log_queue() -> Seq<char> {
    seq!['l', 'o', 'g']
}

/// The worker's state is consistent: a consumer only runs while waiting.
pub open spec fn worker_wf(s: WorkerStateView) -> bool {
    s.consuming ==> s.stage == Stage::Waiting
}

/// Waiting without a consumer and without commands ends the worker.
pub open spec fn settle(s: WorkerStateView) -> (WorkerStateView, Seq<WorkerActionView>) {
    if s.stage == Stage::Waiting && !s.consuming && !s.commands_open {
        (WorkerStateView { stage: Stage::Stopped, ..s }, seq![WorkerActionView::Stop])
    } else {
        (s, Seq::empty())
    }
}

/// A failed connection step: report the error and wait without a consumer.
pub open spec fn connect_failed(s: WorkerStateView, msg: Seq<char>) -> (WorkerStateView, Seq<WorkerActionView>) {
    let (t, stop) = settle(WorkerStateView { stage: Stage::Waiting, consuming: false, ..s });
    (t, seq![WorkerActionView::Notify(NotificationView::ConnectionStatusChanged(Err(msg)))] + stop)
}

/// The worker's next state and actions after an event.
pub open spec fn spec_step(s: WorkerStateView, e: WorkerEventView) -> (WorkerStateView, Seq<WorkerActionView>) {
    match (s.stage, e) {
        (Stage::Connecting, WorkerEventView::ConnectionOpened) => (
            WorkerStateView { stage: Stage::OpeningChannel, ..s },
            seq![WorkerActionView::OpenChannel],
        ),
        (Stage::Connecting, WorkerEventView::ConnectionFailed(m)) => connect_failed(s, m),
        (Stage::OpeningChannel, WorkerEventView::ChannelOpened) => (
            WorkerStateView { stage: Stage::StartingConsumer, ..s },
            seq![WorkerActionView::Consume(log_queue(), Seq::empty())],
        ),
        (Stage::OpeningChannel, WorkerEventView::ChannelFailed(m)) => connect_failed(s, m),
        (Stage::StartingConsumer, WorkerEventView::ConsumerStarted) => (
            WorkerStateView { stage: Stage::Waiting, consuming: true, ..s },
            seq![
                WorkerActionView::WakeConnectionWaiters,
                WorkerActionView::Notify(NotificationView::ConnectionStatusChanged(Ok(()))),
            ],
        ),
        (Stage::StartingConsumer, WorkerEventView::ConsumerFailed(m)) => connect_failed(s, m),
        (Stage::Waiting, WorkerEventView::CommandReceived(CommandView::Reconnect)) => (
            WorkerStateView { stage: Stage::Connecting, consuming: false, ..s },
            seq![WorkerActionView::OpenConnection(spec_connection_string(s.conf))],
        ),
        (Stage::Waiting, WorkerEventView::CommandReceived(CommandView::UpdateConfig(c))) => settle(
            WorkerStateView { conf: c, consuming: false, ..s },
        ),
        (Stage::Waiting, WorkerEventView::CommandsClosed) => settle(
            WorkerStateView { commands_open: false, ..s },
        ),
        (Stage::Waiting, WorkerEventView::Delivery(r)) => if s.consuming {
            (
                s,
                seq![
                    WorkerActionView::Acknowledge,
                    match r {
                        Ok(entry) => WorkerActionView::Notify(NotificationView::LogEntry(entry)),
                        Err(m) => WorkerActionView::Send(NotificationView::Error(m)),
                    },
                ],
            )
        } else {
            (s, Seq::empty())
        },
        (Stage::Waiting, WorkerEventView::ConsumerEnded) => if s.consuming {
            settle(WorkerStateView { consuming: false, ..s })
        } else {
            (s, Seq::empty())
        },
        _ => (s, Seq::empty()),
    }
}

impl WorkerState {
    /// A worker with the given settings, and its first action: connecting
    /// with those settings.
    pub fn new(config: RabbitMQSettings) -> (r: (WorkerState, Vec<WorkerAction>))
        ensures
            r.0@ == (WorkerStateView {
                conf: config@,
                stage: Stage::Connecting,
                consuming: false,
                commands_open: true,
            }),
            actions_view(r.1@) == seq![WorkerActionView::OpenConnection(spec_connection_string(config@))],
    {
        let url = config.connection_string();
        let state = WorkerState {
            rmq_conf: config,
            stage: Stage::Connecting,
            consuming: false,
            commands_open: true,
        };
        let mut actions = Vec::new();
        actions.push(WorkerAction::OpenConnection(url));
        proof {
            assert(actions_view(actions@) =~= seq![WorkerActionView::OpenConnection(spec_connection_string(config@))]);
        }
        (state, actions)
    }

    fn settle(&mut self, actions: &mut Vec<WorkerAction>)
        ensures
            final(self)@ == settle(old(self)@).0,
            actions_view(final(actions)@) == actions_view(old(actions)@) + settle(old(self)@).1,
    {
        if self.stage == Stage::Waiting && !self.consuming && !self.commands_open {
            self.stage = Stage::Stopped;
            actions.push(WorkerAction::Stop);
        }
        proof {
            assert(actions_view(final(actions)@) =~= actions_view(old(actions)@) + settle(old(self)@).1);
        }
    }

    fn fail_connection(&mut self, msg: String) -> (actions: Vec<WorkerAction>)
        ensures
            final(self)@ == connect_failed(old(self)@, msg@).0,
            actions_view(actions@) == connect_failed(old(self)@, msg@).1,
    {
        self.stage = Stage::Waiting;
        self.consuming = false;
        let mut actions = Vec::new();
        actions.push(WorkerAction::Notify(Notification::ConnectionStatusChanged { status: Err(msg) }));
        self.settle(&mut actions);
        proof {
            assert(actions_view(actions@) =~= connect_failed(old(self)@, msg@).1);
        }
        actions
    }

    /// Takes one event; gives the actions to perform, in order.
    pub fn step(&mut self, event: WorkerEvent) -> (actions: Vec<WorkerAction>)
        ensures
            final(self)@ == spec_step(old(self)@, event@).0,
            actions_view(actions@) == spec_step(old(self)@, event@).1,
    {
        let ghost s0 = self@;
        let ghost e = event@;
        let mut actions: Vec<WorkerAction> = Vec::new();
        match event {
            WorkerEvent::ConnectionOpened => {
                if self.stage == Stage::Connecting {
                    self.stage = Stage::OpeningChannel;
                    actions.push(WorkerAction::OpenChannel);
                }
                proof {
                    assert(actions_view(actions@) =~= spec_step(s0, e).1);
                }
            },
            WorkerEvent::ConnectionFailed(m) => {
                if self.stage == Stage::Connecting {
                    actions = self.fail_connection(m);
                }
                proof {
                    assert(actions_view(actions@) =~= spec_step(s0, e).1);
                }
            },
            WorkerEvent::ChannelOpened => {
                if self.stage == Stage::OpeningChannel {
                    self.stage = Stage::StartingConsumer;
                    proof {
                        reveal_strlit("log");
                    }
                    let queue = String::from_str("log");
                    let consumer_tag = String::new();
                    proof {
                        assert(queue@ =~= log_queue());
                        assert(consumer_tag@ =~= Seq::<char>::empty());
                    }
                    actions.push(WorkerAction::Consume { queue, consumer_tag });
                }
                proof {
                    assert(actions_view(actions@) =~= spec_step(s0, e).1);
                }
            },
            WorkerEvent::ChannelFailed(m) => {
                if self.stage == Stage::OpeningChannel {
                    actions = self.fail_connection(m);
                }
                proof {
                    assert(actions_view(actions@) =~= spec_step(s0, e).1);
                }
            },
            WorkerEvent::ConsumerStarted => {
                if self.stage == Stage::StartingConsumer {
                    self.stage = Stage::Waiting;
                    self.consuming = true;
                    actions.push(WorkerAction::WakeConnectionWaiters);
                    actions.push(
                        WorkerAction::Notify(Notification::ConnectionStatusChanged { status: Ok(()) }),
                    );
                }
                proof {
                    assert(actions_view(actions@) =~= spec_step(s0, e).1);
                }
            },
            WorkerEvent::ConsumerFailed(m) => {
                if self.stage == Stage::StartingConsumer {
                    actions = self.fail_connection(m);
                }
                proof {
                    assert(actions_view(actions@) =~= spec_step(s0, e).1);
                }
            },
            WorkerEvent::CommandReceived(c) => {
                if self.stage == Stage::Waiting {
                    match c {
                        Command::Reconnect => {
                            self.stage = Stage::Connecting;
                            self.consuming = false;
                            actions.push(WorkerAction::OpenConnection(self.rmq_conf.connection_string()));
                        },
                        Command::UpdateConfig(conf) => {
                            self.rmq_conf = conf;
                            self.consuming = false;
                            self.settle(&mut actions);
                        },
                    }
                }
                proof {
                    assert(actions_view(actions@) =~= spec_step(s0, e).1);
                }
            },
            WorkerEvent::CommandsClosed => {
                if self.stage == Stage::Waiting {
                    self.commands_open = false;
                    self.settle(&mut actions);
                }
                proof {
                    assert(actions_view(actions@) =~= spec_step(s0, e).1);
                }
            },
            WorkerEvent::Delivery(r) => {
                if self.stage == Stage::Waiting && self.consuming {
                    actions.push(WorkerAction::Acknowledge);
                    match r {
                        Ok(entry) => actions.push(WorkerAction::Notify(Notification::LogEntry(entry))),
                        Err(m) => actions.push(WorkerAction::Send(Notification::Error(m))),
                    }
                }
                proof {
                    assert(actions_view(actions@) =~= spec_step(s0, e).1);
                }
            },
            WorkerEvent::ConsumerEnded => {
                if self.stage == Stage::Waiting && self.consuming {
                    self.consuming = false;
                    self.settle(&mut actions);
                }
                proof {
                    assert(actions_view(actions@) =~= spec_step(s0, e).1);
                }
            },
        }
        actions
    }
}


/// Every step keeps the worker's state consistent: a consumer only runs while
/// the worker waits.
pub proof fn lemma_step_keeps_wf(s: WorkerStateView, e: WorkerEventView)
    requires
        worker_wf(s),
    ensures
        worker_wf(spec_step(s, e).0),
{
}

/// A stopped worker stays stopped and does nothing more.
pub proof fn lemma_stopped_is_final(s: WorkerStateView, e: WorkerEventView)
    requires
        s.stage == Stage::Stopped,
    ensures
        spec_step(s, e).0 == s,
        spec_step(s, e).1 == Seq::<WorkerActionView>::empty(),
{
}

/// A successful connection goes through opening the connection, the channel
/// and the consumer of the queue `log`, then wakes the tasks waiting for it,
/// reports success and waits for deliveries; the settings stay as they were.
pub proof fn lemma_connect_sequence(s: WorkerStateView)
    requires
        s.stage == Stage::Connecting,
    ensures
        ({
            let (s1, a1) = spec_step(s, WorkerEventView::ConnectionOpened);
            let (s2, a2) = spec_step(s1, WorkerEventView::ChannelOpened);
            let (s3, a3) = spec_step(s2, WorkerEventView::ConsumerStarted);
            &&& a1 == seq![WorkerActionView::OpenChannel]
            &&& a2 == seq![WorkerActionView::Consume(log_queue(), Seq::empty())]
            &&& a3 == seq![
                WorkerActionView::WakeConnectionWaiters,
                WorkerActionView::Notify(NotificationView::ConnectionStatusChanged(Ok(()))),
            ]
            &&& s3.stage == Stage::Waiting
            &&& s3.consuming
            &&& s3.conf == s.conf
            &&& s3.commands_open == s.commands_open
        }),
{
}

/// A failed step of connecting is reported once, as the error's text, and
/// leaves the worker without a consumer; it then waits for commands, or
/// stops when no command can come.
pub proof fn lemma_connection_failure_reported(s: WorkerStateView, e: WorkerEventView, msg: Seq<char>)
    requires
        (s.stage == Stage::Connecting && e == WorkerEventView::ConnectionFailed(msg))
            || (s.stage == Stage::OpeningChannel && e == WorkerEventView::ChannelFailed(msg))
            || (s.stage == Stage::StartingConsumer && e == WorkerEventView::ConsumerFailed(msg)),
    ensures
        ({
            let (t, a) = spec_step(s, e);
            &&& a[0] == WorkerActionView::Notify(NotificationView::ConnectionStatusChanged(Err(msg)))
            &&& !t.consuming
            &&& t.conf == s.conf
            &&& if s.commands_open {
                t.stage == Stage::Waiting && a.len() == 1
            } else {
                t.stage == Stage::Stopped && a == seq![a[0], WorkerActionView::Stop]
            }
        }),
{
}

/// A reconnect command connects with the settings the worker holds.
pub proof fn lemma_reconnect_uses_settings(s: WorkerStateView)
    requires
        s.stage == Stage::Waiting,
    ensures
        spec_step(s, WorkerEventView::CommandReceived(CommandView::Reconnect)).1 == seq![
            WorkerActionView::OpenConnection(spec_connection_string(s.conf)),
        ],
        spec_step(s, WorkerEventView::CommandReceived(CommandView::Reconnect)).0.stage == Stage::Connecting,
{
}

/// New settings are used by the next reconnect.
pub proof fn lemma_update_then_reconnect(s: WorkerStateView, c: RabbitMQSettingsView)
    requires
        s.stage == Stage::Waiting,
        s.commands_open,
    ensures
        ({
            let (s1, a1) = spec_step(s, WorkerEventView::CommandReceived(CommandView::UpdateConfig(c)));
            let (s2, a2) = spec_step(s1, WorkerEventView::CommandReceived(CommandView::Reconnect));
            &&& a1 == Seq::<WorkerActionView>::empty()
            &&& s1.conf == c
            &&& a2 == seq![WorkerActionView::OpenConnection(spec_connection_string(c))]
        }),
{
}

/// Any command ends the current consumer.
pub proof fn lemma_command_stops_consumer(s: WorkerStateView, c: CommandView)
    requires
        s.stage == Stage::Waiting,
    ensures
        !spec_step(s, WorkerEventView::CommandReceived(c)).0.consuming,
{
}

/// While consuming, each delivery is acknowledged and then forwarded: a log
/// record with a repaint, a body that is no log record as an error without
/// one. The state does not change.
pub proof fn lemma_delivery_forwarded(s: WorkerStateView, r: Result<LogEntry, Seq<char>>)
    requires
        s.stage == Stage::Waiting,
        s.consuming,
    ensures
        spec_step(s, WorkerEventView::Delivery(r)).0 == s,
        spec_step(s, WorkerEventView::Delivery(r)).1 == seq![
            WorkerActionView::Acknowledge,
            match r {
                Ok(entry) => WorkerActionView::Notify(NotificationView::LogEntry(entry)),
                Err(m) => WorkerActionView::Send(NotificationView::Error(m)),
            },
        ],
{
}

/// When the consumer ends while commands can still come, the worker only
/// forgets the consumer: it keeps its settings, keeps taking commands, does
/// nothing and does not stop; a following reconnect connects anew with the
/// settings it holds.
pub proof fn lemma_consumer_end_keeps_commands(s: WorkerStateView)
    requires
        s.stage == Stage::Waiting,
        s.consuming,
        s.commands_open,
    ensures
        ({
            let (t, a) = spec_step(s, WorkerEventView::ConsumerEnded);
            let (u, b) = spec_step(t, WorkerEventView::CommandReceived(CommandView::Reconnect));
            &&& t == WorkerStateView { consuming: false, ..s }
            &&& t.stage == Stage::Waiting
            &&& t.commands_open
            &&& t.conf == s.conf
            &&& a == Seq::<WorkerActionView>::empty()
            &&& b == seq![WorkerActionView::OpenConnection(spec_connection_string(s.conf))]
            &&& u.stage == Stage::Connecting
        }),
{
}

/// The worker stops only when no command can come and no consumer is left,
/// and stopping is its last action.
pub proof fn lemma_stop_only_when_idle(s: WorkerStateView, e: WorkerEventView, i: int)
    requires
        0 <= i < spec_step(s, e).1.len(),
        spec_step(s, e).1[i] == WorkerActionView::Stop,
    ensures
        spec_step(s, e).0.stage == Stage::Stopped,
        !spec_step(s, e).0.consuming,
        !spec_step(s, e).0.commands_open,
        i == spec_step(s, e).1.len() - 1,
{
}

/// The slot of the waker that waits for a connection: putting a waker
/// replaces the previous one, and waking takes the waker out, so that the
/// slot can be filled again.
pub struct ConnWaker<W> {
    slot: Option<W>,
}

impl<W> View for ConnWaker<W> {
    type V = Option<W>;

    closed spec fn view(&self) -> Option<W> {
        self.slot
    }
}

impl<W> ConnWaker<W> {
    /// An empty slot.
    pub fn new() -> (r: Self)
        ensures
            r@ == None::<W>,
    {
        ConnWaker { slot: None }
    }

    /// Stores the waker, replacing any previous one.
    pub fn put(&mut self, w: W)
        ensures
            final(self)@ == Some(w),
    {
        self.slot = Some(w);
    }

    /// Takes the stored waker out, for the caller to wake; the slot is empty afterwards.
    pub fn wake(&mut self) -> (r: Option<W>)
        ensures
            r == old(self)@,
            final(self)@ == None::<W>,
    {
        let mut taken = None;
        std::mem::swap(&mut taken, &mut self.slot);
        taken
    }
}

impl<W> Default for ConnWaker<W> {
    fn default() -> (r: Self)
        ensures
            r@ == None::<W>,
    {
        ConnWaker { slot: None }
    }
}

/// What trying to receive from a channel gave.
pub enum Received<T> {
    /// A message.
    Message(T),
    /// No message for now.
    Empty,
    /// The sending side is gone and no message is left.
    Disconnected,
}

/// The outcome of polling for the next command.
#[derive(Debug)]
pub enum CommandPoll {
    /// A command arrived, or `None` when no command will ever arrive.
    Ready(Option<Command>),
    /// No command yet: the caller stores its waker and is woken on the next command.
    Pending,
}

/// Polls for the next command, given what trying to receive one gave.
pub fn poll_command(received: Received<Command>) -> (r: CommandPoll)
    ensures
        match received {
            Received::Message(c) => r == CommandPoll::Ready(Some(c)),
            Received::Empty => r == CommandPoll::Pending,
            Received::Disconnected => r == CommandPoll::Ready(None),
        },
{
    match received {
        Received::Message(c) => CommandPoll::Ready(Some(c)),
        Received::Empty => CommandPoll::Pending,
        Received::Disconnected => CommandPoll::Ready(None),
    }
}

} // verus!
