//! The state behind the user interface: the settings form, the log table and
//! what happens on notifications from the worker and on submitting settings.

use vstd::prelude::*;
use crate::config::{RabbitMQSettings, RabbitMQSettingsView, Settings};
use crate::duration::{duration_text, format_duration_secs};
use crate::json_log::{level_color, level_name, Color, LogEntry};
use crate::timestamp::{
    elapsed_whole_seconds, format_timestamp, lemma_parse_format_roundtrip, spec_elapsed_whole_seconds,
    spec_format_timestamp, spec_parse_timestamp,
};
use crate::logs::Logs;
use crate::text::{decimal, lemma_parse_u16_decimal, parse_u16, push_decimal, spec_parse_u16};
use crate::worker::{Command, CommandView, Notification, NotificationView};

verus! {

/// The settings form, with the port as the text typed in.
#[derive(Debug)]
pub struct SettingsState {
    /// The settings window is open.
    pub show: bool,
    pub host: String,
    pub vhost: String,
    pub port: String,
    pub username: String,
    pub password: String,
}

/// Whether timestamps are shown as time elapsed.
#[derive(Debug, Default)]
pub struct TableState {
    pub as_countdown: bool,
}

/// The state of the interface apart from its widgets.
#[derive(Debug)]
pub struct UiState {
    pub settings_state: SettingsState,
    pub table_state: TableState,
}

/// The form holds exactly the given settings, with the port in decimal, and is closed.
pub open spec fn form_of(f: SettingsState, s: RabbitMQSettingsView) -> bool {
    &&& !f.show
    &&& f.host@ == s.host
    &&& f.vhost@ == s.vhost
    &&& f.port@ == decimal(s.port as nat)
    &&& f.username@ == s.username
    &&& f.password@ == s.password
}

/// The settings that submitting the form gives, when its port text is a port number.
pub open spec fn submitted(f: SettingsState) -> Option<RabbitMQSettingsView> {
    match spec_parse_u16(f.port@) {
        Some(p) => Some(RabbitMQSettingsView {
            host: f.host@,
            vhost: f.vhost@,
            port: p,
            username: f.username@,
            password: f.password@,
        }),
        None => None,
    }
}

/// Submitting a form filled in from settings, unedited, gives those settings back.
pub proof fn lemma_form_roundtrip(f: SettingsState, s: RabbitMQSettingsView)
    requires
        form_of(f, s),
    ensures
        submitted(f) == Some(s),
{
    lemma_parse_u16_decimal(s.port);
}

impl SettingsState {
    /// Whether the port text is a port number, so that the form can be submitted.
    pub fn port_is_valid(&self) -> (r: bool)
        ensures
            r == submitted(*self) is Some,
    {
        parse_u16(self.port.as_str()).is_some()
    }

    /// A closed form filled in from the given settings.
    pub fn load(settings: &RabbitMQSettings) -> (r: SettingsState)
        ensures
            form_of(r, settings@),
    {
        let mut port = String::new();
        push_decimal(&mut port, settings.port as u64);
        proof {
            assert(port@ =~= decimal(settings.port as nat));
        }
        SettingsState {
            show: false,
            host: settings.host.clone(),
            vhost: settings.vhost.clone(),
            port,
            username: settings.username.clone(),
            password: settings.password.clone(),
        }
    }
}

impl TableState {
    /// Flips between absolute and elapsed timestamps when the header button was clicked.
    pub fn toggle_countdown(&mut self, clicked: bool)
        ensures
            final(self).as_countdown == (old(self).as_countdown != clicked),
    {
        self.as_countdown = self.as_countdown != clicked;
    }
}

impl UiState {
    /// The interface state for the given settings: the form filled in from
    /// them and closed, and absolute timestamps.
    pub fn load(settings: &Settings) -> (r: UiState)
        ensures
            form_of(r.settings_state, settings@.rabbit_mq),
            !r.table_state.as_countdown,
    {
        UiState {
            settings_state: SettingsState::load(&settings.rabbit_mq),
            table_state: TableState { as_countdown: false },
        }
    }
}

/// The records among notifications, in order.
pub open spec fn log_entries(ns: Seq<NotificationView>) -> Seq<LogEntry>
    decreases ns.len(),
{
    if ns.len() == 0 {
        Seq::empty()
    } else {
        let rest = log_entries(ns.drop_last());
        match ns.last() {
            NotificationView::LogEntry(e) => rest.push(e),
            _ => rest,
        }
    }
}

/// The records of two runs of notifications are the records of the first run
/// followed by those of the second.
pub proof fn lemma_log_entries_concat(a: Seq<NotificationView>, b: Seq<NotificationView>)
    ensures
        log_entries(a + b) == log_entries(a) + log_entries(b),
    decreases b.len(),
{
    if b.len() == 0 {
        assert(a + b =~= a);
        assert(log_entries(b) =~= Seq::<LogEntry>::empty());
        assert(log_entries(a) + log_entries(b) =~= log_entries(a));
    } else {
        let b0 = b.drop_last();
        lemma_log_entries_concat(a, b0);
        assert((a + b).drop_last() =~= a + b0);
        assert((a + b).last() == b.last());
        match b.last() {
            NotificationView::LogEntry(e) => {
                assert(log_entries(a) + log_entries(b) =~= (log_entries(a) + log_entries(b0)).push(e));
            },
            _ => {
                assert(log_entries(a) + log_entries(b) =~= log_entries(a) + log_entries(b0));
            },
        }
    }
}

/// Every log record notification gives its record, whatever its level, and
/// no other notification gives one.
pub proof fn lemma_log_entries_single(n: NotificationView)
    ensures
        n matches NotificationView::LogEntry(e) ==> log_entries(seq![n]) == seq![e],
        !(n is LogEntry) ==> log_entries(seq![n]) == Seq::<LogEntry>::empty(),
{
    assert(seq![n].drop_last() =~= Seq::<NotificationView>::empty());
    assert(log_entries(Seq::<NotificationView>::empty()) == Seq::<LogEntry>::empty());
    assert(seq![n].last() == n);
    if let NotificationView::LogEntry(e) = n {
        assert(Seq::<LogEntry>::empty().push(e) =~= seq![e]);
    }
}

/// Adding one notification adds its record, if it is a log record, after
/// those of the earlier notifications.
pub proof fn lemma_log_entries_push(ns: Seq<NotificationView>, n: NotificationView)
    ensures
        n matches NotificationView::LogEntry(e) ==> log_entries(ns.push(n)) == log_entries(ns).push(e),
        !(n is LogEntry) ==> log_entries(ns.push(n)) == log_entries(ns),
{
    lemma_log_entries_concat(ns, seq![n]);
    lemma_log_entries_single(n);
    assert(ns + seq![n] =~= ns.push(n));
}

/// The number of records is the number of log record notifications.
pub proof fn lemma_log_entries_len(ns: Seq<NotificationView>)
    ensures
        log_entries(ns).len() == ns.filter(|n: NotificationView| n is LogEntry).len(),
    decreases ns.len(),
{
    reveal_with_fuel(Seq::filter, 1);
    if ns.len() > 0 {
        lemma_log_entries_len(ns.drop_last());
    }
}

/// The toast shown for a notification.
pub open spec fn toast_text(n: NotificationView) -> Seq<char> {
    match n {
        NotificationView::LogEntry(e) => seq!['O', 'n', 'e', ' ', 'm', 'o', 'r', 'e', ' ', 'l', 'o', 'g', ':', ' ']
            + level_name(e.level),
        NotificationView::ConnectionStatusChanged(Err(e)) => seq!['E', 'r', 'r', 'o', 'r', ':', ' '] + e,
        NotificationView::Error(e) => seq!['E', 'r', 'r', 'o', 'r', ':', ' '] + e,
        NotificationView::ConnectionStatusChanged(Ok(())) => seq![
            'C', 'o', 'n', 'n', 'e', 'c', 't', 'e', 'd', '!'
        ],
    }
}

/// The application's state: its settings, the interface state and the log store.
#[derive(Debug)]
pub struct AppState {
    pub settings: Settings,
    pub ui: UiState,
    pub logs: Logs,
}

impl AppState {
    /// The state at start-up, from the loaded settings and log store.
    pub fn new(settings: Settings, logs: Logs) -> (r: AppState)
        ensures
            r.settings == settings,
            r.logs == logs,
            form_of(r.ui.settings_state, settings@.rabbit_mq),
            !r.ui.table_state.as_countdown,
    {
        let ui = UiState::load(&settings);
        AppState { settings, ui, logs }
    }

    fn toast(n: &Notification) -> (r: String)
        ensures
            r@ == toast_text(n@),
    {
        proof {
            reveal_strlit("One more log: ");
            reveal_strlit("Error: ");
            reveal_strlit("Connected!");
        }
        match n {
            Notification::LogEntry(e) => {
                let mut t = String::from_str("One more log: ");
                t.append(e.level.to_string().as_str());
                t
            },
            Notification::ConnectionStatusChanged { status: Err(e) } => {
                let mut t = String::from_str("Error: ");
                t.append(e.as_str());
                t
            },
            Notification::Error(e) => {
                let mut t = String::from_str("Error: ");
                t.append(e.as_str());
                t
            },
            Notification::ConnectionStatusChanged { status: Ok(()) } => String::from_str("Connected!"),
        }
    }

    /// Takes the notifications from the worker, in order: each log record is
    /// added to the store, and one toast is given per notification.
    pub fn update_state(&mut self, notifications: Vec<Notification>) -> (toasts: Vec<String>)
        ensures
            final(self).logs@ == old(self).logs@ + log_entries(
                notifications@.map_values(|n: Notification| n@),
            ),
            final(self).settings == old(self).settings,
            final(self).ui == old(self).ui,
            toasts@.len() == notifications@.len(),
            forall|i: int|
                0 <= i < toasts@.len() ==> #[trigger] toasts@[i]@ == toast_text(notifications@[i]@),
    {
        let ghost ns = notifications@.map_values(|n: Notification| n@);
        let ghost logs0 = self.logs@;
        let mut toasts: Vec<String> = Vec::new();
        let mut rest = notifications;
        let ghost mut done: Seq<NotificationView> = Seq::empty();
        while rest.len() > 0
            invariant
                ns == done + rest@.map_values(|n: Notification| n@),
                self.logs@ == logs0 + log_entries(done),
                toasts@.len() == done.len(),
                forall|i: int| 0 <= i < toasts@.len() ==> #[trigger] toasts@[i]@ == toast_text(ns[i]),
                self.settings == old(self).settings,
                self.ui == old(self).ui,
            decreases rest@.len(),
        {
            let ghost rest0 = rest@;
            let n = rest.remove(0);
            let t = Self::toast(&n);
            proof {
                assert(rest0.map_values(|n: Notification| n@)[0] == n@);
                assert(ns[done.len() as int] == n@);
                let d2 = done.push(n@);
                assert(d2.drop_last() =~= done);
                assert(ns =~= d2 + rest@.map_values(|n: Notification| n@));
                done = d2;
            }
            toasts.push(t);
            match n {
                Notification::LogEntry(e) => {
                    self.logs.append(e);
                },
                _ => {},
            }
        }
        proof {
            assert(done =~= ns);
        }
        toasts
    }

    /// Takes the settings typed in the form, whose port text must be a port
    /// number: the settings become the form's, and the command that gives
    /// them to the worker is returned.
    pub fn apply_settings(&mut self) -> (c: Command)
        requires
            submitted(old(self).ui.settings_state) is Some,
        ensures
            final(self).settings@.rabbit_mq == submitted(old(self).ui.settings_state)->Some_0,
            c@ == CommandView::UpdateConfig(submitted(old(self).ui.settings_state)->Some_0),
            final(self).ui == old(self).ui,
            final(self).logs == old(self).logs,
    {
        let form = &self.ui.settings_state;
        let port = parse_u16(form.port.as_str()).unwrap();
        let rabbit_mq = RabbitMQSettings {
            host: form.host.clone(),
            vhost: form.vhost.clone(),
            port,
            username: form.username.clone(),
            password: form.password.clone(),
        };
        let command = Command::UpdateConfig(rabbit_mq.duplicate());
        self.settings.rabbit_mq = rabbit_mq;
        command
    }
}


/// The first moment a timestamp can denote, in seconds since 1970-01-01T00:00:00 UTC
/// (the first second of year -9999).
pub const MIN_MOMENT: i64 = -377705116800;

/// The last moment a timestamp can denote, in seconds since 1970-01-01T00:00:00 UTC
/// (the last second of year 9999).
pub const MAX_MOMENT: i64 = 253402300799;

/// An integer as an unsigned 64-bit number, wrapping negative values around.
pub open spec fn wrap_u64(x: int) -> nat {
    if x < 0 { (x + 0x1_0000_0000_0000_0000) as nat } else { x as nat }
}

/// The text of the timestamp cell: the timestamp, or the time elapsed since
/// it followed by ` ago`.
pub open spec fn timestamp_cell(e: LogEntry, as_countdown: bool, now_secs: int, now_nanos: int) -> Seq<char> {
    if as_countdown {
        duration_text(wrap_u64(spec_elapsed_whole_seconds(e.timestamp, now_secs, now_nanos)))
            + seq![' ', 'a', 'g', 'o']
    } else {
        spec_format_timestamp(e.timestamp)
    }
}

/// The absolute timestamp cell is the canonical text of the record's own
/// timestamp, offset included: it parses back to that very timestamp.
pub proof fn lemma_timestamp_cell_parses_back(e: LogEntry, now_secs: int, now_nanos: int)
    requires
        e.timestamp.wf(),
    ensures
        spec_parse_timestamp(timestamp_cell(e, false, now_secs, now_nanos)) == Some(e.timestamp),
{
    lemma_parse_format_roundtrip(e.timestamp);
}

/// The texts of one row of the log table.
#[derive(Debug)]
pub struct RowText {
    pub index: String,
    pub timestamp: String,
    pub level: String,
    pub level_color: Color,
    /// `{file}:{line}` of the place that logged.
    pub source: String,
    pub message: String,
    /// Each field's name and the text of its value.
    pub fields: Vec<(String, String)>,
}

/// The texts of the row at `index` of the log table for `entry`; elapsed
/// times are measured up to `now_secs` seconds and `now_nanos` nanoseconds
/// after 1970-01-01T00:00:00 UTC.
pub fn row_text(entry: &LogEntry, index: usize, as_countdown: bool, now_secs: i64, now_nanos: u32) -> (r: RowText)
    requires
        entry.timestamp.wf(),
        now_nanos < 1_000_000_000,
        MIN_MOMENT <= now_secs <= MAX_MOMENT,
    ensures
        r.index@ == decimal(index as nat),
        r.timestamp@ == timestamp_cell(*entry, as_countdown, now_secs as int, now_nanos as int),
        r.level@ == level_name(entry.level),
        r.level_color == level_color(entry.level),
        r.source@ == entry.source.file@ + seq![':'] + decimal(entry.source.line as nat),
        r.message@ == entry.message@,
        r.fields@.len() == entry.fields@.len(),
        forall|i: int| 0 <= i < r.fields@.len() ==> {
            &&& (#[trigger] r.fields@[i]).0@ == entry.fields@[i].0
            &&& r.fields@[i].1@ == entry.fields@[i].1
        },
{
    let mut idx = String::new();
    push_decimal(&mut idx, index as u64);
    proof {
        assert(idx@ =~= decimal(index as nat));
        reveal_strlit(" ago");
        reveal_strlit(":");
    }
    let timestamp = if as_countdown {
        let whole = elapsed_whole_seconds(&entry.timestamp, now_secs, now_nanos);
        proof {
            crate::timestamp::lemma_unix_seconds_range(entry.timestamp);
        }
        let secs: u64 = if whole < 0 { (whole + 0x1_0000_0000_0000_0000) as u64 } else { whole as u64 };
        let mut t = format_duration_secs(secs);
        t.append(" ago");
        t
    } else {
        format_timestamp(&entry.timestamp)
    };
    let mut source = entry.source.file.clone();
    source.append(":");
    push_decimal(&mut source, entry.source.line as u64);
    let mut fields: Vec<(String, String)> = Vec::new();
    let mut i: usize = 0;
    while i < entry.fields.len()
        invariant
            i <= entry.fields@.len(),
            fields@.len() == i,
            forall|j: int| 0 <= j < i ==> {
                &&& (#[trigger] fields@[j]).0@ == entry.fields@[j].0
                &&& fields@[j].1@ == entry.fields@[j].1
            },
        decreases entry.fields@.len() - i,
    {
        fields.push((entry.fields.name(i).clone(), entry.fields.value(i).clone()));
        i = i + 1;
    }
    proof {
        assert(source@ =~= entry.source.file@ + seq![':'] + decimal(entry.source.line as nat));
    }
    RowText {
        index: idx,
        timestamp,
        level: entry.level.to_string(),
        level_color: entry.level.color(),
        source,
        message: entry.message.clone(),
        fields,
    }
}

} // verus!
