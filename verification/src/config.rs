//! RabbitMQ connection settings and the persisted application settings.

use vstd::prelude::*;
use crate::text::{decimal, push_decimal};

verus! {

/// What the settings of the RabbitMQ connection hold.
pub struct RabbitMQSettingsView {
    pub host: Seq<char>,
    pub vhost: Seq<char>,
    pub port: u16,
    pub username: Seq<char>,
    pub password: Seq<char>,
}

/// Where and as whom the worker connects to RabbitMQ.
#[derive(Debug)]
pub struct RabbitMQSettings {
    pub host: String,
    pub vhost: String,
    pub port: u16,
    pub username: String,
    pub password: String,
}

impl View for RabbitMQSettings {
    type V = RabbitMQSettingsView;

    open spec fn view(&self) -> RabbitMQSettingsView {
        RabbitMQSettingsView {
            host: self.host@,
            vhost: self.vhost@,
            port: self.port,
            username: self.username@,
            password: self.password@,
        }
    }
}

/// The settings used when no configuration could be read: empty texts and port 0.
pub open spec fn default_rabbit_mq() -> RabbitMQSettingsView {
    RabbitMQSettingsView {
        host: Seq::empty(),
        vhost: Seq::empty(),
        port: 0,
        username: Seq::empty(),
        password: Seq::empty(),
    }
}

/// The AMQP URI `amqp://{username}:{password}@{host}:{port}/{vhost}`.
pub open spec fn spec_connection_string(s: RabbitMQSettingsView) -> Seq<char> {
    seq!['a', 'm', 'q', 'p', ':', '/', '/'] + s.username + seq![':'] + s.password + seq!['@']
        + s.host + seq![':'] + decimal(s.port as nat) + seq!['/'] + s.vhost
}

/// The URI carries every setting verbatim, in the layout
/// `amqp://{username}:{password}@{host}:{port}/{vhost}`: each field can be
/// read back from its place.
pub proof fn lemma_connection_string_fields(s: RabbitMQSettingsView)
    ensures
        ({
            let u = spec_connection_string(s);
            let a: int = 7 + s.username.len() as int;
            let b: int = a + 1 + s.password.len();
            let c: int = b + 1 + s.host.len();
            let d: int = c + 1 + decimal(s.port as nat).len();
            &&& u.subrange(0, 7) == seq!['a', 'm', 'q', 'p', ':', '/', '/']
            &&& u.subrange(7, a) == s.username
            &&& u[a] == ':'
            &&& u.subrange(a + 1, b) == s.password
            &&& u[b] == '@'
            &&& u.subrange(b + 1, c) == s.host
            &&& u[c] == ':'
            &&& u.subrange(c + 1, d) == decimal(s.port as nat)
            &&& u[d] == '/'
            &&& u.subrange(d + 1, u.len() as int) == s.vhost
            &&& u.len() == d + 1 + s.vhost.len()
        }),
{
    let u = spec_connection_string(s);
    let a: int = 7 + s.username.len() as int;
    let b: int = a + 1 + s.password.len();
    let c: int = b + 1 + s.host.len();
    let d: int = c + 1 + decimal(s.port as nat).len();
    assert(u.subrange(0, 7) =~= seq!['a', 'm', 'q', 'p', ':', '/', '/']);
    assert(u.subrange(7, a) =~= s.username);
    assert(u.subrange(a + 1, b) =~= s.password);
    assert(u.subrange(b + 1, c) =~= s.host);
    assert(u.subrange(c + 1, d) =~= decimal(s.port as nat));
    assert(u.subrange(d + 1, u.len() as int) =~= s.vhost);
}

impl Default for RabbitMQSettings {
    fn default() -> (r: Self)
        ensures
            r@ == default_rabbit_mq(),
    {
        RabbitMQSettings {
            host: String::new(),
            vhost: String::new(),
            port: 0,
            username: String::new(),
            password: String::new(),
        }
    }
}

impl RabbitMQSettings {
    /// A copy with the same contents.
    pub fn duplicate(&self) -> (r: Self)
        ensures
            r@ == self@,
    {
        RabbitMQSettings {
            host: self.host.clone(),
            vhost: self.vhost.clone(),
            port: self.port,
            username: self.username.clone(),
            password: self.password.clone(),
        }
    }

    /// The AMQP URI of these settings:
    /// `amqp://{username}:{password}@{host}:{port}/{vhost}`.
    pub fn connection_string(&self) -> (r: String)
        ensures
            r@ == spec_connection_string(self@),
    {
        proof {
            reveal_strlit("amqp://");
            reveal_strlit(":");
            reveal_strlit("@");
            reveal_strlit("/");
        }
        let mut r = String::new();
        r.append("amqp://");
        r.append(self.username.as_str());
        r.append(":");
        r.append(self.password.as_str());
        r.append("@");
        r.append(self.host.as_str());
        r.append(":");
        push_decimal(&mut r, self.port as u64);
        r.append("/");
        r.append(self.vhost.as_str());
        proof {
            assert(r@ =~= spec_connection_string(self@));
        }
        r
    }
}

/// What the application settings hold.
pub struct SettingsView {
    pub rabbit_mq: RabbitMQSettingsView,
}

/// The application settings, stored as YAML in the user's configuration directory.
#[derive(Debug)]
pub struct Settings {
    pub rabbit_mq: RabbitMQSettings,
}

impl View for Settings {
    type V = SettingsView;

    open spec fn view(&self) -> SettingsView {
        SettingsView { rabbit_mq: self.rabbit_mq@ }
    }
}

impl Default for Settings {
    fn default() -> (r: Self)
        ensures
            r@.rabbit_mq == default_rabbit_mq(),
    {
        Settings { rabbit_mq: RabbitMQSettings::default() }
    }
}

impl Settings {
    /// The settings to start with, given what reading the configuration file
    /// gave: the settings read, or the defaults when the file could not be
    /// read or did not hold settings.
    pub fn load_configuration(loaded: Result<Settings, String>) -> (r: Settings)
        ensures
            match loaded {
                Ok(s) => r == s,
                Err(_) => r@.rabbit_mq == default_rabbit_mq(),
            },
    {
        match loaded {
            Ok(s) => s,
            Err(_) => Settings::default(),
        }
    }

    /// A copy with the same contents.
    pub fn duplicate(&self) -> (r: Self)
        ensures
            r@ == self@,
    {
        Settings { rabbit_mq: self.rabbit_mq.duplicate() }
    }
}

} // verus!
