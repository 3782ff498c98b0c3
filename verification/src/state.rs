//! The application's state, and how commands and network events change it.

use crate::clock::{max_span_nanos, NANOS_PER_SEC};
use crate::config::{AppConfig, AppConfigView};
use crate::net::{NetCmd, NetCmdView, NetEvent, NetEventView};
use crate::ratelimit::{BucketView, TokenBucket};
use crate::text::{
    contains, decimal, decimal_text, join, lower_text, lowercase, occurs_in, trim, trim_text,
};
use vstd::prelude::*;
use vstd::string::StringExecFns;

verus! {

/// One entry of the message log.
#[derive(Clone, Debug)]
pub struct ChatMessage {
    pub ts_ms: u64,
    pub username: String,
    pub text: String,
}

pub struct ChatMessageView {
    pub ts_ms: u64,
    pub username: Seq<char>,
    pub text: Seq<char>,
}

impl View for ChatMessage {
    type V = ChatMessageView;

    open spec fn view(&self) -> ChatMessageView {
        ChatMessageView { ts_ms: self.ts_ms, username: self.username@, text: self.text@ }
    }
}

impl ChatMessageView {
    /// Whether the sender's name or the text holds `needle`, letter case aside.
    pub open spec fn mentions(self, needle: Seq<char>) -> bool {
        occurs_in(needle, lower_text(self.username)) || occurs_in(needle, lower_text(self.text))
    }
}

impl ChatMessage {
    /// A copy with the same time, sender and text.
    pub fn duplicate(&self) -> (m: ChatMessage)
        ensures
            m@ == self@,
    {
        ChatMessage { ts_ms: self.ts_ms, username: self.username.clone(), text: self.text.clone() }
    }
}

/// A log as mathematics.
pub open spec fn log_view(log: Seq<ChatMessage>) -> Seq<ChatMessageView> {
    log.map_values(|m: ChatMessage| m@)
}

/// What the presentation layer observes, and what the next command is built
/// from.
pub struct AppState {
    pub cfg: AppConfig,
    /// Messages received, oldest first; entries are added at the end and
    /// never changed.
    pub messages: Vec<ChatMessage>,
    pub connected: bool,
    pub status_text: String,
    pub rate: TokenBucket,
    pub window_focused: bool,
    /// The change counter last published: the number of messages in the log.
    pub published: u64,
}

pub struct AppStateView {
    pub cfg: AppConfigView,
    pub messages: Seq<ChatMessageView>,
    pub connected: bool,
    pub status_text: Seq<char>,
    pub rate: BucketView,
    pub window_focused: bool,
    pub published: u64,
}

impl View for AppState {
    type V = AppStateView;

    open spec fn view(&self) -> AppStateView {
        AppStateView {
            cfg: self.cfg@,
            messages: log_view(self.messages@),
            connected: self.connected,
            status_text: self.status_text@,
            rate: self.rate@,
            window_focused: self.window_focused,
            published: self.published,
        }
    }
}

/// What is to follow a new message.
#[derive(Debug, Clone, Copy, PartialEq, Eq, Structural)]
pub struct Publication {
    /// The counter to publish to observers.
    pub count: u64,
    /// Whether the user is to be notified: notifications are on and the
    /// window is out of focus.
    pub notify: bool,
}

impl AppStateView {
    /// The change counter is the length of the log, and the rate limiter is
    /// in order.
    pub open spec fn well_formed(self) -> bool {
        &&& self.published == self.messages.len()
        &&& self.rate.well_formed()
    }

    /// The state at launch: no session, an empty log, a full bucket.
    pub open spec fn initial(cfg: AppConfigView) -> AppStateView {
        AppStateView {
            cfg,
            messages: Seq::empty(),
            connected: false,
            status_text: "Готов."@,
            rate: BucketView::full(
                cfg.flood_limit_burst as nat,
                cfg.flood_limit_window_sec as nat * NANOS_PER_SEC as nat,
            ),
            window_focused: true,
            published: 0,
        }
    }

    /// The state after an event: exactly one of the connection flag with its
    /// status text, the status text alone, or the log with its counter changes.
    pub open spec fn applied(self, event: NetEventView) -> AppStateView {
        match event {
            NetEventView::Connected => AppStateView {
                connected: true,
                status_text: "Подключено"@,
                ..self
            },
            NetEventView::Disconnected { reason } => AppStateView {
                connected: false,
                status_text: "Отключено ("@ + reason + ")"@,
                ..self
            },
            NetEventView::Error { msg } => AppStateView {
                status_text: "Ошибка: "@ + msg,
                ..self
            },
            NetEventView::Message { ts_ms, username, text } => AppStateView {
                messages: self.messages.push(ChatMessageView { ts_ms, username, text }),
                published: (self.messages.len() + 1) as u64,
                ..self
            },
        }
    }

    /// What an event gives to publish: a message gives the new length of the
    /// log, anything else nothing.
    pub open spec fn publication(self, event: NetEventView) -> Option<Publication> {
        if event is Message {
            Some(
                Publication {
                    count: (self.messages.len() + 1) as u64,
                    notify: self.cfg.notifications_enabled && !self.window_focused,
                },
            )
        } else {
            None
        }
    }

    /// The status shown while a connection to `host` and `port` is set up.
    pub open spec fn connecting_status(host: Seq<char>, port: u16) -> Seq<char> {
        "Подключение к "@ + host + ":"@ + decimal_text(port as nat) + "…"@
    }

    /// The state after asking for a connection: only the status text changes.
    pub open spec fn connecting(self, host: Seq<char>, port: u16) -> AppStateView {
        AppStateView { status_text: Self::connecting_status(host, port), ..self }
    }

    /// The state after an attempt at `now` to send `text`, and the command to
    /// enqueue. The rate limiter is asked first: with a token the command goes
    /// out and nothing else changes; without one no command is made and the
    /// status text says that messages come too often.
    pub open spec fn sent(self, now: nat, text: Seq<char>) -> (AppStateView, Option<NetCmdView>) {
        let (rate, taken) = self.rate.taken(now);
        if taken {
            (AppStateView { rate, ..self }, Some(NetCmdView::SendText(text)))
        } else {
            (AppStateView { rate, status_text: "Слишком часто"@, ..self }, None)
        }
    }

    /// The messages that a query finds, in the order of the log: none for a
    /// query that is empty once trimmed, else those whose sender or text holds
    /// the trimmed query, letter case aside.
    pub open spec fn found(self, query: Seq<char>) -> Seq<ChatMessageView> {
        let needle = lower_text(trim_text(query));
        if needle.len() == 0 {
            Seq::empty()
        } else {
            self.messages.filter(|m: ChatMessageView| m.mentions(needle))
        }
    }
}

impl AppState {
    /// The state at launch, with the rate limiter seeded from the settings.
    pub fn new(cfg: AppConfig) -> (state: AppState)
        ensures
            state@ == AppStateView::initial(cfg@),
            state@.well_formed(),
    {
        let secs = cfg.flood_limit_window_sec;
        assert(secs as nat * NANOS_PER_SEC as nat <= max_span_nanos()) by (nonlinear_arith)
            requires
                secs <= u64::MAX,
                NANOS_PER_SEC == 1_000_000_000,
                max_span_nanos() == u64::MAX as nat * 1_000_000_000 + 999_999_999,
        ;
        let rate = TokenBucket::with_window(
            cfg.flood_limit_burst,
            secs as u128 * (NANOS_PER_SEC as u128),
        );
        let state = AppState {
            cfg,
            messages: Vec::new(),
            connected: false,
            status_text: String::from_str("Готов."),
            rate,
            window_focused: true,
            published: 0,
        };
        assert(log_view(state.messages@) =~= Seq::<ChatMessageView>::empty());
        state
    }

    /// Folds one network event into the state and says what to publish.
    pub fn apply_event(&mut self, event: NetEvent) -> (out: Option<Publication>)
        ensures
            final(self)@ == old(self)@.applied(event@),
            out == old(self)@.publication(event@),
            old(self)@.well_formed() ==> final(self)@.well_formed(),
    {
        match event {
            NetEvent::Connected => {
                self.connected = true;
                self.status_text = String::from_str("Подключено");
                None
            },
            NetEvent::Disconnected { reason } => {
                self.connected = false;
                self.status_text = join("Отключено (", reason.as_str()).concat(")");
                None
            },
            NetEvent::Error { msg } => {
                self.status_text = join("Ошибка: ", msg.as_str());
                None
            },
            NetEvent::Message { ts_ms, username, text } => {
                self.messages.push(ChatMessage { ts_ms, username, text });
                let count = self.messages.len() as u64;
                self.published = count;
                assert(log_view(self.messages@) =~= log_view(old(self).messages@).push(
                    ChatMessageView { ts_ms, username: username@, text: text@ },
                ));
                Some(
                    Publication {
                        count,
                        notify: self.cfg.notifications_enabled && !self.window_focused,
                    },
                )
            },
        }
    }

    /// Background services are started with the state; nothing is left to do.
    pub fn start_background(&self) {
    }

    /// Asks for a connection to `host` and `port` under the name `nick`: sets
    /// the status text and gives the command to enqueue.
    pub fn connect_to(&mut self, host: String, port: u16, nick: String) -> (cmd: NetCmd)
        ensures
            final(self)@ == old(self)@.connecting(host@, port),
            cmd@ == (NetCmdView::Connect { host: host@, port, nick: nick@ }),
    {
        self.status_text = join("Подключение к ", host.as_str()).concat(":").concat(
            decimal(port).as_str(),
        ).concat("…");
        NetCmd::Connect { host, port, nick }
    }

    /// Asks for a connection to the server of the settings.
    pub fn connect(&mut self) -> (cmd: NetCmd)
        ensures
            final(self)@ == old(self)@.connecting(
                old(self)@.cfg.last_host,
                old(self)@.cfg.last_port,
            ),
            cmd@ == (NetCmdView::Connect {
                host: old(self)@.cfg.last_host,
                port: old(self)@.cfg.last_port,
                nick: old(self)@.cfg.last_nick,
            }),
    {
        let host = self.cfg.last_host.clone();
        let port = self.cfg.last_port;
        let nick = self.cfg.last_nick.clone();
        self.connect_to(host, port, nick)
    }

    /// The command that ends the session.
    pub fn disconnect(&self) -> (cmd: NetCmd)
        ensures
            cmd@ == NetCmdView::Disconnect,
    {
        NetCmd::Disconnect
    }

    /// Tries to send `text`, `now` nanoseconds after the rate limiter was
    /// made: gives the command to enqueue, or none when the limiter has no
    /// token, which the status text then says.
    pub fn send_text_at(&mut self, now: u128, text: String) -> (cmd: Option<NetCmd>)
        ensures
            final(self)@ == old(self)@.sent(now as nat, text@).0,
            crate::net::cmd_view(cmd) == old(self)@.sent(now as nat, text@).1,
            old(self)@.well_formed() ==> final(self)@.well_formed(),
    {
        if !self.rate.take_at(now) {
            self.status_text = String::from_str("Слишком часто");
            return None;
        }
        Some(NetCmd::SendText(text))
    }

    /// Tries to send `text` at the moment the clock reads; whatever it reads,
    /// the state goes through [`AppStateView::sent`] at that reading.
    pub fn send_text(&mut self, text: String) -> (cmd: Option<NetCmd>)
        ensures
            exists|now: nat|
                (final(self)@, crate::net::cmd_view(cmd)) == #[trigger] old(self)@.sent(
                    now,
                    text@,
                ),
    {
        let now = self.rate.age();
        let cmd = self.send_text_at(now, text);
        assert((self@, crate::net::cmd_view(cmd)) == old(self)@.sent(now as nat, text@));
        cmd
    }

    /// Tries to send `text`; the same as [`AppState::send_text`].
    pub fn send_message(&mut self, text: String) -> (cmd: Option<NetCmd>)
        ensures
            exists|now: nat|
                (final(self)@, crate::net::cmd_view(cmd)) == #[trigger] old(self)@.sent(
                    now,
                    text@,
                ),
    {
        self.send_text(text)
    }

    /// Looks the log through for a query.
    pub fn search(&self, q: &str) -> (hits: Vec<ChatMessage>)
        ensures
            log_view(hits@) == self@.found(q@),
    {
        let ql = lowercase(trim(q));
        let mut hits: Vec<ChatMessage> = Vec::new();
        if ql.as_str().is_empty() {
            assert(log_view(hits@) =~= Seq::<ChatMessageView>::empty());
            return hits;
        }
        let ghost needle = ql@;
        let ghost pred = |m: ChatMessageView| m.mentions(needle);
        let ghost log = log_view(self.messages@);
        proof {
            reveal(Seq::filter);
        }
        assert(log_view(hits@) =~= log.take(0).filter(pred));
        let mut i: usize = 0;
        while i < self.messages.len()
            invariant
                0 <= i <= self.messages.len(),
                needle == ql@,
                pred == |m: ChatMessageView| m.mentions(needle),
                log == log_view(self.messages@),
                log_view(hits@) == log.take(i as int).filter(pred),
            decreases self.messages.len() - i,
        {
            let m = &self.messages[i];
            let hit = contains(lowercase(m.username.as_str()).as_str(), ql.as_str()) || contains(
                lowercase(m.text.as_str()).as_str(),
                ql.as_str(),
            );
            proof {
                reveal(Seq::filter);
                assert(log.take(i + 1).drop_last() =~= log.take(i as int));
                assert(log.take(i + 1).last() == m@);
                assert(hit == pred(m@));
            }
            if hit {
                let ghost before = log_view(hits@);
                hits.push(m.duplicate());
                assert(log_view(hits@) =~= before.push(m@));
            }
            i = i + 1;
        }
        assert(log.take(i as int) =~= log);
        hits
    }
}

/// Sending while the bucket is empty makes no command and leaves the status
/// text saying that messages come too often; nothing else but the limiter's
/// own bookkeeping changes.
pub proof fn lemma_send_refused_when_empty(state: AppStateView, now: nat, text: Seq<char>)
    requires
        state.rate.refilled(now).available == 0,
    ensures
        state.sent(now, text) == (
            AppStateView {
                rate: state.rate.refilled(now),
                status_text: "Слишком часто"@,
                ..state
            },
            None::<NetCmdView>,
        ),
{
}

/// The log only grows, and only by the message received: after any event the
/// old log is a prefix of the new one, and the change counter, when it
/// changes, is the length of the log, one more than it was if it was the
/// length before.
pub proof fn lemma_log_append_only(state: AppStateView, event: NetEventView)
    requires
        state.messages.len() < u64::MAX,
    ensures
        state.applied(event).messages.take(state.messages.len() as int) == state.messages,
        event is Message ==> state.applied(event).messages.len() == state.messages.len() + 1
            && state.applied(event).published == state.applied(event).messages.len(),
        event is Message && state.published == state.messages.len() ==> state.applied(
            event,
        ).published == state.published + 1,
        !(event is Message) ==> state.applied(event).messages == state.messages
            && state.applied(event).published == state.published,
{
    assert(state.applied(event).messages.take(state.messages.len() as int) =~= state.messages);
}

} // verus!
