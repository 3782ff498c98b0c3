//! The connection manager and the reader as decisions: what to do next, given
//! where the connection stands and what just happened. The caller owns the
//! socket and the queues; it carries out each action and reports the outcome.

use crate::bigendian::{be16, be32, be64, read_u16_be, read_u32_be};
use crate::protocol::{
    decode_payload, lemma_payload_roundtrip, parse_payload, split_text, DecodeError, Frame,
    FrameType, FrameView,
};
use crate::text::{decimal, decimal_text, hex, hex_text, join, lossy_text};
use vstd::prelude::*;
use vstd::slice::slice_subrange;
use vstd::string::StringExecFns;

verus! {

pub const T_HELLO: u8 = 0x01;

pub const T_MSG: u8 = 0x02;

pub const T_ERR: u8 = 0x05;

pub const T_OK: u8 = 0x06;

pub const T_MSG_BROADCAST: u8 = 0x12;

/// What the application asks of the connection manager.
#[derive(Debug, Clone)]
pub enum NetCmd {
    Connect { host: String, port: u16, nick: String },
    SendText(String),
    Disconnect,
    Stop,
}

pub enum NetCmdView {
    Connect { host: Seq<char>, port: u16, nick: Seq<char> },
    SendText(Seq<char>),
    Disconnect,
    Stop,
}

impl View for NetCmd {
    type V = NetCmdView;

    open spec fn view(&self) -> NetCmdView {
        match self {
            NetCmd::Connect { host, port, nick } => NetCmdView::Connect {
                host: host@,
                port: *port,
                nick: nick@,
            },
            NetCmd::SendText(text) => NetCmdView::SendText(text@),
            NetCmd::Disconnect => NetCmdView::Disconnect,
            NetCmd::Stop => NetCmdView::Stop,
        }
    }
}

/// What the network layer tells the application.
#[derive(Debug, Clone)]
pub enum NetEvent {
    Connected,
    Disconnected { reason: String },
    Error { msg: String },
    Message { ts_ms: u64, username: String, text: String },
}

pub enum NetEventView {
    Connected,
    Disconnected { reason: Seq<char> },
    Error { msg: Seq<char> },
    Message { ts_ms: u64, username: Seq<char>, text: Seq<char> },
}

impl View for NetEvent {
    type V = NetEventView;

    open spec fn view(&self) -> NetEventView {
        match self {
            NetEvent::Connected => NetEventView::Connected,
            NetEvent::Disconnected { reason } => NetEventView::Disconnected { reason: reason@ },
            NetEvent::Error { msg } => NetEventView::Error { msg: msg@ },
            NetEvent::Message { ts_ms, username, text } => NetEventView::Message {
                ts_ms: *ts_ms,
                username: username@,
                text: text@,
            },
        }
    }
}

/// Where a connection stands.
#[derive(Debug, Clone)]
pub enum Phase {
    /// No connection; waiting for a command.
    Idle,
    /// The stream to `addr` is being opened for `nick`.
    Connecting { addr: String, nick: String },
    /// The stream is open and HELLO is being written.
    Greeting,
    /// HELLO is out; the server's one reply is awaited.
    Handshaking,
    /// The session is up; waiting for a command.
    Connected,
    /// The session is up and a message is being written.
    Sending,
    /// The manager has shut down for good.
    Stopped,
}

pub enum PhaseView {
    Idle,
    Connecting { addr: Seq<char>, nick: Seq<char> },
    Greeting,
    Handshaking,
    Connected,
    Sending,
    Stopped,
}

impl View for Phase {
    type V = PhaseView;

    open spec fn view(&self) -> PhaseView {
        match self {
            Phase::Idle => PhaseView::Idle,
            Phase::Connecting { addr, nick } => PhaseView::Connecting { addr: addr@, nick: nick@ },
            Phase::Greeting => PhaseView::Greeting,
            Phase::Handshaking => PhaseView::Handshaking,
            Phase::Connected => PhaseView::Connected,
            Phase::Sending => PhaseView::Sending,
            Phase::Stopped => PhaseView::Stopped,
        }
    }
}

impl PhaseView {
    /// The phases in which the manager takes the next command off its queue.
    pub open spec fn awaits_command(self) -> bool {
        self is Idle || self is Connected
    }

    /// The phases in which a session is up: a writer is kept and a reader
    /// task runs.
    pub open spec fn in_session(self) -> bool {
        self is Connected || self is Sending
    }

    /// The number of sessions that are up in this phase.
    pub open spec fn sessions(self) -> nat {
        if self.in_session() {
            1
        } else {
            0
        }
    }
}

/// What just happened. Failures come with the words of the error.
#[derive(Debug)]
pub enum NetInput {
    /// The next command off the queue; `None` once the queue is closed.
    Command(Option<NetCmd>),
    /// The outcome of opening the stream.
    Opened(Result<(), String>),
    /// The outcome of writing and flushing a frame.
    Written(Result<(), String>),
    /// The frame read in reply to HELLO, as tag and payload.
    Reply(Result<(u8, Vec<u8>), String>),
}

pub enum NetInputView {
    Command(Option<NetCmdView>),
    Opened(Result<(), Seq<char>>),
    Written(Result<(), Seq<char>>),
    Reply(Result<(u8, Seq<u8>), Seq<char>>),
}

impl View for NetInput {
    type V = NetInputView;

    open spec fn view(&self) -> NetInputView {
        match self {
            NetInput::Command(None) => NetInputView::Command(None),
            NetInput::Command(Some(cmd)) => NetInputView::Command(Some(cmd@)),
            NetInput::Opened(Ok(_)) => NetInputView::Opened(Ok(())),
            NetInput::Opened(Err(e)) => NetInputView::Opened(Err(e@)),
            NetInput::Written(Ok(_)) => NetInputView::Written(Ok(())),
            NetInput::Written(Err(e)) => NetInputView::Written(Err(e@)),
            NetInput::Reply(Ok((tag, payload))) => NetInputView::Reply(Ok((*tag, payload@))),
            NetInput::Reply(Err(e)) => NetInputView::Reply(Err(e@)),
        }
    }
}

/// What the caller is to do, in the order given.
#[derive(Debug, Clone)]
pub enum NetAction {
    /// Tear the session down: abort the reader task and drop the writer.
    Close,
    /// Open a stream to `addr`, then report `Opened`.
    Open { addr: String },
    /// Write the frame and flush, then report `Written`.
    Write { frame: Frame },
    /// Read one frame, then report `Reply`.
    ReadReply,
    /// Keep the writer and start the reader task on the stream just opened.
    StartReader,
    /// Drop the stream that was being set up.
    Abandon,
    /// Deliver the event.
    Emit(NetEvent),
    /// Leave the command loop.
    Halt,
}

pub enum NetActionView {
    Close,
    Open { addr: Seq<char> },
    Write { frame: FrameView },
    ReadReply,
    StartReader,
    Abandon,
    Emit(NetEventView),
    Halt,
}

impl View for NetAction {
    type V = NetActionView;

    open spec fn view(&self) -> NetActionView {
        match self {
            NetAction::Close => NetActionView::Close,
            NetAction::Open { addr } => NetActionView::Open { addr: addr@ },
            NetAction::Write { frame } => NetActionView::Write { frame: frame@ },
            NetAction::ReadReply => NetActionView::ReadReply,
            NetAction::StartReader => NetActionView::StartReader,
            NetAction::Abandon => NetActionView::Abandon,
            NetAction::Emit(event) => NetActionView::Emit(event@),
            NetAction::Halt => NetActionView::Halt,
        }
    }
}

/// A list of actions as mathematics.
pub open spec fn actions_view(actions: Seq<NetAction>) -> Seq<NetActionView> {
    actions.map_values(|a: NetAction| a@)
}

/// The event that reports an error in the given words.
pub open spec fn error_event(msg: Seq<char>) -> NetActionView {
    NetActionView::Emit(NetEventView::Error { msg })
}

/// The event that reports the end of a session and why.
pub open spec fn disconnected_event(reason: Seq<char>) -> NetActionView {
    NetActionView::Emit(NetEventView::Disconnected { reason })
}

/// The address to open for a host and a port.
pub open spec fn address(host: Seq<char>, port: u16) -> Seq<char> {
    host + ":"@ + decimal_text(port as nat)
}

/// What a command leads to. Every command but `SendText` first tears down
/// whatever session there is.
pub open spec fn on_command(phase: PhaseView, cmd: Option<NetCmdView>) -> (
    PhaseView,
    Seq<NetActionView>,
) {
    match cmd {
        None | Some(NetCmdView::Stop) => (
            PhaseView::Stopped,
            seq![NetActionView::Close, disconnected_event("stop"@), NetActionView::Halt],
        ),
        Some(NetCmdView::Disconnect) => (
            PhaseView::Idle,
            seq![NetActionView::Close, disconnected_event("user"@)],
        ),
        Some(NetCmdView::Connect { host, port, nick }) => (
            PhaseView::Connecting { addr: address(host, port), nick },
            seq![NetActionView::Close, NetActionView::Open { addr: address(host, port) }],
        ),
        Some(NetCmdView::SendText(text)) => if phase is Connected {
            (PhaseView::Sending, seq![NetActionView::Write { frame: FrameView::Msg { text } }])
        } else {
            (phase, seq![error_event("not connected"@)])
        },
    }
}

/// What the server's reply to HELLO leads to: OK brings the session up, ERR
/// is reported with its text and ends the attempt as `handshake_err`, and
/// anything else, a malformed ERR or a failed read ends the attempt with an
/// error.
pub open spec fn on_reply(reply: Result<(u8, Seq<u8>), Seq<char>>) -> (
    PhaseView,
    Seq<NetActionView>,
) {
    match reply {
        Ok((tag, payload)) => if tag == T_OK {
            (
                PhaseView::Connected,
                seq![NetActionView::StartReader, NetActionView::Emit(NetEventView::Connected)],
            )
        } else if tag == T_ERR {
            match split_text(payload) {
                Some((text, _)) => (
                    PhaseView::Idle,
                    seq![
                        error_event("handshake ERR: "@ + text),
                        disconnected_event("handshake_err"@),
                        NetActionView::Abandon,
                    ],
                ),
                None => (
                    PhaseView::Idle,
                    seq![
                        error_event("handshake read failed: "@ + DecodeError::Truncated.text()),
                        NetActionView::Abandon,
                    ],
                ),
            }
        } else {
            (
                PhaseView::Idle,
                seq![
                    error_event("unexpected handshake frame: 0x"@ + hex_text(tag)),
                    NetActionView::Abandon,
                ],
            )
        },
        Err(e) => (
            PhaseView::Idle,
            seq![error_event("handshake read failed: "@ + e), NetActionView::Abandon],
        ),
    }
}

/// The connection manager's rule: the next phase and the actions to carry out.
/// An input that the phase does not wait for changes nothing, and once
/// stopped the manager stays stopped.
pub open spec fn step_spec(phase: PhaseView, input: NetInputView) -> (
    PhaseView,
    Seq<NetActionView>,
) {
    match (phase, input) {
        (PhaseView::Idle, NetInputView::Command(cmd)) => on_command(phase, cmd),
        (PhaseView::Connected, NetInputView::Command(cmd)) => on_command(phase, cmd),
        (PhaseView::Connecting { addr, nick }, NetInputView::Opened(Ok(_))) => (
            PhaseView::Greeting,
            seq![NetActionView::Write { frame: FrameView::Hello { username: nick } }],
        ),
        (PhaseView::Connecting { addr, nick }, NetInputView::Opened(Err(e))) => (
            PhaseView::Idle,
            seq![error_event("connect("@ + addr + ") failed: "@ + e)],
        ),
        (PhaseView::Greeting, NetInputView::Written(Ok(_))) => (
            PhaseView::Handshaking,
            seq![NetActionView::ReadReply],
        ),
        (PhaseView::Greeting, NetInputView::Written(Err(e))) => (
            PhaseView::Idle,
            seq![error_event("send HELLO failed: "@ + e), NetActionView::Abandon],
        ),
        (PhaseView::Handshaking, NetInputView::Reply(reply)) => on_reply(reply),
        (PhaseView::Sending, NetInputView::Written(Ok(_))) => (PhaseView::Connected, seq![]),
        (PhaseView::Sending, NetInputView::Written(Err(e))) => (
            PhaseView::Connected,
            seq![error_event("send text failed: "@ + e)],
        ),
        _ => (phase, seq![]),
    }
}

fn error_action(msg: String) -> (a: NetAction)
    ensures
        a@ == error_event(msg@),
{
    NetAction::Emit(NetEvent::Error { msg })
}

fn disconnected_action(reason: &str) -> (a: NetAction)
    ensures
        a@ == disconnected_event(reason@),
{
    NetAction::Emit(NetEvent::Disconnected { reason: String::from_str(reason) })
}

fn one(a: NetAction) -> (v: Vec<NetAction>)
    ensures
        actions_view(v@) == seq![a@],
{
    let v = vec![a];
    assert(actions_view(v@) =~= seq![a@]);
    v
}

fn two(a: NetAction, b: NetAction) -> (v: Vec<NetAction>)
    ensures
        actions_view(v@) == seq![a@, b@],
{
    let v = vec![a, b];
    assert(actions_view(v@) =~= seq![a@, b@]);
    v
}

fn three(a: NetAction, b: NetAction, c: NetAction) -> (v: Vec<NetAction>)
    ensures
        actions_view(v@) == seq![a@, b@, c@],
{
    let v = vec![a, b, c];
    assert(actions_view(v@) =~= seq![a@, b@, c@]);
    v
}

fn none() -> (v: Vec<NetAction>)
    ensures
        actions_view(v@) == Seq::<NetActionView>::empty(),
{
    let v: Vec<NetAction> = Vec::new();
    assert(actions_view(v@) =~= Seq::<NetActionView>::empty());
    v
}

fn command(phase: Phase, cmd: Option<NetCmd>) -> (r: (Phase, Vec<NetAction>))
    ensures
        (r.0@, actions_view(r.1@)) == on_command(phase@, cmd_view(cmd)),
{
    match cmd {
        None | Some(NetCmd::Stop) => (
            Phase::Stopped,
            three(NetAction::Close, disconnected_action("stop"), NetAction::Halt),
        ),
        Some(NetCmd::Disconnect) => (
            Phase::Idle,
            two(NetAction::Close, disconnected_action("user")),
        ),
        Some(NetCmd::Connect { host, port, nick }) => {
            let addr = join(host.as_str(), ":").concat(decimal(port).as_str());
            let target = addr.clone();
            (
                Phase::Connecting { addr, nick },
                two(NetAction::Close, NetAction::Open { addr: target }),
            )
        },
        Some(NetCmd::SendText(text)) => match phase {
            Phase::Connected => (
                Phase::Sending,
                one(NetAction::Write { frame: Frame::Msg { text } }),
            ),
            _ => (phase, one(error_action(String::from_str("not connected")))),
        },
    }
}

fn handshake(answer: Result<(u8, Vec<u8>), String>) -> (r: (Phase, Vec<NetAction>))
    ensures
        (r.0@, actions_view(r.1@)) == on_reply(reply_view(answer)),
{
    match answer {
        Ok((tag, payload)) => {
            if tag == T_OK {
                (
                    Phase::Connected,
                    two(NetAction::StartReader, NetAction::Emit(NetEvent::Connected)),
                )
            } else if tag == T_ERR {
                match decode_payload(FrameType::Error, payload.as_slice()) {
                    Ok(Frame::Error { text }) => (
                        Phase::Idle,
                        three(
                            error_action(join("handshake ERR: ", text.as_str())),
                            disconnected_action("handshake_err"),
                            NetAction::Abandon,
                        ),
                    ),
                    Ok(_) => (Phase::Idle, one(NetAction::Abandon)),
                    Err(e) => (
                        Phase::Idle,
                        two(
                            error_action(join("handshake read failed: ", e.message().as_str())),
                            NetAction::Abandon,
                        ),
                    ),
                }
            } else {
                (
                    Phase::Idle,
                    two(
                        error_action(join("unexpected handshake frame: 0x", hex(tag).as_str())),
                        NetAction::Abandon,
                    ),
                )
            }
        },
        Err(e) => (
            Phase::Idle,
            two(error_action(join("handshake read failed: ", e.as_str())), NetAction::Abandon),
        ),
    }
}

/// An optional command as mathematics.
pub open spec fn cmd_view(cmd: Option<NetCmd>) -> Option<NetCmdView> {
    match cmd {
        None => None,
        Some(c) => Some(c@),
    }
}

/// A handshake reply as mathematics.
pub open spec fn reply_view(reply: Result<(u8, Vec<u8>), String>) -> Result<
    (u8, Seq<u8>),
    Seq<char>,
> {
    match reply {
        Ok((tag, payload)) => Ok((tag, payload@)),
        Err(e) => Err(e@),
    }
}

/// One turn of the connection manager: given where the connection stands and
/// what just happened, the phase to move to and the actions to carry out, in
/// order.
///
/// Commands are taken only while idle or connected, one at a time; each of
/// the steps in between waits for the outcome of the action before it. An
/// input that the phase does not wait for changes nothing and asks for
/// nothing.
pub fn step(phase: Phase, input: NetInput) -> (r: (Phase, Vec<NetAction>))
    ensures
        (r.0@, actions_view(r.1@)) == step_spec(phase@, input@),
{
    match phase {
        Phase::Idle => match input {
            NetInput::Command(cmd) => command(Phase::Idle, cmd),
            _ => (Phase::Idle, none()),
        },
        Phase::Connected => match input {
            NetInput::Command(cmd) => command(Phase::Connected, cmd),
            _ => (Phase::Connected, none()),
        },
        Phase::Connecting { addr, nick } => match input {
            NetInput::Opened(Ok(_)) => (
                Phase::Greeting,
                one(NetAction::Write { frame: Frame::Hello { username: nick } }),
            ),
            NetInput::Opened(Err(e)) => {
                let msg = join("connect(", addr.as_str()).concat(") failed: ").concat(e.as_str());
                (Phase::Idle, one(error_action(msg)))
            },
            _ => (Phase::Connecting { addr, nick }, none()),
        },
        Phase::Greeting => match input {
            NetInput::Written(Ok(_)) => (Phase::Handshaking, one(NetAction::ReadReply)),
            NetInput::Written(Err(e)) => (
                Phase::Idle,
                two(error_action(join("send HELLO failed: ", e.as_str())), NetAction::Abandon),
            ),
            _ => (Phase::Greeting, none()),
        },
        Phase::Handshaking => match input {
            NetInput::Reply(answer) => handshake(answer),
            _ => (Phase::Handshaking, none()),
        },
        Phase::Sending => match input {
            NetInput::Written(Ok(_)) => (Phase::Connected, none()),
            NetInput::Written(Err(e)) => (
                Phase::Connected,
                one(error_action(join("send text failed: ", e.as_str()))),
            ),
            _ => (Phase::Sending, none()),
        },
        Phase::Stopped => (Phase::Stopped, none()),
    }
}

/// The tag and the declared payload length that a header holds.
pub open spec fn header_of(hdr: Seq<u8>) -> Option<(u8, u32)> {
    if hdr.len() < 5 {
        None
    } else {
        Some((hdr[0], be32(hdr.subrange(1, 5))))
    }
}

/// Splits the five header bytes read off the stream into the tag and the
/// number of payload bytes to read next; `None` if fewer than five are given.
pub fn frame_header(hdr: &[u8]) -> (r: Option<(u8, u32)>)
    ensures
        r == header_of(hdr@),
{
    if hdr.len() < 5 {
        return None;
    }
    match read_u32_be(slice_subrange(hdr, 1, 5)) {
        Ok(len) => Some((hdr[0], len)),
        Err(_) => None,
    }
}

/// The message that a sound broadcast payload holds: the time in its first
/// eight bytes, then the sender's name and the text, each after its length.
pub open spec fn broadcast_message(p: Seq<u8>) -> NetEventView {
    let ulen = be16(p.subrange(8, p.len() as int)) as int;
    let mlen = be32(p.subrange(10 + ulen, p.len() as int)) as int;
    NetEventView::Message {
        ts_ms: be64(p),
        username: lossy_text(p.subrange(10, 10 + ulen)),
        text: lossy_text(p.subrange(14 + ulen, 14 + ulen + mlen)),
    }
}

/// What is wrong with a broadcast payload, if anything: too short for its
/// fixed fields, a name that runs past the end, or a text that does.
pub open spec fn broadcast_fault(p: Seq<u8>) -> Option<Seq<char>> {
    if p.len() < 14 {
        Some("short MSG_BROADCAST"@)
    } else {
        let ulen = be16(p.subrange(8, p.len() as int)) as int;
        if p.len() - 10 < ulen + 4 {
            Some("bad MSG_BROADCAST (ulen)"@)
        } else if p.len() - 14 - ulen < be32(p.subrange(10 + ulen, p.len() as int)) {
            Some("bad MSG_BROADCAST (mlen)"@)
        } else {
            None
        }
    }
}

/// What the reader does with one inbound frame.
#[derive(Debug)]
pub struct ReaderStep {
    /// The event to deliver, if any.
    pub event: Option<NetEvent>,
    /// Whether the reader goes on to the next frame.
    pub go_on: bool,
}

/// The reader's rule for a frame with the given tag and payload.
///
/// A broadcast becomes a message once its fields are checked against the
/// payload; OK is passed over; ERR is reported with its text; any other tag
/// is reported by its byte. A payload that cannot be read is reported and
/// ends the reader.
pub open spec fn reader_spec(tag: u8, payload: Seq<u8>) -> (Option<NetEventView>, bool) {
    match FrameType::of_tag(tag) {
        Some(FrameType::MsgBroadcast) => match broadcast_fault(payload) {
            Some(msg) => (Some(NetEventView::Error { msg }), false),
            None => (Some(broadcast_message(payload)), true),
        },
        Some(FrameType::Okay) => (None, true),
        Some(FrameType::Error) => match split_text(payload) {
            Some((text, _)) => (Some(NetEventView::Error { msg: text }), true),
            None => (Some(NetEventView::Error { msg: DecodeError::Truncated.text() }), false),
        },
        _ => (Some(NetEventView::Error { msg: "unknown frame 0x"@ + hex_text(tag) }), true),
    }
}

/// An optional event as mathematics.
pub open spec fn event_view(event: Option<NetEvent>) -> Option<NetEventView> {
    match event {
        None => None,
        Some(e) => Some(e@),
    }
}

/// The reader reads a broadcast as the codec does: a payload passes the
/// reader's checks exactly when it holds a broadcast frame, and the message
/// then carries the frame's time, name and text.
pub proof fn lemma_broadcast_fault(p: Seq<u8>)
    ensures
        broadcast_fault(p).is_none() <==> parse_payload(FrameType::MsgBroadcast, p).is_ok(),
        parse_payload(FrameType::MsgBroadcast, p) matches Ok(f) ==> f matches FrameView::MsgBroadcast {
            ts_ms,
            username,
            text,
        } && broadcast_message(p) == (NetEventView::Message { ts_ms, username, text }),
{
    if p.len() >= 10 {
        let tail = p.subrange(8, p.len() as int);
        let ulen = be16(tail) as int;
        assert(tail[0] == p[8] && tail[1] == p[9]);
        if tail.len() - 2 >= ulen {
            let rest = tail.subrange(2 + ulen, tail.len() as int);
            assert(rest =~= p.subrange(10 + ulen, p.len() as int));
            assert(tail.subrange(2, 2 + ulen) =~= p.subrange(10, 10 + ulen));
            if rest.len() >= 4 {
                let mlen = be32(rest) as int;
                if rest.len() - 4 >= mlen {
                    assert(rest.subrange(4, 4 + mlen) =~= p.subrange(
                        14 + ulen,
                        14 + ulen + mlen,
                    ));
                }
            }
        }
    }
}

fn broadcast_check(payload: &[u8]) -> (r: Option<&'static str>)
    ensures
        match r {
            Some(msg) => broadcast_fault(payload@) == Some(msg@),
            None => broadcast_fault(payload@).is_none(),
        },
{
    if payload.len() < 14 {
        return Some("short MSG_BROADCAST");
    }
    let after_ts = slice_subrange(payload, 8, payload.len());
    let ulen = match read_u16_be(after_ts) {
        Ok(n) => n as usize,
        Err(_) => {
            return Some("short MSG_BROADCAST");
        },
    };
    if payload.len() - 10 < ulen + 4 {
        return Some("bad MSG_BROADCAST (ulen)");
    }
    let after_name = slice_subrange(payload, 10 + ulen, payload.len());
    let mlen = match read_u32_be(after_name) {
        Ok(n) => n as usize,
        Err(_) => {
            return Some("bad MSG_BROADCAST (ulen)");
        },
    };
    if payload.len() - 14 - ulen < mlen {
        return Some("bad MSG_BROADCAST (mlen)");
    }
    None
}

/// Decides what the reader does with the frame just read off the stream.
pub fn reader_step(tag: u8, payload: &[u8]) -> (r: ReaderStep)
    ensures
        (event_view(r.event), r.go_on) == reader_spec(tag, payload@),
{
    match FrameType::from_u8(tag) {
        Some(FrameType::MsgBroadcast) => {
            proof {
                lemma_broadcast_fault(payload@);
            }
            match broadcast_check(payload) {
                Some(msg) => ReaderStep {
                    event: Some(NetEvent::Error { msg: String::from_str(msg) }),
                    go_on: false,
                },
                None => match decode_payload(FrameType::MsgBroadcast, payload) {
                    Ok(Frame::MsgBroadcast { ts_ms, username, text }) => ReaderStep {
                        event: Some(NetEvent::Message { ts_ms, username, text }),
                        go_on: true,
                    },
                    _ => ReaderStep { event: None, go_on: false },
                },
            }
        },
        Some(FrameType::Okay) => ReaderStep { event: None, go_on: true },
        Some(FrameType::Error) => match decode_payload(FrameType::Error, payload) {
            Ok(Frame::Error { text }) => ReaderStep {
                event: Some(NetEvent::Error { msg: text }),
                go_on: true,
            },
            Ok(_) => ReaderStep { event: None, go_on: false },
            Err(e) => ReaderStep {
                event: Some(NetEvent::Error { msg: e.message() }),
                go_on: false,
            },
        },
        _ => ReaderStep {
            event: Some(NetEvent::Error { msg: join("unknown frame 0x", hex(tag).as_str()) }),
            go_on: true,
        },
    }
}

/// A connect command, whenever it is taken, tears the old session down before
/// anything of the new one begins: closing comes first, opening the stream
/// second, and nothing else is asked for.
pub proof fn lemma_connect_closes_first(
    phase: PhaseView,
    host: Seq<char>,
    port: u16,
    nick: Seq<char>,
)
    requires
        phase.awaits_command(),
    ensures
        step_spec(phase, NetInputView::Command(Some(NetCmdView::Connect { host, port, nick })))
            == (
            PhaseView::Connecting { addr: address(host, port), nick },
            seq![NetActionView::Close, NetActionView::Open { addr: address(host, port) }],
        ),
{
}

/// A server that answers HELLO with an ERR frame is reported by exactly two
/// events, the error with the server's text and then the end of the session
/// as `handshake_err`; the session never comes up.
pub proof fn lemma_handshake_refused(text: Seq<char>)
    requires
        (FrameView::Error { text }).well_formed(),
    ensures
        step_spec(
            PhaseView::Handshaking,
            NetInputView::Reply(Ok((T_ERR, (FrameView::Error { text }).payload()))),
        ) == (
            PhaseView::Idle,
            seq![
                error_event("handshake ERR: "@ + text),
                disconnected_event("handshake_err"@),
                NetActionView::Abandon,
            ],
        ),
{
    lemma_payload_roundtrip(FrameView::Error { text });
}

/// The number of sessions alive once `actions` are carried out in order,
/// `live` being alive before: closing ends what there is, starting a reader
/// brings one up.
pub open spec fn sessions_after(live: nat, actions: Seq<NetActionView>) -> nat
    decreases actions.len(),
{
    if actions.len() == 0 {
        live
    } else {
        match actions.last() {
            NetActionView::Close => 0,
            NetActionView::StartReader => sessions_after(live, actions.drop_last()) + 1,
            _ => sessions_after(live, actions.drop_last()),
        }
    }
}

proof fn lemma_sessions_after(live: nat, a: NetActionView, b: NetActionView, c: NetActionView)
    ensures
        sessions_after(live, seq![]) == live,
        sessions_after(live, seq![a]) == match a {
            NetActionView::Close => 0,
            NetActionView::StartReader => live + 1,
            _ => live,
        },
        sessions_after(live, seq![a, b]) == match b {
            NetActionView::Close => 0,
            NetActionView::StartReader => sessions_after(live, seq![a]) + 1,
            _ => sessions_after(live, seq![a]),
        },
        sessions_after(live, seq![a, b, c]) == match c {
            NetActionView::Close => 0,
            NetActionView::StartReader => sessions_after(live, seq![a, b]) + 1,
            _ => sessions_after(live, seq![a, b]),
        },
{
    reveal_with_fuel(sessions_after, 2);
    assert(seq![a].drop_last() =~= Seq::<NetActionView>::empty());
    assert(seq![a, b].drop_last() =~= seq![a]);
    assert(seq![a, b, c].drop_last() =~= seq![a, b]);
}

/// At most one session is alive at any time: whatever happens in whatever
/// phase, carrying out the actions of a step leaves as many sessions alive as
/// the next phase stands for, one while connected and none otherwise, and no
/// reader is started while a session is still up.
pub proof fn lemma_one_session(phase: PhaseView, input: NetInputView)
    ensures
        sessions_after(phase.sessions(), step_spec(phase, input).1) == step_spec(
            phase,
            input,
        ).0.sessions(),
        forall|k: int|
            0 <= k <= step_spec(phase, input).1.len() ==> #[trigger] sessions_after(
                phase.sessions(),
                step_spec(phase, input).1.take(k),
            ) <= 1,
{
    let actions = step_spec(phase, input).1;
    let live = phase.sessions();
    assert(actions.len() <= 3);
    assert forall|k: int| 0 <= k <= actions.len() implies #[trigger] sessions_after(
        live,
        actions.take(k),
    ) <= 1 && (k == actions.len() ==> sessions_after(live, actions.take(k)) == step_spec(
        phase,
        input,
    ).0.sessions()) by {
        let part = actions.take(k);
        if k == 0 {
            assert(part =~= seq![]);
            lemma_sessions_after(
                live,
                NetActionView::Halt,
                NetActionView::Halt,
                NetActionView::Halt,
            );
        } else if k == 1 {
            assert(part =~= seq![actions[0]]);
            lemma_sessions_after(live, actions[0], NetActionView::Halt, NetActionView::Halt);
        } else if k == 2 {
            assert(part =~= seq![actions[0], actions[1]]);
            lemma_sessions_after(live, actions[0], actions[1], NetActionView::Halt);
        } else {
            assert(part =~= seq![actions[0], actions[1], actions[2]]);
            lemma_sessions_after(live, actions[0], actions[1], actions[2]);
        }
    }
    assert(actions.take(actions.len() as int) =~= actions);
}

} // verus!
