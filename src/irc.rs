//! The persistent-socket ingester's protocol: what to send and what to relay
//! for each event of the connection. The caller owns the socket, feeds each
//! event in with the current cancellation flag, and performs the actions.
use crate::text::{contains_text, starts_with, text_contains, text_starts_with};
use vstd::prelude::*;

verus! {

pub const NICK_LINE: &'static str = "NICK justinfan1234";
pub const PONG_LINE: &'static str = "PONG :tmi.twitch.tv";
pub const CAP_LINE: &'static str = "CAP REQ :twitch.tv/tags";
pub const QUIT_LINE: &'static str = "QUIT";
pub const JOIN_PREFIX: &'static str = "JOIN #";
pub const PING_MARK: &'static str = "PING";
pub const CHAT_MARK: &'static str = "PRIVMSG";
pub const WELCOME_MARK: &'static str = "Welcome, GLHF!";

/// Where the connection stands.
#[derive(Clone, Copy, Debug, PartialEq, Eq, Structural)]
pub enum IrcPhase {
    /// The transport is being opened.
    Connecting,
    /// The identity is announced; waiting for the welcome banner.
    Handshaking,
    /// The channel is joined; no chat line yet.
    Joined,
    /// Chat lines are flowing.
    Relaying,
    /// Quit; nothing more happens.
    Closed,
}

/// What happened on the connection since the last step.
#[derive(Clone, Debug)]
pub enum IrcEvent {
    /// The transport is open.
    Connected,
    /// A text frame arrived.
    Frame(String),
    /// The bounded wait passed with no traffic.
    Idle,
    /// The transport failed or reached its end.
    TransportEnded,
}

/// What the caller is to do.
#[derive(Clone, Debug)]
pub enum IrcAction {
    /// Send this line to the server.
    Send(String),
    /// Hand this chat line to the normaliser.
    Relay(String),
}

/// The three classes of inbound frame that matter, and the rest.
#[derive(Clone, Copy, Debug, PartialEq, Eq, Structural)]
pub enum FrameKind {
    Ping,
    Chat,
    Welcome,
    Other,
}

pub open spec fn frame_kind(f: Seq<char>) -> FrameKind {
    if starts_with(f, PING_MARK@) {
        FrameKind::Ping
    } else if contains_text(f, CHAT_MARK@) {
        FrameKind::Chat
    } else if contains_text(f, WELCOME_MARK@) {
        FrameKind::Welcome
    } else {
        FrameKind::Other
    }
}

/// Classifies an inbound frame: a keepalive ping, a chat line, the welcome
/// banner, or something to ignore.
pub fn classify_frame(frame: &str) -> (r: FrameKind)
    ensures
        r == frame_kind(frame@),
{
    if text_starts_with(frame, PING_MARK) {
        FrameKind::Ping
    } else if text_contains(frame, CHAT_MARK) {
        FrameKind::Chat
    } else if text_contains(frame, WELCOME_MARK) {
        FrameKind::Welcome
    } else {
        FrameKind::Other
    }
}

/// An action as a value: `(true, line)` to send, `(false, line)` to relay.
pub open spec fn action_view(a: IrcAction) -> (bool, Seq<char>) {
    match a {
        IrcAction::Send(s) => (true, s@),
        IrcAction::Relay(s) => (false, s@),
    }
}

pub open spec fn actions_view(v: Seq<IrcAction>) -> Seq<(bool, Seq<char>)> {
    v.map_values(|a: IrcAction| action_view(a))
}

/// The actions of one step.
pub open spec fn irc_actions(phase: IrcPhase, channel: Seq<char>, event: IrcEvent, cancelled: bool) -> Seq<(bool, Seq<char>)> {
    if phase == IrcPhase::Closed {
        Seq::empty()
    } else if cancelled || event is TransportEnded {
        if phase == IrcPhase::Connecting {
            Seq::empty()
        } else {
            seq![(true, QUIT_LINE@)]
        }
    } else {
        match event {
            IrcEvent::Connected => if phase == IrcPhase::Connecting {
                seq![(true, NICK_LINE@)]
            } else {
                Seq::empty()
            },
            IrcEvent::Frame(f) => if phase == IrcPhase::Connecting {
                Seq::empty()
            } else {
                match frame_kind(f@) {
                    FrameKind::Ping => seq![(true, PONG_LINE@)],
                    FrameKind::Chat => seq![(false, f@)],
                    FrameKind::Welcome => seq![(true, CAP_LINE@), (true, JOIN_PREFIX@ + channel)],
                    FrameKind::Other => Seq::empty(),
                }
            },
            _ => Seq::empty(),
        }
    }
}

/// The phase after one step.
pub open spec fn irc_next(phase: IrcPhase, event: IrcEvent, cancelled: bool) -> IrcPhase {
    if phase == IrcPhase::Closed {
        phase
    } else if cancelled || event is TransportEnded {
        IrcPhase::Closed
    } else {
        match event {
            IrcEvent::Connected => if phase == IrcPhase::Connecting {
                IrcPhase::Handshaking
            } else {
                phase
            },
            IrcEvent::Frame(f) => if phase == IrcPhase::Connecting {
                phase
            } else {
                match frame_kind(f@) {
                    FrameKind::Chat => IrcPhase::Relaying,
                    FrameKind::Welcome => IrcPhase::Joined,
                    _ => phase,
                }
            },
            _ => phase,
        }
    }
}

/// One connection to the chat socket, joined to one channel.
pub struct IrcSession {
    pub phase: IrcPhase,
    pub channel: String,
}

impl IrcSession {
    /// A connection about to be opened, for `channel`.
    pub fn new(channel: String) -> (r: IrcSession)
        ensures
            r.phase == IrcPhase::Connecting,
            r.channel == channel,
    {
        IrcSession { phase: IrcPhase::Connecting, channel }
    }

    /// Takes one event, given whether cancellation has been requested, and
    /// returns the actions to perform in order. Cancellation and the end of the
    /// transport close the connection with a polite quit.
    pub fn step(&mut self, event: IrcEvent, cancelled: bool) -> (r: Vec<IrcAction>)
        ensures
            actions_view(r@) == irc_actions(old(self).phase, old(self).channel@, event, cancelled),
            final(self).phase == irc_next(old(self).phase, event, cancelled),
            final(self).channel == old(self).channel,
    {
        let mut out: Vec<IrcAction> = Vec::new();
        if self.phase == IrcPhase::Closed {
            assert(actions_view(out@) =~= Seq::empty());
            return out;
        }
        let ended = match &event {
            IrcEvent::TransportEnded => true,
            _ => false,
        };
        if cancelled || ended {
            if self.phase != IrcPhase::Connecting {
                out.push(IrcAction::Send(QUIT_LINE.to_string()));
            }
            self.phase = IrcPhase::Closed;
            assert(actions_view(out@) =~= irc_actions(old(self).phase, old(self).channel@, event, cancelled));
            return out;
        }
        match &event {
            IrcEvent::Connected => {
                if self.phase == IrcPhase::Connecting {
                    out.push(IrcAction::Send(NICK_LINE.to_string()));
                    self.phase = IrcPhase::Handshaking;
                }
            },
            IrcEvent::Frame(f) => {
                if self.phase != IrcPhase::Connecting {
                    match classify_frame(f) {
                        FrameKind::Ping => {
                            out.push(IrcAction::Send(PONG_LINE.to_string()));
                        },
                        FrameKind::Chat => {
                            out.push(IrcAction::Relay(f.clone()));
                            self.phase = IrcPhase::Relaying;
                        },
                        FrameKind::Welcome => {
                            out.push(IrcAction::Send(CAP_LINE.to_string()));
                            let mut join = JOIN_PREFIX.to_string();
                            join.append(&self.channel);
                            out.push(IrcAction::Send(join));
                            self.phase = IrcPhase::Joined;
                        },
                        FrameKind::Other => {},
                    }
                }
            },
            _ => {},
        }
        assert(actions_view(out@) =~= irc_actions(old(self).phase, old(self).channel@, event, cancelled));
        out
    }
}

} // verus!
