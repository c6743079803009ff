use united_chat::hub::{HubError, WebSocketServer};
use united_chat::irc::{classify_frame, FrameKind, IrcAction, IrcEvent, IrcPhase, IrcSession};
use united_chat::session::{StartOutcome, UnitedChat, YoutubeInfo};

fn addr(s: &str) -> String {
    s.to_string()
}

#[test]
fn duplicate_address_is_refused_while_first_stays() {
    let mut hub = WebSocketServer::new();
    let a = hub.accept(addr("127.0.0.1:5000")).unwrap();
    assert_eq!(hub.accept(addr("127.0.0.1:5000")), Err(HubError::AlreadyConnected));
    assert_eq!(hub.len(), 1);
    assert!(hub.has_address(&addr("127.0.0.1:5000")));
    let b = hub.accept(addr("127.0.0.1:5001")).unwrap();
    assert_ne!(a, b);
}

#[test]
fn broadcast_reaches_each_consumer_once_with_same_frame() {
    let mut hub = WebSocketServer::new();
    let ids: Vec<u64> = (0..3).map(|i| hub.accept(format!("10.0.0.{}:1", i)).unwrap()).collect();
    let frame = "{\"platform\":\"twitch\",\"data\":{}}".to_string();
    let d = hub.broadcast(&frame);
    assert_eq!(d.len(), 3);
    for (k, delivery) in d.iter().enumerate() {
        assert_eq!(delivery.consumer, ids[k]);
        assert_eq!(delivery.frame, frame);
    }
}

#[test]
fn disconnect_frees_the_address() {
    let mut hub = WebSocketServer::new();
    let a = hub.accept(addr("x:1")).unwrap();
    assert!(hub.disconnect(a));
    assert!(!hub.disconnect(a));
    assert_eq!(hub.len(), 0);
    assert!(hub.accept(addr("x:1")).is_ok());
}

#[test]
fn close_severs_everyone_and_is_idempotent() {
    let mut hub = WebSocketServer::new();
    let a = hub.accept(addr("x:1")).unwrap();
    let b = hub.accept(addr("x:2")).unwrap();
    assert_eq!(hub.close(), vec![a, b]);
    assert!(hub.is_closed());
    assert_eq!(hub.len(), 0);
    assert!(hub.close().is_empty());
    assert_eq!(hub.accept(addr("x:3")), Err(HubError::Closed));
    assert!(hub.broadcast(&addr("m")).is_empty());
}

fn yt(id: &str) -> Option<YoutubeInfo> {
    Some(YoutubeInfo { yt_id: id.to_string(), interval: 1000 })
}

#[test]
fn second_start_is_a_no_op() {
    let mut s = UnitedChat::new();
    match s.init(yt("abc")) {
        StartOutcome::Launch { youtube: Some(y) } => assert_eq!(y.yt_id, "abc"),
        other => panic!("unexpected {:?}", other),
    }
    assert!(matches!(s.init(yt("abc")), StartOutcome::AlreadyRunning));
    assert!(s.is_started());
}

#[test]
fn empty_target_starts_no_poller() {
    let mut s = UnitedChat::new();
    assert!(matches!(s.init(yt("")), StartOutcome::Launch { youtube: None }));
    let mut t = UnitedChat::new();
    assert!(matches!(t.init(None), StartOutcome::Launch { youtube: None }));
}

#[test]
fn stop_when_not_started_does_nothing() {
    let mut s = UnitedChat::new();
    assert!(!s.stop());
    assert!(!s.is_cancelled());
    assert!(!s.is_started());
}

#[test]
fn shutdown_then_restart() {
    let mut s = UnitedChat::new();
    let mut hub = WebSocketServer::new();
    assert!(matches!(s.init(None), StartOutcome::Launch { .. }));
    let c = hub.accept(addr("x:1")).unwrap();
    assert!(s.stop());
    assert!(s.is_cancelled());
    assert!(!s.is_started());
    assert!(matches!(s.init(None), StartOutcome::ShuttingDown));
    assert_eq!(hub.close(), vec![c]);
    s.finish_shutdown();
    assert!(!s.is_cancelled());
    assert!(matches!(s.init(None), StartOutcome::Launch { .. }));
    let fresh = WebSocketServer::new();
    assert_eq!(fresh.len(), 0);
    assert!(!fresh.is_closed());
}

fn sent(actions: &[IrcAction]) -> Vec<String> {
    actions
        .iter()
        .map(|a| match a {
            IrcAction::Send(s) => format!("send {}", s),
            IrcAction::Relay(s) => format!("relay {}", s),
        })
        .collect()
}

#[test]
fn irc_handshake_join_ping_and_chat() {
    let mut irc = IrcSession::new("somechannel".to_string());
    assert_eq!(sent(&irc.step(IrcEvent::Connected, false)), vec!["send NICK justinfan1234"]);
    assert_eq!(irc.phase, IrcPhase::Handshaking);
    let welcome = ":tmi.twitch.tv 001 justinfan1234 :Welcome, GLHF!".to_string();
    assert_eq!(
        sent(&irc.step(IrcEvent::Frame(welcome), false)),
        vec!["send CAP REQ :twitch.tv/tags", "send JOIN #somechannel"]
    );
    assert_eq!(irc.phase, IrcPhase::Joined);
    assert_eq!(sent(&irc.step(IrcEvent::Frame("PING :tmi.twitch.tv".to_string()), false)), vec!["send PONG :tmi.twitch.tv"]);
    let line = "@color= a!a@a PRIVMSG #somechannel :PING me".to_string();
    assert_eq!(sent(&irc.step(IrcEvent::Frame(line.clone()), false)), vec![format!("relay {}", line)]);
    assert_eq!(irc.phase, IrcPhase::Relaying);
    assert!(irc.step(IrcEvent::Idle, false).is_empty());
    assert!(irc.step(IrcEvent::Frame(":tmi.twitch.tv CAP * ACK".to_string()), false).is_empty());
}

#[test]
fn irc_cancel_sends_quit_then_nothing() {
    let mut irc = IrcSession::new("c".to_string());
    irc.step(IrcEvent::Connected, false);
    assert_eq!(sent(&irc.step(IrcEvent::Idle, true)), vec!["send QUIT"]);
    assert_eq!(irc.phase, IrcPhase::Closed);
    assert!(irc.step(IrcEvent::Frame("PING".to_string()), false).is_empty());
    let mut other = IrcSession::new("c".to_string());
    other.step(IrcEvent::Connected, false);
    assert_eq!(sent(&other.step(IrcEvent::TransportEnded, false)), vec!["send QUIT"]);
    assert_eq!(other.phase, IrcPhase::Closed);
}

#[test]
fn frames_are_classified() {
    assert_eq!(classify_frame("PING :tmi.twitch.tv"), FrameKind::Ping);
    assert_eq!(classify_frame("@x a!a PRIVMSG #c :hi"), FrameKind::Chat);
    assert_eq!(classify_frame(":tmi 001 me :Welcome, GLHF!"), FrameKind::Welcome);
    assert_eq!(classify_frame(":tmi 002 me :Your host"), FrameKind::Other);
}
