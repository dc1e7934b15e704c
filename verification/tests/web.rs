use game_relay::http::lobby::{game_types, list};
use game_relay::http::middleware::guard::header_insensitive;
use game_relay::http::middleware::key_token::KeyTokens;
use game_relay::http::utils::{header_text, http_ok_serialize, http_ok_utf8, is_xprm_accept};
use game_relay::http::ws::{
    binary_frame, body_step, closed_behind, connection_info, handshake_with_protocols,
    ping_task_next, BodyReceived, BodyStep, HandshakeError, HandshakeRequest, PingCommand,
    PingEvent, WsCommand, WsError, WsEvent, WsFrame, WsStreamTask,
};
use game_relay::lobby::room_info::{ExtraData, LobbyHost, RoomInfo};
use game_relay::netconnection::codec::NetConnectionCodecError;
use game_relay::netconnection::netconnection::{NetConnectionMessage, StreamMessage};
use game_relay::setup::{allowed_games_types, http_public_address, ws_public_address};
use game_relay::utils::time::{
    duration_between, duration_since_timestamp, get_timestamp, timestamp_at, Duration,
    IntervalTimer,
};
use game_relay::xprm::ser::to_string;
use game_relay::xprm::value::Value;
use tokio_util::bytes::Bytes;

fn request() -> HandshakeRequest {
    HandshakeRequest {
        get: true,
        upgrade: Some(b"h2c, WebSocket".to_vec()),
        connection_upgrade: true,
        version: Some(b"13".to_vec()),
        key: Some(b"hello actix-web".to_vec()),
        protocol: None,
    }
}

fn fault(change: impl Fn(&mut HandshakeRequest)) -> HandshakeError {
    let mut req = request();
    change(&mut req);
    handshake_with_protocols(&req, &vec![]).err().unwrap()
}

#[test]
fn handshake_answers_the_key() {
    let h = handshake_with_protocols(&request(), &vec![]).ok().unwrap();
    assert_eq!(h.accept, b"cR1dlyUUJKp0s/Bel25u5TgvC3E=".to_vec());
    assert!(h.protocol.is_none());
    for version in ["8", "7"] {
        let mut req = request();
        req.version = Some(version.as_bytes().to_vec());
        assert!(handshake_with_protocols(&req, &vec![]).is_ok());
    }
}

#[test]
fn handshake_faults() {
    assert_eq!(fault(|r| r.get = false), HandshakeError::GetMethodRequired);
    assert_eq!(fault(|r| r.upgrade = None), HandshakeError::NoWebsocketUpgrade);
    assert_eq!(fault(|r| r.upgrade = Some(b"h2c".to_vec())), HandshakeError::NoWebsocketUpgrade);
    assert_eq!(
        fault(|r| r.upgrade = Some(b"websocket\xff".to_vec())),
        HandshakeError::NoWebsocketUpgrade
    );
    assert_eq!(fault(|r| r.connection_upgrade = false), HandshakeError::NoConnectionUpgrade);
    assert_eq!(fault(|r| r.version = None), HandshakeError::NoVersionHeader);
    assert_eq!(fault(|r| r.version = Some(b"12".to_vec())), HandshakeError::UnsupportedVersion);
    assert_eq!(fault(|r| r.key = None), HandshakeError::BadWebsocketKey);
}

#[test]
fn handshake_protocols() {
    let known = vec!["b".to_string(), "c".to_string()];
    let mut req = request();
    req.protocol = Some(b"a,\t c , b".to_vec());
    let h = handshake_with_protocols(&req, &known).ok().unwrap();
    assert_eq!(h.protocol.as_deref(), Some("c"));
    req.protocol = Some(b"x".to_vec());
    assert!(handshake_with_protocols(&req, &known).ok().unwrap().protocol.is_none());
}

fn message(data: Bytes) -> NetConnectionMessage {
    NetConnectionMessage { source_netid: 5, destination_netid: 6, compressed: true, data }
}

#[test]
fn frames_of_a_websocket() {
    let mut task = WsStreamTask::new();
    let frame = binary_frame(message(Bytes::from_static(b"abc"))).unwrap();
    assert!(task.can_decode(&frame));
    match task.next(WsEvent::Frame(WsFrame::Binary(frame.clone()))) {
        WsCommand::Forward(StreamMessage::Message(m)) => {
            assert_eq!((m.source_netid, m.destination_netid, m.compressed), (5, 6, true));
            assert_eq!(&m.data[..], b"abc");
        }
        _ => panic!("no message"),
    }
    let mut next = |e| task.next(e);
    assert!(matches!(
        next(WsEvent::Frame(WsFrame::Text)),
        WsCommand::ForwardError(WsError::UnsupportedText)
    ));
    assert!(matches!(
        next(WsEvent::Frame(WsFrame::Continuation)),
        WsCommand::ForwardError(WsError::UnsupportedContinuation)
    ));
    match next(WsEvent::Frame(WsFrame::Ping(Bytes::from_static(b"p")))) {
        WsCommand::Pong(data) => assert_eq!(&data[..], b"p"),
        _ => panic!("no pong"),
    }
    assert!(matches!(next(WsEvent::PongSent), WsCommand::Read));
    assert!(matches!(next(WsEvent::PongFailed), WsCommand::ForwardError(WsError::PongFailed)));
    assert!(matches!(
        next(WsEvent::Frame(WsFrame::Pong)),
        WsCommand::Forward(StreamMessage::PingResponse)
    ));
    assert!(matches!(next(WsEvent::Forwarded), WsCommand::Read));
    assert!(matches!(next(WsEvent::Frame(WsFrame::Close)), WsCommand::Finish));
    assert!(matches!(next(WsEvent::Cancelled), WsCommand::Finish));
    assert!(matches!(
        next(WsEvent::Frame(WsFrame::Binary(Bytes::new()))),
        WsCommand::ForwardError(WsError::InvalidData)
    ));
    assert!(matches!(
        next(WsEvent::Frame(WsFrame::Binary(frame.slice(0..20)))),
        WsCommand::ForwardError(WsError::Codec(NetConnectionCodecError::BytesRemaining(12)))
    ));
}

#[test]
fn frames_have_a_limit() {
    let big = message(Bytes::from(vec![0; 33554432]));
    assert_eq!(binary_frame(big), Err(NetConnectionCodecError::WrongLength(33554456)));
}

#[test]
fn pings_of_a_websocket() {
    for cancelled in [false, true] {
        for event in [PingEvent::Begin { cancelled }, PingEvent::Wake { cancelled }] {
            match ping_task_next(event) {
                PingCommand::Ping(data) => assert!(!cancelled && data.is_empty()),
                PingCommand::Finish => assert!(cancelled),
                PingCommand::Sleep => panic!("sleeps without a ping"),
            }
        }
    }
    assert!(matches!(ping_task_next(PingEvent::Sent), PingCommand::Sleep));
    assert!(matches!(ping_task_next(PingEvent::SendFailed), PingCommand::Finish));
}

#[test]
fn the_body_of_a_websocket() {
    assert_eq!(body_step(false, true), BodyStep::Send);
    assert_eq!(body_step(true, true), BodyStep::End);
    assert_eq!(body_step(true, false), BodyStep::Wait);
    assert!(closed_behind(false, BodyReceived::Closed));
    assert!(!closed_behind(false, BodyReceived::Message));
    assert!(closed_behind(true, BodyReceived::Pending));
    assert_eq!(connection_info(Some("1.2.3.4:5")), "WebSocket(1.2.3.4:5)");
    assert_eq!(connection_info(None), "WebSocket(?)");
}

#[test]
fn tokens() {
    let tokens = KeyTokens::new(vec!["".to_string(), "secret".to_string()]);
    let m = tokens.new_transform(5u8);
    assert_eq!(m.service, 5);
    assert!(m.is_authorized(Some(b"Bearer secret")));
    for auth in ["Bearer ", "Bearer secre", "Bearer secret ", "bearer secret", "secret", ""] {
        assert!(!m.is_authorized(Some(auth.as_bytes())));
    }
    assert!(!m.is_authorized(None));
    let bell = KeyTokens::new(vec!["\u{7}".to_string()]).new_transform(());
    assert!(!bell.is_authorized(Some(b"Bearer \x07")));
    let empty = KeyTokens::new(vec!["".to_string()]).new_transform(());
    assert!(!empty.is_authorized(Some(b"Bearer ")));
}

#[test]
fn guards() {
    let g = header_insensitive("upgrade".to_string(), "WebSocket").unwrap();
    assert_eq!(g.value, "websocket");
    assert!(g.check(Some(b"websocket")));
    assert!(g.check(Some(b"WEBSOCKET")));
    assert!(!g.check(Some(b"websockets")));
    assert!(!g.check(Some(b"websocket\x80")));
    assert!(!g.check(None));
    assert!(header_insensitive("a".to_string(), "b\nc").is_none());
}

#[test]
fn response_bodies() {
    assert_eq!(
        http_ok_utf8("x"),
        "<html><head><meta charset=\"UTF-8\"></head><body>x</body></html>"
    );
    let v = Value::Bool(true);
    let json = || Ok("true".to_string());
    let r = http_ok_serialize(true, &v, json()).unwrap();
    assert_eq!((r.content_type.as_str(), r.body.as_str()), ("application/xprm", "true"));
    let r = http_ok_serialize(false, &v, json()).unwrap();
    assert_eq!(r.content_type, "application/json");
    assert!(http_ok_serialize(false, &v, Err("e".to_string())).is_err());
    assert!(is_xprm_accept(Some(b"application/xprm")));
    assert!(!is_xprm_accept(Some(b"application/xprm, */*")));
    assert!(!is_xprm_accept(Some(b"application/xprm\xff")));
    assert!(!is_xprm_accept(None));
    assert_eq!(header_text(b"a\tb").as_deref(), Some("a\tb"));
    assert!(header_text(b"a\nb").is_none());
}

#[test]
fn lists_for_browsers() {
    let info = |game: &str| RoomInfo {
        room_id: 1,
        game_type: game.to_string(),
        game_version: "1".to_string(),
        room_name: "n".to_string(),
        room_password: false,
        room_closed: false,
        game_started: false,
        players_count: 0,
        players_max: 0,
        ping: 0,
        extra_data: ExtraData::new(),
    };
    let host = LobbyHost { host_tcp: "t".to_string(), host_ws: "w".to_string() };
    let infos = vec![info("g"), info("h")];
    assert_eq!(list(&infos, None, &host).lobbies[0].rooms.len(), 2);
    let only = list(&infos, Some("h".to_string()), &host);
    assert_eq!(only.lobbies[0].rooms.len(), 1);
    let none = list(&infos, Some("x".to_string()), &host);
    assert_eq!(
        to_string(&none.value()).unwrap(),
        "{lobbies={1;{host={host_tcp=\"t\";host_ws=\"w\";};rooms={0;};}};}"
    );
    let games = vec!["a".to_string(), "b".to_string()];
    assert_eq!(to_string(&game_types(&games)).unwrap(), "{2;\"a\",\"b\"}");
}

#[test]
fn addresses_and_games() {
    assert!(allowed_games_types(None).is_empty());
    assert_eq!(
        allowed_games_types(Some(",a,,b c,".to_string())),
        vec!["a".to_string(), "b c".to_string()]
    );
    assert_eq!(http_public_address(None, "0.0.0.0:8888"), "http://0.0.0.0:8888");
    assert_eq!(http_public_address(Some("https://x".to_string()), "b"), "https://x");
    assert_eq!(http_public_address(Some("ftp://x".to_string()), "b"), "ftp://x");
    assert_eq!(ws_public_address(None, "https://http.x"), "wss://ws.x");
    assert_eq!(ws_public_address(Some("ws://y".to_string()), "http://x"), "ws://y");
}

#[test]
fn time_stamps() {
    assert_eq!(timestamp_at(Some(Duration::new(5, 7))), (5, 7));
    assert_eq!(timestamp_at(None), (0, 0));
    assert_eq!(duration_between(Some(Duration::new(5, 0)), &(3, 500_000_000)).as_millis(), 1500);
    assert!(duration_between(Some(Duration::new(5, 0)), &(6, 0)).is_zero());
    assert!(duration_between(None, &(0, 1)).is_zero());
    let stamp = get_timestamp();
    assert!(stamp.0 > 1_600_000_000 && stamp.1 < 1_000_000_000);
    assert!(duration_since_timestamp(&stamp).as_millis() < 10_000);
    assert!(duration_since_timestamp(&(0, 0)).as_millis() > 1_600_000_000_000);
}

#[test]
fn interval_timers() {
    let ms = Duration::from_millis;
    let mut t = IntervalTimer::new(ms(100));
    assert!(!t.tick_at(ms(0)));
    assert!(t.tick_at(ms(1)));
    assert!(!t.tick_at(ms(101)));
    assert!(t.tick_at(Duration::new(0, 101_000_001)));
    assert!(!t.tick_at(ms(150)));
    let mut never = IntervalTimer::new(Duration::zero());
    assert!(!never.tick_at(ms(1_000_000)));
    let mut real = IntervalTimer::new(ms(3_600_000));
    while !real.tick() {}
    assert!(!real.tick());
}
