use node_agent::commands::{
    AddUserCommand, AddUserStep, HealthCheckQuery, RemoveUserCommand, ReportTrafficCommand,
};
use node_agent::dto::{HubMessage, NodeMessage, XrayConfig};
use node_agent::hub::{
    auth_step, command_result, periodic_messages, AuthStep, HubClient, HubSession, InboundFrame,
    OutboundStatus, ReconnectBackoff, SessionAction, SessionEvent,
};
use node_agent::hysteria::NoopHysteriaClient;
use node_agent::traffic::TrafficTable;

struct MockXray;
struct MockHysteria;

type Client<X, H> = HubClient<
    AddUserCommand<X, H>,
    RemoveUserCommand<X, H>,
    ReportTrafficCommand<X, H>,
    HealthCheckQuery<X, H>,
>;

fn client<X, H>(x: fn() -> X, h: fn() -> H) -> Client<X, H> {
    HubClient::new(
        "ws://127.0.0.1:0/ws/node".to_string(),
        "test-node".to_string(),
        "secret123".to_string(),
        "127.0.0.1".to_string(),
        vec!["vless-inbound".to_string()],
        "Germany".to_string(),
        "DE".to_string(),
        "🇩🇪".to_string(),
        None,
        None,
        AddUserCommand::new(x(), h()),
        RemoveUserCommand::new(x(), h()),
        ReportTrafficCommand::new(x(), h()),
        HealthCheckQuery::new(x(), h()),
    )
}

/// Runs an add-user command whose back-end calls all succeed, returning the steps asked for.
fn run_add_user<X, H>(cmd: &AddUserCommand<X, H>, uuid: &str, tags: Vec<String>) -> (Vec<String>, Result<(), String>) {
    let mut run = cmd.begin(uuid.to_string(), tags);
    let mut log = Vec::new();
    loop {
        match run.next() {
            AddUserStep::AddXray { tag, email, uuid: id } => {
                assert_eq!((email.as_str(), id.as_str()), (uuid, uuid));
                log.push(format!("add xray {}", tag))
            }
            AddUserStep::AddHysteria { uuid: id } => {
                assert_eq!(id, uuid);
                log.push("add hysteria".to_string())
            }
            AddUserStep::RemoveXray { tag, .. } => log.push(format!("remove xray {}", tag)),
            AddUserStep::Done(r) => return (log, r),
        }
        run.complete(Ok(()));
    }
}

fn lifecycle<X, H>(client: &Client<X, H>, command_id: &str, uuid: &str) {
    // Registration comes first and names the node.
    match client.registration_message() {
        NodeMessage::Register { node_id, auth_secret, public_ip, inbound_tags, name_en, country_code, country_flag, xray, hysteria, .. } => {
            assert_eq!(node_id, "test-node");
            assert_eq!(auth_secret, "secret123");
            assert_eq!(public_ip, "127.0.0.1");
            assert_eq!(inbound_tags, vec!["vless-inbound".to_string()]);
            assert_eq!(name_en.as_deref(), Some("Germany"));
            assert_eq!(country_code.as_deref(), Some("DE"));
            assert_eq!(country_flag.as_deref(), Some("🇩🇪"));
            assert!(xray.is_none());
            assert!(hysteria.is_none());
        }
        other => panic!("Expected Register, got {:?}", other),
    }
    // The hub accepts.
    assert!(matches!(auth_step(InboundFrame::Text(Ok(HubMessage::AuthOk))), AuthStep::Authenticated));
    // The hub asks to add a user.
    let mut session = HubSession::new(0);
    let action = session.handle(SessionEvent::Inbound {
        frame: InboundFrame::Text(Ok(HubMessage::AddUser {
            command_id: command_id.to_string(),
            uuid: uuid.to_string(),
            inbound_tags: vec!["vless-inbound".to_string()],
        })),
        now_nanos: 1,
    });
    let (cid, u, tags) = match action {
        SessionAction::RunAddUser { command_id, uuid, inbound_tags } => (command_id, uuid, inbound_tags),
        _ => panic!("expected the add-user command"),
    };
    let (steps, outcome) = run_add_user(&client.add_user_cmd, &u, tags);
    assert_eq!(steps, vec!["add xray vless-inbound".to_string(), "add hysteria".to_string()]);
    match command_result(cid, outcome) {
        NodeMessage::CommandResult { command_id: id, success, error_message } => {
            assert_eq!(id, command_id);
            assert!(success);
            assert!(error_message.is_empty());
        }
        other => panic!("Expected CommandResult, got {:?}", other),
    }
    // The periodic round with no traffic sends a ping.
    let msgs = periodic_messages(Ok(TrafficTable::new()));
    assert_eq!(msgs.len(), 1);
    assert!(matches!(msgs[0], NodeMessage::Ping));
}

#[test]
fn test_hub_client_lifecycle() {
    let c = client(|| MockXray, || MockHysteria);
    lifecycle(&c, "cmd-uuid-1", "user-uuid-1");
}

#[test]
fn test_hub_client_xray_only() {
    let c = client(|| MockXray, || NoopHysteriaClient);
    lifecycle(&c, "cmd-uuid-2", "user-uuid-2");
}

#[test]
fn registration_carries_offers() {
    let mut c = client(|| MockXray, || MockHysteria);
    c.xray = Some(XrayConfig { port: 443, sni: "sni".to_string(), public_key: "pk".to_string(), short_id: "ab".to_string() });
    match c.registration_message() {
        NodeMessage::Register { xray: Some(x), name_ru, .. } => {
            assert_eq!(x, XrayConfig { port: 443, sni: "sni".to_string(), public_key: "pk".to_string(), short_id: "ab".to_string() });
            assert!(name_ru.is_none());
        }
        other => panic!("unexpected {:?}", other),
    }
}

#[test]
fn auth_steps() {
    match auth_step(InboundFrame::Text(Ok(HubMessage::AuthFailed { reason: "bad secret".to_string() }))) {
        AuthStep::Failed(m) => assert_eq!(m, "Authentication failed: bad secret"),
        _ => panic!(),
    }
    match auth_step(InboundFrame::Text(Ok(HubMessage::Pong))) {
        AuthStep::Failed(m) => assert_eq!(m, "Received unexpected message during auth"),
        _ => panic!(),
    }
    match auth_step(InboundFrame::Text(Err("expected value".to_string()))) {
        AuthStep::Failed(m) => assert_eq!(m, "Failed to parse auth response: expected value"),
        _ => panic!(),
    }
    match auth_step(InboundFrame::Ping(vec![1, 2])) {
        AuthStep::SendPong(p) => assert_eq!(p, vec![1, 2]),
        _ => panic!(),
    }
    assert!(matches!(auth_step(InboundFrame::Pong), AuthStep::KeepWaiting));
    assert!(matches!(auth_step(InboundFrame::Other), AuthStep::KeepWaiting));
    match auth_step(InboundFrame::Close("None".to_string())) {
        AuthStep::Failed(m) => assert_eq!(m, "Connection closed during auth: None"),
        _ => panic!(),
    }
    match auth_step(InboundFrame::ReadError("reset".to_string())) {
        AuthStep::Failed(m) => assert_eq!(m, "Error reading auth response: reset"),
        _ => panic!(),
    }
    match auth_step(InboundFrame::Ended) {
        AuthStep::Failed(m) => assert_eq!(m, "Connection closed during auth"),
        _ => panic!(),
    }
}

fn stop_reason(a: SessionAction) -> String {
    match a {
        SessionAction::Stop(m) => m,
        _ => panic!("expected the session to stop"),
    }
}

#[test]
fn pong_keeps_the_session_alive_and_silence_ends_it() {
    let mut s = HubSession::new(1_000);
    assert!(matches!(s.handle(SessionEvent::LivenessCheck { now_nanos: 60_000_001_000 }), SessionAction::Continue));
    let a = s.handle(SessionEvent::Inbound { frame: InboundFrame::Text(Ok(HubMessage::Pong)), now_nanos: 50_000_000_000 });
    assert!(matches!(a, SessionAction::Continue));
    assert_eq!(s.last_pong_nanos, 50_000_000_000);
    assert!(matches!(s.handle(SessionEvent::LivenessCheck { now_nanos: 110_000_000_000 }), SessionAction::Continue));
    let a = s.handle(SessionEvent::LivenessCheck { now_nanos: 110_000_000_001 });
    assert_eq!(stop_reason(a), "No Pong received in 60s, connection dead");
    // Once stopped, it stays stopped.
    let a = s.handle(SessionEvent::Inbound { frame: InboundFrame::Text(Ok(HubMessage::Pong)), now_nanos: 110_000_000_002 });
    assert_eq!(stop_reason(a), "No Pong received in 60s, connection dead");
    assert_eq!(s.last_pong_nanos, 50_000_000_000);
}

#[test]
fn clock_going_back_counts_as_no_time() {
    let mut s = HubSession::new(500_000_000_000);
    assert!(matches!(s.handle(SessionEvent::LivenessCheck { now_nanos: 0 }), SessionAction::Continue));
}

#[test]
fn session_errors() {
    let mut s = HubSession::new(0);
    assert!(matches!(s.handle(SessionEvent::Outbound(OutboundStatus::Sent)), SessionAction::Continue));
    match s.handle(SessionEvent::Outbound(OutboundStatus::EncodeFailed("x".to_string()))) {
        SessionAction::Log(m) => assert_eq!(m, "Failed to serialize NodeMessage: x"),
        _ => panic!(),
    }
    match s.handle(SessionEvent::Inbound { frame: InboundFrame::Text(Err("bad json".to_string())), now_nanos: 1 }) {
        SessionAction::Log(m) => assert_eq!(m, "Failed to parse HubMessage: bad json"),
        _ => panic!(),
    }
    assert!(matches!(s.handle(SessionEvent::Inbound { frame: InboundFrame::Ping(vec![]), now_nanos: 1 }), SessionAction::Continue));
    assert!(matches!(s.handle(SessionEvent::Inbound { frame: InboundFrame::Text(Ok(HubMessage::AuthOk)), now_nanos: 1 }), SessionAction::Continue));
    match s.handle(SessionEvent::Inbound {
        frame: InboundFrame::Text(Ok(HubMessage::RemoveUser { command_id: "c".to_string(), email: "e".to_string(), inbound_tags: vec![] })),
        now_nanos: 1,
    }) {
        SessionAction::RunRemoveUser { command_id, email, inbound_tags } => {
            assert_eq!(command_id, "c");
            assert_eq!(email, "e");
            assert!(inbound_tags.is_empty());
        }
        _ => panic!(),
    }
    assert_eq!(stop_reason(s.handle(SessionEvent::Outbound(OutboundStatus::SendFailed))), "Failed to send outbound message over WS");
    let mut s = HubSession::new(0);
    assert_eq!(stop_reason(s.handle(SessionEvent::Outbound(OutboundStatus::QueueClosed))), "Outbound queue closed");
    let mut s = HubSession::new(0);
    assert_eq!(stop_reason(s.handle(SessionEvent::Inbound { frame: InboundFrame::ReadError("reset".to_string()), now_nanos: 0 })), "WS receiver error: reset");
    let mut s = HubSession::new(0);
    assert_eq!(stop_reason(s.handle(SessionEvent::Inbound { frame: InboundFrame::Ended, now_nanos: 0 })), "WS connection closed by Hub");
}

#[test]
fn command_results() {
    match command_result("c1".to_string(), Err("boom".to_string())) {
        NodeMessage::CommandResult { command_id, success, error_message } => {
            assert_eq!(command_id, "c1");
            assert!(!success);
            assert_eq!(error_message, "boom");
        }
        _ => panic!(),
    }
}

#[test]
fn periodic_round_reports_traffic_then_pings() {
    let mut t = TrafficTable::new();
    t.set("a".to_string(), 3);
    let msgs = periodic_messages(Ok(t));
    assert_eq!(msgs.len(), 2);
    match &msgs[0] {
        NodeMessage::TrafficReport { user_bytes } => assert_eq!(user_bytes.get(&"a".to_string()), Some(3)),
        _ => panic!(),
    }
    assert!(matches!(msgs[1], NodeMessage::Ping));
    let msgs = periodic_messages(Err("x".to_string()));
    assert_eq!(msgs.len(), 1);
    assert!(matches!(msgs[0], NodeMessage::Ping));
}

#[test]
fn reconnect_backoff_doubles_to_a_minute_and_resets() {
    let mut b = ReconnectBackoff::new();
    let waits: Vec<u64> = (0..6).map(|_| b.after_connect_failure()).collect();
    assert_eq!(waits, vec![5, 10, 20, 40, 60, 60]);
    assert_eq!(b.delay_secs(), 60);
    assert_eq!(b.after_session(&Err("boom".to_string())), 60);
    assert_eq!(b.after_session(&Ok(())), 5);
    assert_eq!(b.delay_secs(), 5);
    assert_eq!(b.after_session(&Err("x".to_string())), 5);
    assert_eq!(b.delay_secs(), 10);
    assert_eq!(b.after_session(&Err("Authentication failed: bad secret".to_string())), 30);
    assert_eq!(b.delay_secs(), 5);
}
