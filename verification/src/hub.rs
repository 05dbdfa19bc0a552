//! The node's side of the hub protocol: registration, the authentication
//! handshake, the decisions of a running session, the periodic reports and
//! the reconnect back-off. The socket, the timers and the JSON encoding are
//! the caller's: it feeds each event in and performs the action that comes out.
use vstd::prelude::*;

use crate::dto::{HubMessage, HysteriaConfig, NodeMessage, XrayConfig};
use crate::text::{concat2, contains, contains_spec, owned};
use crate::traffic::TrafficTable;

verus! {

/// A copy of each string, in order.
pub fn copy_strings(v: &Vec<String>) -> (out: Vec<String>)
    ensures
        out@ == v@,
{
    let mut out: Vec<String> = Vec::new();
    let mut i: usize = 0;
    while i < v.len()
        invariant
            i <= v@.len(),
            out@ == v@.take(i as int),
        decreases v.len() - i,
    {
        out.push(v[i].clone());
        proof {
            assert(v@.take(i + 1) =~= v@.take(i as int).push(v@[i as int]));
        }
        i = i + 1;
    }
    assert(v@.take(v@.len() as int) =~= v@);
    out
}

impl XrayConfig {
    /// A field-by-field copy.
    pub fn duplicate(&self) -> (out: XrayConfig)
        ensures
            out == *self,
    {
        XrayConfig {
            port: self.port,
            sni: self.sni.clone(),
            public_key: self.public_key.clone(),
            short_id: self.short_id.clone(),
        }
    }
}

impl HysteriaConfig {
    /// A field-by-field copy.
    pub fn duplicate(&self) -> (out: HysteriaConfig)
        ensures
            out == *self,
    {
        HysteriaConfig { port: self.port, sni: self.sni.clone() }
    }
}

/// The hub connection of a node: who the node is, what it serves, and the
/// command handlers that hub requests are run with.
pub struct HubClient<A, R, T, Q> {
    pub hub_url: String,
    pub node_id: String,
    pub auth_secret: String,
    pub public_ip: String,
    pub inbound_tags: Vec<String>,
    pub name_en: String,
    pub country_code: String,
    pub country_flag: String,
    pub xray: Option<XrayConfig>,
    pub hysteria: Option<HysteriaConfig>,
    pub add_user_cmd: A,
    pub remove_user_cmd: R,
    pub report_traffic_cmd: T,
    pub healthcheck_query: Q,
}

impl<A, R, T, Q> HubClient<A, R, T, Q> {
    /// A client with the given identity, offer and handlers.
    #[allow(clippy::too_many_arguments)]
    pub fn new(
        hub_url: String,
        node_id: String,
        auth_secret: String,
        public_ip: String,
        inbound_tags: Vec<String>,
        name_en: String,
        country_code: String,
        country_flag: String,
        xray: Option<XrayConfig>,
        hysteria: Option<HysteriaConfig>,
        add_user_cmd: A,
        remove_user_cmd: R,
        report_traffic_cmd: T,
        healthcheck_query: Q,
    ) -> (c: Self)
        ensures
            c.hub_url == hub_url,
            c.node_id == node_id,
            c.auth_secret == auth_secret,
            c.public_ip == public_ip,
            c.inbound_tags == inbound_tags,
            c.name_en == name_en,
            c.country_code == country_code,
            c.country_flag == country_flag,
            c.xray == xray,
            c.hysteria == hysteria,
            c.add_user_cmd == add_user_cmd,
            c.remove_user_cmd == remove_user_cmd,
            c.report_traffic_cmd == report_traffic_cmd,
            c.healthcheck_query == healthcheck_query,
    {
        HubClient {
            hub_url,
            node_id,
            auth_secret,
            public_ip,
            inbound_tags,
            name_en,
            country_code,
            country_flag,
            xray,
            hysteria,
            add_user_cmd,
            remove_user_cmd,
            report_traffic_cmd,
            healthcheck_query,
        }
    }

    /// The message that opens every session: the node's identity and offer.
    pub fn registration_message(&self) -> (m: NodeMessage)
        ensures
            m matches NodeMessage::Register {
                node_id,
                auth_secret,
                public_ip,
                inbound_tags,
                name_en,
                name_ru,
                country_code,
                country_flag,
                xray,
                hysteria,
            } && node_id == self.node_id && auth_secret == self.auth_secret && public_ip
                == self.public_ip && inbound_tags@ == self.inbound_tags@ && name_en == Some(
                self.name_en,
            ) && name_ru is None && country_code == Some(self.country_code) && country_flag == Some(
                self.country_flag,
            ) && xray == self.xray && hysteria == self.hysteria,
    {
        let xray = match &self.xray {
            Some(x) => Some(x.duplicate()),
            None => None,
        };
        let hysteria = match &self.hysteria {
            Some(h) => Some(h.duplicate()),
            None => None,
        };
        NodeMessage::Register {
            node_id: self.node_id.clone(),
            auth_secret: self.auth_secret.clone(),
            public_ip: self.public_ip.clone(),
            inbound_tags: copy_strings(&self.inbound_tags),
            name_en: Some(self.name_en.clone()),
            name_ru: None,
            country_code: Some(self.country_code.clone()),
            country_flag: Some(self.country_flag.clone()),
            xray,
            hysteria,
        }
    }
}

/// What arrives from the hub's socket, with any text already decoded.
pub enum InboundFrame {
    /// A text frame, decoded as a hub message, or the decoder's error.
    Text(Result<HubMessage, String>),
    /// A ping frame with its payload.
    Ping(Vec<u8>),
    /// A pong frame.
    Pong,
    /// A close frame, with its reason as text.
    Close(String),
    /// A binary or raw frame.
    Other,
    /// Reading failed, with the error as text.
    ReadError(String),
    /// The stream ended.
    Ended,
}

/// What to do with a frame while waiting for the hub's verdict on the registration.
pub enum AuthStep {
    /// Answer a ping with this payload and keep waiting.
    SendPong(Vec<u8>),
    /// Keep waiting.
    KeepWaiting,
    /// The hub accepted the node.
    Authenticated,
    /// The session ends with this error.
    Failed(String),
}

/// What `auth_step` answers to each frame.
pub open spec fn auth_step_spec(frame: InboundFrame, step: AuthStep) -> bool {
    match frame {
        InboundFrame::Text(Ok(HubMessage::AuthOk)) => step is Authenticated,
        InboundFrame::Text(Ok(HubMessage::AuthFailed { reason })) => step matches AuthStep::Failed(
            m,
        ) && m@ == "Authentication failed: "@ + reason@,
        InboundFrame::Text(Ok(_)) => step matches AuthStep::Failed(m) && m@
            == "Received unexpected message during auth"@,
        InboundFrame::Text(Err(e)) => step matches AuthStep::Failed(m) && m@
            == "Failed to parse auth response: "@ + e@,
        InboundFrame::Ping(p) => step matches AuthStep::SendPong(q) && q@ == p@,
        InboundFrame::Pong => step is KeepWaiting,
        InboundFrame::Other => step is KeepWaiting,
        InboundFrame::Close(r) => step matches AuthStep::Failed(m) && m@
            == "Connection closed during auth: "@ + r@,
        InboundFrame::ReadError(e) => step matches AuthStep::Failed(m) && m@
            == "Error reading auth response: "@ + e@,
        InboundFrame::Ended => step matches AuthStep::Failed(m) && m@
            == "Connection closed during auth"@,
    }
}

/// The decision on one frame received while authenticating.
pub fn auth_step(frame: InboundFrame) -> (step: AuthStep)
    ensures
        auth_step_spec(frame, step),
{
    match frame {
        InboundFrame::Text(Ok(HubMessage::AuthOk)) => AuthStep::Authenticated,
        InboundFrame::Text(Ok(HubMessage::AuthFailed { reason })) => AuthStep::Failed(
            concat2("Authentication failed: ", reason.as_str()),
        ),
        InboundFrame::Text(Ok(_)) => AuthStep::Failed(
            owned("Received unexpected message during auth"),
        ),
        InboundFrame::Text(Err(e)) => AuthStep::Failed(
            concat2("Failed to parse auth response: ", e.as_str()),
        ),
        InboundFrame::Ping(p) => AuthStep::SendPong(p),
        InboundFrame::Pong => AuthStep::KeepWaiting,
        InboundFrame::Other => AuthStep::KeepWaiting,
        InboundFrame::Close(r) => AuthStep::Failed(
            concat2("Connection closed during auth: ", r.as_str()),
        ),
        InboundFrame::ReadError(e) => AuthStep::Failed(
            concat2("Error reading auth response: ", e.as_str()),
        ),
        InboundFrame::Ended => AuthStep::Failed(owned("Connection closed during auth")),
    }
}

/// How an attempt to deliver a queued message went.
pub enum OutboundStatus {
    /// Written to the socket.
    Sent,
    /// Could not be encoded; the error as text.
    EncodeFailed(String),
    /// The socket refused it.
    SendFailed,
    /// Nothing more will be queued.
    QueueClosed,
}

/// What happens to a running session.
pub enum SessionEvent {
    /// A queued message was taken from the outbound queue.
    Outbound(OutboundStatus),
    /// A frame arrived from the hub at the given time.
    Inbound { frame: InboundFrame, now_nanos: u64 },
    /// The periodic liveness check ran at the given time.
    LivenessCheck { now_nanos: u64 },
}

/// What the session asks its runner to do.
pub enum SessionAction {
    /// Nothing.
    Continue,
    /// Report this error and go on.
    Log(String),
    /// Run the add-user command and queue its result.
    RunAddUser { command_id: String, uuid: String, inbound_tags: Vec<String> },
    /// Run the remove-user command and queue its result.
    RunRemoveUser { command_id: String, email: String, inbound_tags: Vec<String> },
    /// End the session with this error.
    Stop(String),
}

/// A running session: when the hub last answered a ping, and why the
/// session ended, once it has.
pub struct HubSession {
    pub last_pong_nanos: u64,
    pub stop_reason: Option<String>,
}

/// The time between `since` and `now`; 0 where `now` is earlier (`Instant::elapsed` saturates).
pub open spec fn elapsed_nanos(since: u64, now: u64) -> int {
    if now >= since {
        now - since
    } else {
        0
    }
}

/// How long the hub may stay silent: 60 seconds.
pub open spec fn liveness_window_nanos() -> int {
    60_000_000_000
}

/// The session `t` has ended with `msg`, its last pong kept from `s`, and `a` says so.
pub open spec fn ends_with(s: HubSession, t: HubSession, a: SessionAction, msg: Seq<char>) -> bool {
    &&& t.last_pong_nanos == s.last_pong_nanos
    &&& t.stop_reason matches Some(r) && r@ == msg
    &&& a matches SessionAction::Stop(m) && m@ == msg
}

/// One step of a session: from `s`, on `e`, to `t`, asking for `a`.
pub open spec fn session_step(s: HubSession, e: SessionEvent, t: HubSession, a: SessionAction) -> bool {
    match s.stop_reason {
        Some(r) => {
            &&& t == s
            &&& a matches SessionAction::Stop(m) && m@ == r@
        },
        None => match e {
            SessionEvent::Outbound(OutboundStatus::Sent) => t == s && a is Continue,
            SessionEvent::Outbound(OutboundStatus::EncodeFailed(err)) => {
                &&& t == s
                &&& a matches SessionAction::Log(m) && m@ == "Failed to serialize NodeMessage: "@ + err@
            },
            SessionEvent::Outbound(OutboundStatus::SendFailed) => ends_with(
                s,
                t,
                a,
                "Failed to send outbound message over WS"@,
            ),
            SessionEvent::Outbound(OutboundStatus::QueueClosed) => ends_with(
                s,
                t,
                a,
                "Outbound queue closed"@,
            ),
            SessionEvent::Inbound { frame, now_nanos } => match frame {
                InboundFrame::Text(Ok(HubMessage::AddUser { command_id, uuid, inbound_tags })) => t
                    == s && a == SessionAction::RunAddUser { command_id, uuid, inbound_tags },
                InboundFrame::Text(Ok(HubMessage::RemoveUser { command_id, email, inbound_tags })) => t
                    == s && a == SessionAction::RunRemoveUser { command_id, email, inbound_tags },
                InboundFrame::Text(Ok(HubMessage::Pong)) => t == HubSession {
                    last_pong_nanos: now_nanos,
                    stop_reason: None,
                } && a is Continue,
                InboundFrame::Text(Ok(_)) => t == s && a is Continue,
                InboundFrame::Text(Err(err)) => {
                    &&& t == s
                    &&& a matches SessionAction::Log(m) && m@ == "Failed to parse HubMessage: "@ + err@
                },
                InboundFrame::ReadError(err) => ends_with(s, t, a, "WS receiver error: "@ + err@),
                InboundFrame::Ended => ends_with(s, t, a, "WS connection closed by Hub"@),
                _ => t == s && a is Continue,
            },
            SessionEvent::LivenessCheck { now_nanos } => if elapsed_nanos(
                s.last_pong_nanos,
                now_nanos,
            ) > liveness_window_nanos() {
                ends_with(s, t, a, "No Pong received in 60s, connection dead"@)
            } else {
                t == s && a is Continue
            },
        },
    }
}

impl HubSession {
    /// A session that starts at `now_nanos`, counted as the last pong.
    pub fn new(now_nanos: u64) -> (s: HubSession)
        ensures
            s.last_pong_nanos == now_nanos,
            s.stop_reason is None,
    {
        HubSession { last_pong_nanos: now_nanos, stop_reason: None }
    }

    fn stop(&mut self, msg: String) -> (a: SessionAction)
        ensures
            final(self).last_pong_nanos == old(self).last_pong_nanos,
            final(self).stop_reason matches Some(r) && r@ == msg@,
            a matches SessionAction::Stop(m) && m@ == msg@,
    {
        let copy = msg.clone();
        self.stop_reason = Some(msg);
        SessionAction::Stop(copy)
    }

    /// The session's decision on one event.
    pub fn handle(&mut self, event: SessionEvent) -> (a: SessionAction)
        ensures
            session_step(*old(self), event, *final(self), a),
    {
        match &self.stop_reason {
            Some(r) => {
                return SessionAction::Stop(r.clone());
            },
            None => {},
        }
        match event {
            SessionEvent::Outbound(OutboundStatus::Sent) => SessionAction::Continue,
            SessionEvent::Outbound(OutboundStatus::EncodeFailed(err)) => SessionAction::Log(
                concat2("Failed to serialize NodeMessage: ", err.as_str()),
            ),
            SessionEvent::Outbound(OutboundStatus::SendFailed) => self.stop(
                owned("Failed to send outbound message over WS"),
            ),
            SessionEvent::Outbound(OutboundStatus::QueueClosed) => self.stop(
                owned("Outbound queue closed"),
            ),
            SessionEvent::Inbound { frame, now_nanos } => match frame {
                InboundFrame::Text(Ok(HubMessage::AddUser { command_id, uuid, inbound_tags })) => {
                    SessionAction::RunAddUser { command_id, uuid, inbound_tags }
                },
                InboundFrame::Text(Ok(HubMessage::RemoveUser { command_id, email, inbound_tags })) => {
                    SessionAction::RunRemoveUser { command_id, email, inbound_tags }
                },
                InboundFrame::Text(Ok(HubMessage::Pong)) => {
                    self.last_pong_nanos = now_nanos;
                    SessionAction::Continue
                },
                InboundFrame::Text(Ok(_)) => SessionAction::Continue,
                InboundFrame::Text(Err(err)) => SessionAction::Log(
                    concat2("Failed to parse HubMessage: ", err.as_str()),
                ),
                InboundFrame::ReadError(err) => self.stop(
                    concat2("WS receiver error: ", err.as_str()),
                ),
                InboundFrame::Ended => self.stop(owned("WS connection closed by Hub")),
                _ => SessionAction::Continue,
            },
            SessionEvent::LivenessCheck { now_nanos } => {
                let elapsed: u64 = if now_nanos >= self.last_pong_nanos {
                    now_nanos - self.last_pong_nanos
                } else {
                    0
                };
                if elapsed > 60_000_000_000 {
                    self.stop(owned("No Pong received in 60s, connection dead"))
                } else {
                    SessionAction::Continue
                }
            },
        }
    }
}

/// Once a session has ended, every further event is answered with the same
/// end and changes nothing.
pub proof fn lemma_session_end_is_final(s: HubSession, e: SessionEvent, t: HubSession, a: SessionAction)
    requires
        s.stop_reason is Some,
        session_step(s, e, t, a),
    ensures
        t == s,
        a matches SessionAction::Stop(m) && m@ == s.stop_reason->0@,
{
}

/// A running session answers the hub's add-user request by asking for the
/// add-user command with exactly the request's command id, user and whole
/// list of inbounds, and changes nothing else.
pub proof fn lemma_add_user_request_is_passed_on(
    s: HubSession,
    command_id: String,
    uuid: String,
    inbound_tags: Vec<String>,
    now: u64,
    t: HubSession,
    a: SessionAction,
)
    requires
        s.stop_reason is None,
        session_step(
            s,
            SessionEvent::Inbound {
                frame: InboundFrame::Text(Ok(HubMessage::AddUser { command_id, uuid, inbound_tags })),
                now_nanos: now,
            },
            t,
            a,
        ),
    ensures
        t == s,
        a matches SessionAction::RunAddUser { command_id: c, uuid: u, inbound_tags: v } && c@
            == command_id@ && u@ == uuid@ && v@.len() == inbound_tags@.len() && forall|i: int|
            0 <= i < v@.len() ==> #[trigger] v@[i]@ == inbound_tags@[i]@,
{
}

/// A running session answers the hub's remove-user request by asking for the
/// remove-user command with exactly the request's command id, user and whole
/// list of inbounds, and changes nothing else.
pub proof fn lemma_remove_user_request_is_passed_on(
    s: HubSession,
    command_id: String,
    email: String,
    inbound_tags: Vec<String>,
    now: u64,
    t: HubSession,
    a: SessionAction,
)
    requires
        s.stop_reason is None,
        session_step(
            s,
            SessionEvent::Inbound {
                frame: InboundFrame::Text(Ok(HubMessage::RemoveUser { command_id, email, inbound_tags })),
                now_nanos: now,
            },
            t,
            a,
        ),
    ensures
        t == s,
        a matches SessionAction::RunRemoveUser { command_id: c, email: m, inbound_tags: v } && c@
            == command_id@ && m@ == email@ && v@.len() == inbound_tags@.len() && forall|i: int|
            0 <= i < v@.len() ==> #[trigger] v@[i]@ == inbound_tags@[i]@,
{
}

/// A pong from the hub keeps a running session alive for the next 60 seconds:
/// a liveness check at most 60 seconds later goes on.
pub proof fn lemma_pong_keeps_session_alive(
    s: HubSession,
    at: u64,
    t1: HubSession,
    a1: SessionAction,
    now: u64,
    t2: HubSession,
    a2: SessionAction,
)
    requires
        s.stop_reason is None,
        session_step(
            s,
            SessionEvent::Inbound { frame: InboundFrame::Text(Ok(HubMessage::Pong)), now_nanos: at },
            t1,
            a1,
        ),
        session_step(t1, SessionEvent::LivenessCheck { now_nanos: now }, t2, a2),
        now <= at + liveness_window_nanos(),
    ensures
        a2 is Continue,
        t2 == t1,
        t1.last_pong_nanos == at,
{
}

/// A running session whose hub has been silent for more than 60 seconds ends
/// at the next liveness check.
pub proof fn lemma_silent_hub_ends_session(s: HubSession, now: u64, t: HubSession, a: SessionAction)
    requires
        s.stop_reason is None,
        now > s.last_pong_nanos + liveness_window_nanos(),
        session_step(s, SessionEvent::LivenessCheck { now_nanos: now }, t, a),
    ensures
        a matches SessionAction::Stop(m) && m@ == "No Pong received in 60s, connection dead"@,
        t.stop_reason is Some,
{
}

/// The report of a command's outcome to the hub.
pub fn command_result(command_id: String, outcome: Result<(), String>) -> (m: NodeMessage)
    ensures
        m matches NodeMessage::CommandResult { command_id: id, success, error_message } && id
            == command_id && success == (outcome is Ok) && error_message@ == (match outcome {
            Ok(_) => Seq::<char>::empty(),
            Err(e) => e@,
        }),
{
    match outcome {
        Ok(_) => NodeMessage::CommandResult {
            command_id,
            success: true,
            error_message: String::new(),
        },
        Err(e) => NodeMessage::CommandResult { command_id, success: false, error_message: e },
    }
}

/// The messages of one periodic round, in sending order: the traffic report
/// when there is traffic to report, then a ping.
pub fn periodic_messages(report: Result<TrafficTable, String>) -> (out: Vec<NodeMessage>)
    ensures
        (match report {
            Ok(t) => t@ != Map::<Seq<char>, u64>::empty(),
            Err(_) => false,
        }) ==> {
            &&& out@.len() == 2
            &&& out@[0] matches NodeMessage::TrafficReport { user_bytes } && user_bytes@ == report->Ok_0@
            &&& out@[1] is Ping
        },
        !(match report {
            Ok(t) => t@ != Map::<Seq<char>, u64>::empty(),
            Err(_) => false,
        }) ==> out@.len() == 1 && out@[0] is Ping,
{
    let mut out: Vec<NodeMessage> = Vec::new();
    match report {
        Ok(t) => {
            if !t.is_empty() {
                out.push(NodeMessage::TrafficReport { user_bytes: t });
            }
        },
        Err(_) => {},
    }
    out.push(NodeMessage::Ping);
    out
}

/// The wait between connection attempts, in seconds; always between 5 and 60.
pub struct ReconnectBackoff {
    delay_secs: u64,
}

/// The back-off after a failure: doubled, at most 60 seconds.
pub open spec fn next_delay(d: int) -> int {
    if 2 * d < 60 {
        2 * d
    } else {
        60
    }
}

/// The back-off after `n` failures in a row from a fresh start.
pub open spec fn delay_after_failures(n: nat) -> int
    decreases n,
{
    if n == 0 {
        5
    } else {
        next_delay(delay_after_failures((n - 1) as nat))
    }
}

/// Whether a session's error is the hub refusing the node.
pub open spec fn is_auth_failure(e: Seq<char>) -> bool {
    contains_spec(e, "Authentication failed"@)
}

impl ReconnectBackoff {
    #[verifier::type_invariant]
    spec fn bounded(self) -> bool {
        5 <= self.delay_secs <= 60
    }

    /// The current back-off.
    pub closed spec fn delay(self) -> int {
        self.delay_secs as int
    }

    /// A fresh back-off of 5 seconds.
    pub fn new() -> (b: ReconnectBackoff)
        ensures
            b.delay() == 5,
    {
        ReconnectBackoff { delay_secs: 5 }
    }

    /// The current back-off, between 5 and 60 seconds.
    pub fn delay_secs(&self) -> (d: u64)
        ensures
            d == self.delay(),
            5 <= d <= 60,
    {
        proof {
            use_type_invariant(self);
        }
        self.delay_secs
    }

    /// The hub could not be reached: wait the current back-off, then double it
    /// up to 60 seconds. Returns the wait.
    pub fn after_connect_failure(&mut self) -> (wait: u64)
        ensures
            wait == old(self).delay(),
            final(self).delay() == next_delay(old(self).delay()),
    {
        proof {
            use_type_invariant(&*self);
        }
        let wait = self.delay_secs;
        self.delay_secs = if wait < 30 {
            wait * 2
        } else {
            60
        };
        wait
    }

    /// A session ended: after a clean end wait 5 seconds, after the hub refused
    /// the node wait 30, both with the back-off back at 5; after any other
    /// error wait the back-off and double it up to 60. Returns the wait.
    pub fn after_session(&mut self, outcome: &Result<(), String>) -> (wait: u64)
        ensures
            match outcome {
                Ok(_) => wait == 5 && final(self).delay() == 5,
                Err(e) => if is_auth_failure(e@) {
                    wait == 30 && final(self).delay() == 5
                } else {
                    wait == old(self).delay() && final(self).delay() == next_delay(old(self).delay())
                },
            },
            outcome matches Err(e) && !contains_spec(e@, "Authentication failed"@) ==> wait
                == old(self).delay() && final(self).delay() == next_delay(old(self).delay()),
            outcome matches Err(e) && contains_spec(e@, "Authentication failed"@) ==> wait == 30
                && final(self).delay() == 5,
    {
        match outcome {
            Ok(_) => {
                self.delay_secs = 5;
                5
            },
            Err(e) => {
                if contains(e.as_str(), "Authentication failed") {
                    self.delay_secs = 5;
                    30
                } else {
                    self.after_connect_failure()
                }
            },
        }
    }
}

/// Only an error that says "Authentication failed" counts as the hub
/// refusing the node: after any other error the wait is the current back-off
/// and the back-off doubles, up to 60 seconds.
pub proof fn lemma_other_errors_back_off(e: Seq<char>, d: int)
    requires
        !contains_spec(e, "Authentication failed"@),
        5 <= d <= 60,
    ensures
        !is_auth_failure(e),
        next_delay(d) == if 2 * d < 60 { 2 * d } else { 60 },
        d < next_delay(d) || next_delay(d) == 60,
{
}

/// From a fresh start, failures in a row wait 5, 10, 20 and 40 seconds, and
/// 60 seconds from then on.
pub proof fn lemma_backoff_doubles_to_cap(n: nat)
    ensures
        n == 0 ==> delay_after_failures(n) == 5,
        n == 1 ==> delay_after_failures(n) == 10,
        n == 2 ==> delay_after_failures(n) == 20,
        n == 3 ==> delay_after_failures(n) == 40,
        n >= 4 ==> delay_after_failures(n) == 60,
    decreases n,
{
    if n > 0 {
        lemma_backoff_doubles_to_cap((n - 1) as nat);
    }
}

} // verus!
