//! The event-stream session: the welcome phase, registering the
//! subscriptions, and rebuilding the session when the server asks for a
//! reconnect.
use vstd::prelude::*;
use crate::text::str_eq;

verus! {

/// An event kind to subscribe to, with the condition that scopes it.
#[derive(Debug)]
pub enum Subscription {
    ChannelPointRedeem { broadcaster_user_id: String, reward_id: Option<String> },
    Subscription { broadcaster_user_id: String },
    RaidTo { broadcaster_user_id: String },
    RaidFrom { broadcaster_user_id: String },
    StreamOnline { broadcaster_user_id: String },
}

impl Subscription {
    pub fn clone(&self) -> (r: Subscription)
        ensures
            r == *self,
    {
        match self {
            Subscription::ChannelPointRedeem { broadcaster_user_id, reward_id } => {
                Subscription::ChannelPointRedeem {
                    broadcaster_user_id: broadcaster_user_id.clone(),
                    reward_id: match reward_id {
                        Some(r) => Some(r.clone()),
                        None => None,
                    },
                }
            },
            Subscription::Subscription { broadcaster_user_id } => {
                Subscription::Subscription { broadcaster_user_id: broadcaster_user_id.clone() }
            },
            Subscription::RaidTo { broadcaster_user_id } => {
                Subscription::RaidTo { broadcaster_user_id: broadcaster_user_id.clone() }
            },
            Subscription::RaidFrom { broadcaster_user_id } => {
                Subscription::RaidFrom { broadcaster_user_id: broadcaster_user_id.clone() }
            },
            Subscription::StreamOnline { broadcaster_user_id } => {
                Subscription::StreamOnline { broadcaster_user_id: broadcaster_user_id.clone() }
            },
        }
    }

    /// The platform's name of the event kind.
    pub fn event_type(&self) -> (r: &'static str)
        ensures
            r@ == subscription_event_type(*self),
    {
        match self {
            Subscription::ChannelPointRedeem { .. } => "channel.channel_points_custom_reward_redemption.add",
            Subscription::Subscription { .. } => "channel.subscription.message",
            Subscription::RaidTo { .. } => "channel.raid",
            Subscription::RaidFrom { .. } => "channel.raid",
            Subscription::StreamOnline { .. } => "stream.online",
        }
    }
}

pub open spec fn subscription_event_type(s: Subscription) -> Seq<char> {
    match s {
        Subscription::ChannelPointRedeem { .. } => "channel.channel_points_custom_reward_redemption.add"@,
        Subscription::Subscription { .. } => "channel.subscription.message"@,
        Subscription::RaidTo { .. } => "channel.raid"@,
        Subscription::RaidFrom { .. } => "channel.raid"@,
        Subscription::StreamOnline { .. } => "stream.online"@,
    }
}

/// A copy of each subscription, in order.
pub fn clone_subscriptions(subs: &Vec<Subscription>) -> (r: Vec<Subscription>)
    ensures
        r@ == subs@,
{
    let mut r: Vec<Subscription> = Vec::new();
    let mut i: usize = 0;
    while i < subs.len()
        invariant
            i <= subs@.len(),
            r@ == subs@.subrange(0, i as int),
        decreases subs@.len() - i,
    {
        r.push(subs[i].clone());
        assert(r@ =~= subs@.subrange(0, i + 1));
        i = i + 1;
    }
    assert(r@ =~= subs@);
    r
}

/// `s` written as a JSON string, quotes included.
pub uninterp spec fn json_quoted(s: Seq<char>) -> Seq<char>;

/// Relies on `serde_json::to_string` on a string: the JSON string literal
/// for the text, quotes and escapes included. It does not fail on a string.
#[verifier::external_body]
fn json_string(s: &str) -> (r: String)
    ensures
        r@ == json_quoted(s@),
{
    serde_json::to_string(s).unwrap_or_default()
}

/// The condition object that scopes a subscription.
pub open spec fn condition_json(s: Subscription) -> Seq<char> {
    match s {
        Subscription::ChannelPointRedeem { broadcaster_user_id, reward_id } => "{\"broadcaster_user_id\":"@
            + json_quoted(broadcaster_user_id@) + ",\"reward_id\":"@ + match reward_id {
            Some(r) => json_quoted(r@),
            None => "null"@,
        } + "}"@,
        Subscription::RaidTo { broadcaster_user_id } => "{\"to_broadcaster_user_id\":"@ + json_quoted(broadcaster_user_id@) + "}"@,
        Subscription::RaidFrom { broadcaster_user_id } => "{\"from_broadcaster_user_id\":"@ + json_quoted(broadcaster_user_id@) + "}"@,
        Subscription::Subscription { broadcaster_user_id } => "{\"broadcaster_user_id\":"@ + json_quoted(broadcaster_user_id@) + "}"@,
        Subscription::StreamOnline { broadcaster_user_id } => "{\"broadcaster_user_id\":"@ + json_quoted(broadcaster_user_id@) + "}"@,
    }
}

/// The body of the request that registers `s` against the session
/// `session_id`.
pub open spec fn subscription_body_spec(s: Subscription, session_id: Seq<char>) -> Seq<char> {
    "{\"condition\":"@ + condition_json(s) + ",\"transport\":{\"method\":\"websocket\",\"session_id\":"@
        + json_quoted(session_id) + "},\"type\":"@ + json_quoted(subscription_event_type(s)) + ",\"version\":\"1\"}"@
}

fn append(s: &mut String, t: &str)
    ensures
        final(s)@ == old(s)@ + t@,
{
    s.append(t);
}

/// The body of the request that registers `sub` against the session
/// `session_id`: see `subscription_body_spec`.
pub fn subscription_body(sub: &Subscription, session_id: &str) -> (r: String)
    ensures
        r@ == subscription_body_spec(*sub, session_id@),
{
    let mut r = String::from_str("{\"condition\":");
    match sub {
        Subscription::ChannelPointRedeem { broadcaster_user_id, reward_id } => {
            append(&mut r, "{\"broadcaster_user_id\":");
            append(&mut r, json_string(broadcaster_user_id.as_str()).as_str());
            append(&mut r, ",\"reward_id\":");
            match reward_id {
                Some(x) => append(&mut r, json_string(x.as_str()).as_str()),
                None => append(&mut r, "null"),
            }
            append(&mut r, "}");
        },
        Subscription::RaidTo { broadcaster_user_id } => {
            append(&mut r, "{\"to_broadcaster_user_id\":");
            append(&mut r, json_string(broadcaster_user_id.as_str()).as_str());
            append(&mut r, "}");
        },
        Subscription::RaidFrom { broadcaster_user_id } => {
            append(&mut r, "{\"from_broadcaster_user_id\":");
            append(&mut r, json_string(broadcaster_user_id.as_str()).as_str());
            append(&mut r, "}");
        },
        Subscription::Subscription { broadcaster_user_id } => {
            append(&mut r, "{\"broadcaster_user_id\":");
            append(&mut r, json_string(broadcaster_user_id.as_str()).as_str());
            append(&mut r, "}");
        },
        Subscription::StreamOnline { broadcaster_user_id } => {
            append(&mut r, "{\"broadcaster_user_id\":");
            append(&mut r, json_string(broadcaster_user_id.as_str()).as_str());
            append(&mut r, "}");
        },
    }
    append(&mut r, ",\"transport\":{\"method\":\"websocket\",\"session_id\":");
    append(&mut r, json_string(session_id).as_str());
    append(&mut r, "},\"type\":");
    append(&mut r, json_string(sub.event_type()).as_str());
    append(&mut r, ",\"version\":\"1\"}");
    proof {
        assert(r@ =~= subscription_body_spec(*sub, session_id@));
    }
    r
}

/// The bodies of the requests that register each subscription, in order,
/// against the session `session_id`.
pub fn subscription_bodies(subs: &Vec<Subscription>, session_id: &str) -> (r: Vec<String>)
    ensures
        r@.len() == subs@.len(),
        forall|i: int| 0 <= i < subs@.len() ==> #[trigger] r@[i]@ == subscription_body_spec(subs@[i], session_id@),
{
    let mut r: Vec<String> = Vec::new();
    let mut i: usize = 0;
    while i < subs.len()
        invariant
            i <= subs@.len(),
            r@.len() == i,
            forall|j: int| 0 <= j < i ==> #[trigger] r@[j]@ == subscription_body_spec(subs@[j], session_id@),
        decreases subs@.len() - i,
    {
        r.push(subscription_body(&subs[i], session_id));
        i = i + 1;
    }
    r
}

/// What a text frame holds, as far as the session reads it.
pub struct Envelope {
    /// `metadata.message_type`, when the frame has a well-formed metadata block.
    pub message_type: Option<String>,
    /// `payload.session.id`, when the frame has a well-formed session block.
    pub session_id: Option<String>,
}

/// One frame read from the event-stream socket.
pub enum EventFrame {
    /// A text frame: its envelope, `None` when it is not JSON, and its text.
    Text { envelope: Option<Envelope>, text: String },
    Ping,
    Close,
    Other,
}

/// Where the session stands.
#[derive(PartialEq, Eq, Structural, Clone, Copy)]
pub enum Phase {
    /// Waiting for the welcome envelope of a fresh socket.
    Welcome,
    /// Dispatching notifications.
    Running,
    /// The server closed the stream.
    Closed,
}

/// Why the session failed.
#[derive(PartialEq, Eq, Structural, Clone, Copy)]
pub enum EventsubFailure {
    /// The first text frame was not a welcome envelope.
    WelcomeInvalid,
    /// The socket ended or closed before a welcome envelope.
    WelcomeIncomplete,
    /// A text frame was not JSON.
    ReceiveInvalid,
}

/// What the caller does next.
pub enum SupervisorAction {
    /// Read on.
    Continue,
    /// Answer the ping, then read on.
    Pong,
    /// Register each of these subscriptions against this session id, then
    /// read on.
    Subscribe { session_id: String, subscriptions: Vec<Subscription> },
    /// Close the socket, open a new one, and feed its frames from the
    /// welcome phase on.
    Reconnect,
    /// Hand this payload to the subscribers.
    Dispatch(String),
    /// The stream is over.
    Stop,
    Fail(EventsubFailure),
}

pub ghost struct SupervisorModel {
    pub phase: Phase,
    pub session_id: Seq<char>,
    pub subscriptions: Seq<Subscription>,
}

pub ghost enum FrameModel {
    Text { envelope: Option<(Option<Seq<char>>, Option<Seq<char>>)>, text: Seq<char> },
    Ping,
    Close,
    Other,
}

pub ghost enum ActionModel {
    Continue,
    Pong,
    Subscribe { session_id: Seq<char>, subscriptions: Seq<Subscription> },
    Reconnect,
    Dispatch(Seq<char>),
    Stop,
    Fail(EventsubFailure),
}

pub open spec fn opt_view(o: Option<String>) -> Option<Seq<char>> {
    match o {
        Some(s) => Some(s@),
        None => None,
    }
}

impl View for EventFrame {
    type V = FrameModel;

    open spec fn view(&self) -> FrameModel {
        match self {
            EventFrame::Text { envelope, text } => FrameModel::Text {
                envelope: match envelope {
                    Some(e) => Some((opt_view(e.message_type), opt_view(e.session_id))),
                    None => None,
                },
                text: text@,
            },
            EventFrame::Ping => FrameModel::Ping,
            EventFrame::Close => FrameModel::Close,
            EventFrame::Other => FrameModel::Other,
        }
    }
}

impl View for SupervisorAction {
    type V = ActionModel;

    open spec fn view(&self) -> ActionModel {
        match self {
            SupervisorAction::Continue => ActionModel::Continue,
            SupervisorAction::Pong => ActionModel::Pong,
            SupervisorAction::Subscribe { session_id, subscriptions } => ActionModel::Subscribe {
                session_id: session_id@,
                subscriptions: subscriptions@,
            },
            SupervisorAction::Reconnect => ActionModel::Reconnect,
            SupervisorAction::Dispatch(t) => ActionModel::Dispatch(t@),
            SupervisorAction::Stop => ActionModel::Stop,
            SupervisorAction::Fail(f) => ActionModel::Fail(*f),
        }
    }
}

pub open spec fn reconnect_type() -> Seq<char> {
    "session_reconnect"@
}

pub open spec fn keepalive_type() -> Seq<char> {
    "session_keepalive"@
}

/// One step of the session. In the welcome phase the first text frame must
/// be a welcome envelope, whose session id the subscriptions are registered
/// against; pings are answered; anything else ends the session. Once running,
/// a reconnect envelope sends the session back to the welcome phase on a new
/// socket, keepalives are dropped, and every other JSON envelope is
/// dispatched as it is.
pub open spec fn step_spec(m: SupervisorModel, f: FrameModel) -> (SupervisorModel, ActionModel) {
    match m.phase {
        Phase::Welcome => match f {
            FrameModel::Text { envelope, text } => match envelope {
                Some((Some(_), Some(id))) => (
                    SupervisorModel { phase: Phase::Running, session_id: id, subscriptions: m.subscriptions },
                    ActionModel::Subscribe { session_id: id, subscriptions: m.subscriptions },
                ),
                _ => (m, ActionModel::Fail(EventsubFailure::WelcomeInvalid)),
            },
            FrameModel::Ping => (m, ActionModel::Pong),
            _ => (m, ActionModel::Fail(EventsubFailure::WelcomeIncomplete)),
        },
        Phase::Running => match f {
            FrameModel::Text { envelope, text } => match envelope {
                None => (m, ActionModel::Fail(EventsubFailure::ReceiveInvalid)),
                Some((ty, session)) => if ty == Some(reconnect_type()) && session is Some {
                    (SupervisorModel { phase: Phase::Welcome, ..m }, ActionModel::Reconnect)
                } else if ty == Some(keepalive_type()) {
                    (m, ActionModel::Continue)
                } else {
                    (m, ActionModel::Dispatch(text))
                },
            },
            FrameModel::Ping => (m, ActionModel::Pong),
            FrameModel::Close => (SupervisorModel { phase: Phase::Closed, ..m }, ActionModel::Stop),
            FrameModel::Other => (m, ActionModel::Continue),
        },
        Phase::Closed => (m, ActionModel::Stop),
    }
}

/// The session's decisions, from the first welcome on.
pub struct ReconnectSupervisor {
    phase: Phase,
    session_id: String,
    subscriptions: Vec<Subscription>,
}

impl View for ReconnectSupervisor {
    type V = SupervisorModel;

    closed spec fn view(&self) -> SupervisorModel {
        SupervisorModel {
            phase: self.phase,
            session_id: self.session_id@,
            subscriptions: self.subscriptions@,
        }
    }
}

fn is_type(t: &Option<String>, name: &str) -> (r: bool)
    ensures
        r == (opt_view(*t) == Some(name@)),
{
    match t {
        Some(s) => str_eq(s.as_str(), name),
        None => false,
    }
}

impl ReconnectSupervisor {
    /// A session about to read the welcome envelope of its first socket,
    /// holding the subscriptions to register after every welcome.
    pub fn new(subscriptions: Vec<Subscription>) -> (r: ReconnectSupervisor)
        ensures
            r@ == (SupervisorModel {
                phase: Phase::Welcome,
                session_id: Seq::empty(),
                subscriptions: subscriptions@,
            }),
    {
        ReconnectSupervisor { phase: Phase::Welcome, session_id: String::new(), subscriptions }
    }

    pub fn phase(&self) -> (r: Phase)
        ensures
            r == self@.phase,
    {
        self.phase
    }

    /// The id of the current session; empty before the first welcome.
    pub fn session_id(&self) -> (r: &str)
        ensures
            r@ == self@.session_id,
    {
        self.session_id.as_str()
    }

    /// Takes in one frame: see `step_spec`.
    pub fn step(&mut self, frame: EventFrame) -> (r: SupervisorAction)
        ensures
            (final(self)@, r@) == step_spec(old(self)@, frame@),
    {
        match self.phase {
            Phase::Welcome => match frame {
                EventFrame::Text { envelope, text } => match envelope {
                    Some(Envelope { message_type: Some(_), session_id: Some(id) }) => {
                        self.session_id = id.clone();
                        self.phase = Phase::Running;
                        SupervisorAction::Subscribe {
                            session_id: id,
                            subscriptions: clone_subscriptions(&self.subscriptions),
                        }
                    },
                    _ => SupervisorAction::Fail(EventsubFailure::WelcomeInvalid),
                },
                EventFrame::Ping => SupervisorAction::Pong,
                _ => SupervisorAction::Fail(EventsubFailure::WelcomeIncomplete),
            },
            Phase::Running => match frame {
                EventFrame::Text { envelope, text } => match envelope {
                    None => SupervisorAction::Fail(EventsubFailure::ReceiveInvalid),
                    Some(e) => {
                        if is_type(&e.message_type, "session_reconnect") && e.session_id.is_some() {
                            self.phase = Phase::Welcome;
                            SupervisorAction::Reconnect
                        } else if is_type(&e.message_type, "session_keepalive") {
                            SupervisorAction::Continue
                        } else {
                            SupervisorAction::Dispatch(text)
                        }
                    },
                },
                EventFrame::Ping => SupervisorAction::Pong,
                EventFrame::Close => {
                    self.phase = Phase::Closed;
                    SupervisorAction::Stop
                },
                EventFrame::Other => SupervisorAction::Continue,
            },
            Phase::Closed => SupervisorAction::Stop,
        }
    }

    /// The socket's stream ended: before a welcome that is a failure,
    /// afterwards the end of the session.
    pub fn end_of_stream(&self) -> (r: SupervisorAction)
        ensures
            self@.phase == Phase::Welcome ==> r@ == ActionModel::Fail(EventsubFailure::WelcomeIncomplete),
            self@.phase != Phase::Welcome ==> r@ == ActionModel::Stop,
    {
        match self.phase {
            Phase::Welcome => SupervisorAction::Fail(EventsubFailure::WelcomeIncomplete),
            _ => SupervisorAction::Stop,
        }
    }
}

/// After a reconnect envelope and the welcome envelope of the new socket, the
/// same subscriptions are registered again, in the same order, against the
/// new welcome's session id and not the old one.
pub proof fn lemma_reconnect_resubscribes(
    m: SupervisorModel,
    reconnect_session: Seq<char>,
    reconnect_text: Seq<char>,
    welcome_type: Seq<char>,
    new_id: Seq<char>,
    welcome_text: Seq<char>,
)
    requires
        m.phase == Phase::Running,
    ensures
        ({
            let reconnect = FrameModel::Text {
                envelope: Some((Some(reconnect_type()), Some(reconnect_session))),
                text: reconnect_text,
            };
            let welcome = FrameModel::Text {
                envelope: Some((Some(welcome_type), Some(new_id))),
                text: welcome_text,
            };
            let (m1, a1) = step_spec(m, reconnect);
            let (m2, a2) = step_spec(m1, welcome);
            &&& a1 == ActionModel::Reconnect
            &&& m1.phase == Phase::Welcome
            &&& a2 == ActionModel::Subscribe { session_id: new_id, subscriptions: m.subscriptions }
            &&& m2 == SupervisorModel { phase: Phase::Running, session_id: new_id, subscriptions: m.subscriptions }
        }),
{
}

} // verus!
