use eyebot::dispatch::Dispatcher;
use eyebot::eventsub::{
    EventFrame, EventsubFailure, Envelope, Phase, ReconnectSupervisor, Subscription, SupervisorAction,
};
use eyebot::handshake::{
    join_input, login_input, run, HandshakeAccumulator, HandshakeError, HandshakeInput, HandshakeStep,
    JOIN_ACKS, LOGIN_ACKS,
};
use eyebot::line::ChatLine;

fn login_stream() -> Vec<ChatLine> {
    vec![
        ChatLine::Reply(376),
        ChatLine::Ping,
        ChatLine::Reply(1),
        ChatLine::Reply(2),
        ChatLine::Pong,
        ChatLine::Reply(3),
        ChatLine::Reply(4),
        ChatLine::Ping,
        ChatLine::Reply(375),
        ChatLine::Reply(372),
        ChatLine::Raw { command: String::from("GLOBALUSERSTATE"), tags: vec![] },
        ChatLine::CapAck,
        ChatLine::Reply(1),
    ]
}

#[test]
fn login_completes_in_any_order_with_pings() {
    let inputs: Vec<HandshakeInput> = login_stream().into_iter().map(login_input).collect();
    assert!(matches!(run(LOGIN_ACKS, inputs), Ok(12)));
}

#[test]
fn login_missing_ack_is_incomplete() {
    let mut lines = login_stream();
    lines.retain(|l| !matches!(l, ChatLine::CapAck));
    let inputs: Vec<HandshakeInput> = lines.into_iter().map(login_input).collect();
    assert!(matches!(run(LOGIN_ACKS, inputs), Err(HandshakeError::Incomplete)));
}

#[test]
fn login_rejection_fails_with_its_text() {
    let mut lines = login_stream();
    lines.insert(3, ChatLine::Notice(String::from("Login authentication failed")));
    let inputs: Vec<HandshakeInput> = lines.into_iter().map(login_input).collect();
    assert!(matches!(run(LOGIN_ACKS, inputs), Err(HandshakeError::Rejected(t)) if t == "Login authentication failed"));
}

#[test]
fn login_unknown_line_is_unrecognized() {
    let inputs = vec![login_input(ChatLine::Reply(1)), login_input(ChatLine::Reply(999))];
    assert!(matches!(run(LOGIN_ACKS, inputs), Err(HandshakeError::Unrecognized)));
}

#[test]
fn join_completes() {
    let lines = vec![
        ChatLine::Join(Some(String::from("bot"))),
        ChatLine::Reply(353),
        ChatLine::Ping,
        ChatLine::Reply(366),
        ChatLine::Raw { command: String::from("ROOMSTATE"), tags: vec![] },
        ChatLine::Raw { command: String::from("USERSTATE"), tags: vec![] },
    ];
    let inputs: Vec<HandshakeInput> = lines.into_iter().map(join_input).collect();
    assert!(matches!(run(JOIN_ACKS, inputs), Ok(6)));
}

#[test]
fn accumulator_steps() {
    let mut acc = HandshakeAccumulator::new(2);
    assert!(matches!(acc.step(HandshakeInput::Keepalive), HandshakeStep::Answer));
    assert!(matches!(acc.step(HandshakeInput::Ack(1)), HandshakeStep::Continue));
    assert!(!acc.is_complete());
    assert!(matches!(acc.step(HandshakeInput::Ack(0)), HandshakeStep::Complete));
    assert!(acc.is_complete());
    assert!(matches!(acc.finish(), HandshakeError::Incomplete));
}

#[test]
fn late_subscriber_sees_only_newer_values() {
    let mut d = Dispatcher::new(0u32);
    d.publish(1);
    d.publish(2);
    let mut c = d.subscribe();
    assert!(d.next(&mut c).is_none());
    d.publish(3);
    d.publish(4);
    d.publish(5);
    assert_eq!(d.next(&mut c), Some(&5));
    assert!(d.next(&mut c).is_none());
    assert_eq!(d.published_count(), 5);
}

#[test]
fn two_subscribers_are_independent() {
    let mut d = Dispatcher::new(String::new());
    let mut a = d.subscribe();
    d.publish(String::from("x"));
    let mut b = d.subscribe();
    assert_eq!(d.next(&mut a).map(|s| s.as_str()), Some("x"));
    assert!(d.next(&mut b).is_none());
    d.publish(String::from("y"));
    assert_eq!(d.next(&mut b).map(|s| s.as_str()), Some("y"));
}

fn subs() -> Vec<Subscription> {
    vec![
        Subscription::ChannelPointRedeem { broadcaster_user_id: String::from("42"), reward_id: None },
        Subscription::RaidTo { broadcaster_user_id: String::from("42") },
    ]
}

fn text(ty: Option<&str>, session: Option<&str>, raw: &str) -> EventFrame {
    EventFrame::Text {
        envelope: Some(Envelope {
            message_type: ty.map(String::from),
            session_id: session.map(String::from),
        }),
        text: String::from(raw),
    }
}

fn subscribed(a: SupervisorAction) -> (String, Vec<Subscription>) {
    match a {
        SupervisorAction::Subscribe { session_id, subscriptions } => (session_id, subscriptions),
        _ => panic!("expected a subscribe action"),
    }
}

fn same_subs(a: &[Subscription], b: &[Subscription]) -> bool {
    a.len() == b.len()
        && a.iter().zip(b).all(|(x, y)| match (x, y) {
            (
                Subscription::ChannelPointRedeem { broadcaster_user_id: p, reward_id: q },
                Subscription::ChannelPointRedeem { broadcaster_user_id: r, reward_id: s },
            ) => p == r && q == s,
            (Subscription::RaidTo { broadcaster_user_id: p }, Subscription::RaidTo { broadcaster_user_id: r }) => p == r,
            _ => false,
        })
}

#[test]
fn reconnect_resubscribes_with_new_session() {
    let mut s = ReconnectSupervisor::new(subs());
    assert!(matches!(s.step(EventFrame::Ping), SupervisorAction::Pong));
    let (id, first) = subscribed(s.step(text(Some("session_welcome"), Some("old-id"), "{}")));
    assert_eq!(id, "old-id");
    assert!(same_subs(&first, &subs()));
    assert!(matches!(s.step(text(Some("session_keepalive"), None, "{}")), SupervisorAction::Continue));
    assert!(matches!(s.step(text(Some("notification"), None, "{\"n\":1}")), SupervisorAction::Dispatch(t) if t == "{\"n\":1}"));
    assert!(matches!(s.step(text(Some("session_reconnect"), Some("old-id"), "{}")), SupervisorAction::Reconnect));
    assert!(s.phase() == Phase::Welcome);
    let (id, again) = subscribed(s.step(text(Some("session_welcome"), Some("new-id"), "{}")));
    assert_eq!(id, "new-id");
    assert_eq!(s.session_id(), "new-id");
    assert!(same_subs(&again, &subs()));
}

#[test]
fn welcome_phase_failures() {
    let mut s = ReconnectSupervisor::new(subs());
    assert!(matches!(s.step(text(Some("notification"), None, "{}")), SupervisorAction::Fail(EventsubFailure::WelcomeInvalid)));
    assert!(matches!(s.step(EventFrame::Close), SupervisorAction::Fail(EventsubFailure::WelcomeIncomplete)));
    assert!(matches!(s.end_of_stream(), SupervisorAction::Fail(EventsubFailure::WelcomeIncomplete)));
}

#[test]
fn running_phase_invalid_and_close() {
    let mut s = ReconnectSupervisor::new(vec![]);
    subscribed(s.step(text(Some("session_welcome"), Some("id"), "{}")));
    let bad = EventFrame::Text { envelope: None, text: String::from("not json") };
    assert!(matches!(s.step(bad), SupervisorAction::Fail(EventsubFailure::ReceiveInvalid)));
    assert!(matches!(s.step(EventFrame::Close), SupervisorAction::Stop));
    assert!(s.phase() == Phase::Closed);
    assert!(matches!(s.end_of_stream(), SupervisorAction::Stop));
}

#[test]
fn subscription_event_types() {
    assert_eq!(subs()[0].event_type(), "channel.channel_points_custom_reward_redemption.add");
    assert_eq!(Subscription::StreamOnline { broadcaster_user_id: String::new() }.event_type(), "stream.online");
}

#[test]
fn login_completes_whatever_follows() {
    let mut lines = login_stream();
    lines.truncate(12);
    lines.push(ChatLine::Notice(String::from("late")));
    lines.push(ChatLine::Other);
    let inputs: Vec<HandshakeInput> = lines.into_iter().map(login_input).collect();
    assert!(matches!(run(LOGIN_ACKS, inputs), Ok(12)));
}
