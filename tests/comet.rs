use eyebot::random::token_from_fill;
use eyebot::comet::{create_state, Correlator, MessageTag, Resolution, Response, ResponseData, SendError};
use eyebot::connection::{
    inbound_action, outbound_after_write, ping_after_write, pong_after_write, InboundAction,
    InboundEvent, WriteOutcome,
};

fn tag(s: &str) -> MessageTag {
    MessageTag::from_value(String::from(s))
}

fn reply(state: &str, t: &str, data: ResponseData) -> Response {
    Response { state: String::from(state), tag: tag(t), data }
}

fn tags_of(rs: &[Resolution]) -> Vec<String> {
    rs.iter().map(|r| String::from(r.tag.as_str())).collect()
}

#[test]
fn send_without_client_fails() {
    let mut c = Correlator::new();
    assert!(!c.has_client());
    assert!(matches!(c.begin_send(tag("t1")), Err(SendError::NoClient)));
}

#[test]
fn reply_reaches_only_its_own_caller() {
    let mut c = Correlator::new();
    assert!(c.attach(String::from("s1")).is_empty());
    let o1 = c.begin_send(tag("t1")).ok().unwrap();
    let o2 = c.begin_send(tag("t2")).ok().unwrap();
    assert_eq!(o1.state, "s1");
    assert_eq!(o1.tag.as_str(), "t1");
    assert_eq!(o2.tag.as_str(), "t2");
    let rs = c.deliver(reply("s1", "t2", ResponseData::Data { payload: String::from("two") }));
    assert_eq!(tags_of(&rs), vec![String::from("t2")]);
    assert!(matches!(&rs[0].data, Some(ResponseData::Data { payload }) if payload == "two"));
    let rs = c.deliver(reply("s1", "t1", ResponseData::Success));
    assert_eq!(tags_of(&rs), vec![String::from("t1")]);
    assert!(matches!(rs[0].data, Some(ResponseData::Success)));
    // each request is answered once
    assert!(c.deliver(reply("s1", "t1", ResponseData::Success)).is_empty());
}

#[test]
fn supersession_ends_every_pending_request() {
    let mut c = Correlator::new();
    c.attach(String::from("old"));
    for t in ["a", "b", "c"] {
        assert!(c.begin_send(tag(t)).is_ok());
    }
    let rs = c.attach(String::from("new"));
    assert_eq!(tags_of(&rs), vec![String::from("a"), String::from("b"), String::from("c")]);
    assert!(rs.iter().all(|r| r.data.is_none()));
    // a late reply under the old token answers nothing
    assert!(c.deliver(reply("old", "a", ResponseData::Success)).is_empty());
}

#[test]
fn superseded_send_resolves_to_none_and_new_send_succeeds() {
    let mut c = Correlator::new();
    c.attach(String::from("stateA"));
    let out = c.begin_send(tag("t1")).ok().unwrap();
    assert_eq!(out.state, "stateA");
    let flushed = c.attach(String::from("stateB"));
    assert_eq!(flushed.len(), 1);
    assert_eq!(flushed[0].tag.as_str(), "t1");
    assert!(flushed[0].data.is_none());
    let out = c.begin_send(tag("t2")).ok().unwrap();
    assert_eq!(out.state, "stateB");
    let rs = c.deliver(reply("stateB", "t2", ResponseData::Data { payload: String::from("[\"audio\"]") }));
    assert_eq!(rs.len(), 1);
    assert!(matches!(&rs[0].data, Some(ResponseData::Data { payload }) if payload == "[\"audio\"]"));
}

#[test]
fn duplicate_and_close_tags_are_refused() {
    let mut c = Correlator::new();
    c.attach(String::from("s"));
    assert!(c.begin_send(tag("x")).is_ok());
    assert!(matches!(c.begin_send(tag("x")), Err(SendError::DuplicateTag)));
    assert!(matches!(c.begin_send(MessageTag::close()), Err(SendError::ReservedTag)));
}

#[test]
fn close_tag_on_the_stream_ends_waiters_with_none() {
    let mut c = Correlator::new();
    c.attach(String::from("s"));
    c.begin_send(tag("x")).ok().unwrap();
    c.begin_send(tag("y")).ok().unwrap();
    let close = Response { state: String::from("s"), tag: MessageTag::close(), data: ResponseData::Success };
    let rs = c.deliver(close);
    assert_eq!(tags_of(&rs), vec![String::from("x"), String::from("y")]);
    assert!(rs.iter().all(|r| r.data.is_none()));
}

#[test]
fn detach_ends_waiters_and_client() {
    let mut c = Correlator::new();
    c.attach(String::from("s"));
    c.begin_send(tag("x")).ok().unwrap();
    let rs = c.detach();
    assert_eq!(rs.len(), 1);
    assert!(!c.has_client());
    assert!(c.current_state().is_none());
}

#[test]
fn unmatched_reply_answers_nothing() {
    let mut c = Correlator::new();
    c.attach(String::from("s"));
    c.begin_send(tag("x")).ok().unwrap();
    assert!(c.deliver(reply("s", "zzz", ResponseData::Success)).is_empty());
    assert_eq!(c.detach().len(), 1);
}

#[test]
fn message_tag_basics() {
    let t = tag("abc");
    assert!(!t.is_close());
    assert_eq!(t.clone().as_str(), "abc");
    assert!(MessageTag::close().is_close());
    assert!(t.same_request(&tag("abc")));
    assert!(!t.same_request(&MessageTag::close()));
}

#[test]
fn fresh_tokens_are_hexadecimal() {
    let rng = ring::rand::SystemRandom::new();
    let s = create_state(&rng).unwrap();
    assert!(s.len() >= 32 && s.len() <= 64);
    assert!(s.chars().all(|c| c.is_ascii_hexdigit() && !c.is_ascii_uppercase()));
    let t = MessageTag::new(&rng).unwrap();
    assert!(!t.is_close());
    assert!(t.as_str().len() >= 16 && t.as_str().len() <= 32);
}

#[test]
fn inbound_reply_under_other_token_closes() {
    let r = inbound_action("good", InboundEvent::Reply(reply("bad", "t", ResponseData::Success)));
    assert!(matches!(r, InboundAction::CloseProtocol(reason) if reason == "Invalid state"));
    let r = inbound_action("good", InboundEvent::Reply(reply("good", "t", ResponseData::Success)));
    assert!(matches!(r, InboundAction::Forward(_)));
}

#[test]
fn inbound_other_events() {
    let r = inbound_action("s", InboundEvent::Malformed(String::from("eof")));
    assert!(matches!(r, InboundAction::CloseProtocol(reason) if reason == "Malformed response: eof"));
    assert!(matches!(inbound_action("s", InboundEvent::Ping(vec![1, 2])), InboundAction::Pong(d) if d == vec![1, 2]));
    assert!(matches!(inbound_action("s", InboundEvent::Close), InboundAction::Shutdown));
    assert!(matches!(
        inbound_action("s", InboundEvent::ReadError { closed: true, message: String::from("x") }),
        InboundAction::Shutdown
    ));
    assert!(matches!(
        inbound_action("s", InboundEvent::ReadError { closed: false, message: String::from("x") }),
        InboundAction::ReportAndShutdown(m) if m == "x"
    ));
    assert!(matches!(inbound_action("s", InboundEvent::End), InboundAction::Shutdown));
    assert!(matches!(inbound_action("s", InboundEvent::Other), InboundAction::Ignore));
}

#[test]
fn write_outcomes() {
    let a = outbound_after_write(WriteOutcome::Failed(String::from("e")));
    assert!(a.report.as_deref() == Some("e") && !a.stop && !a.signal_shutdown);
    let a = outbound_after_write(WriteOutcome::Closed);
    assert!(a.report.is_none() && a.stop);
    let a = ping_after_write(WriteOutcome::Closed);
    assert!(a.signal_shutdown && a.stop);
    let a = ping_after_write(WriteOutcome::Failed(String::from("e")));
    assert!(a.report.as_deref() == Some("e") && a.stop && a.signal_shutdown);
    let a = pong_after_write(WriteOutcome::Written);
    assert!(a.report.is_none() && !a.stop);
    let a = pong_after_write(WriteOutcome::Failed(String::from("e")));
    assert!(a.report.is_some() && a.stop);
}

#[test]
fn short_states_and_colors() {
    assert_eq!(eyebot::comet::short_state("abcdef"), "abcd..");
    assert_eq!(eyebot::comet::short_state("ab"), "ab..");
    assert_eq!(eyebot::random::color_from_bytes(&vec![0xAB, 0x05, 0xFF]), "#AB05FF");
    let rng = ring::rand::SystemRandom::new();
    let c = eyebot::random::random_chatter_color(&rng).unwrap();
    assert_eq!(c.len(), 7);
    assert!(c.starts_with('#'));
}

#[test]
fn detach_only_the_current_connection() {
    let mut c = Correlator::new();
    c.attach(String::from("old"));
    c.attach(String::from("new"));
    c.begin_send(tag("x")).ok().unwrap();
    assert!(c.detach_if_current("old").is_empty());
    assert!(c.has_client());
    let rs = c.detach_if_current("new");
    assert_eq!(tags_of(&rs), vec![String::from("x")]);
    assert!(!c.has_client());
}

#[test]
fn fresh_sends_get_distinct_tags() {
    let rng = ring::rand::SystemRandom::new();
    let mut c = Correlator::new();
    assert!(matches!(c.begin_send_fresh(&rng), Err(SendError::NoClient)));
    c.attach(String::from("s"));
    let a = c.begin_send_fresh(&rng).ok().unwrap();
    let b = c.begin_send_fresh(&rng).ok().unwrap();
    assert_eq!(a.state, "s");
    assert_ne!(a.tag.as_str(), b.tag.as_str());
    let rs = c.deliver(reply("s", b.tag.as_str(), ResponseData::Success));
    assert_eq!(tags_of(&rs), vec![String::from(b.tag.as_str())]);
}

#[test]
fn tokens_follow_the_draw() {
    assert_eq!(token_from_fill(true, &vec![1, 171]).as_deref(), Some("1ab"));
    assert!(token_from_fill(false, &vec![1, 171]).is_none());
}

#[test]
fn fresh_send_without_client_changes_nothing() {
    let rng = ring::rand::SystemRandom::new();
    let mut c = Correlator::new();
    assert!(matches!(c.begin_send_fresh(&rng), Err(SendError::NoClient)));
    assert!(!c.has_client());
    c.attach(String::from("s"));
    assert!(!matches!(c.begin_send_fresh(&rng), Err(SendError::NoClient)));
}
