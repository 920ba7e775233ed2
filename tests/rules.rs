use eyebot::chat::ChatMessage;
use eyebot::eventsub::{subscription_bodies, subscription_body, Subscription};
use eyebot::auth::{oauth_redirect_link, oauth_route, param_value, parse_url_params, redirect_link, OAuthRoute};
use eyebot::command::{CommandRules, CommandSection, CommandTag, RulesError};
use eyebot::comet::ResponseData;
use eyebot::event::{SubscriptionEmote, SubscriptionMessage};
use eyebot::feature::{parse_features, Feature, FeatureNegotiator, FeatureRequest, NegotiationStep};
use eyebot::text::hex_token;

fn sections(c: &CommandRules) -> Vec<String> {
    c.body
        .iter()
        .map(|s| match s {
            CommandSection::Echo(t) => format!("echo:{t}"),
            CommandSection::ChatterName => String::from("name"),
            CommandSection::WordIndex(i) => format!("word:{i}"),
            CommandSection::Counter(n) => format!("counter:{n}"),
        })
        .collect()
}

#[test]
fn command_parse_and_words() {
    let c = CommandRules::parse("Hello %name &REPLY").ok().unwrap();
    assert_eq!(sections(&c), vec!["echo:Hello ", "echo:", "name"]);
    assert!(matches!(c.tags.as_slice(), [CommandTag::Reply]));
    assert_eq!(c.as_words_string(), "&REPLY Hello %name");
}

#[test]
fn command_variables_and_tags() {
    let c = CommandRules::parse("hit %counter=deaths! %1 &C:INC=deaths &SUPER &SUPER").ok().unwrap();
    assert_eq!(sections(&c), vec!["echo:hit ", "echo:", "counter:deaths", "echo:! ", "echo:", "word:1"]);
    assert_eq!(c.tags.len(), 2);
    assert_eq!(c.as_words_string(), "&C:INC=deaths &SUPER hit %counter=deaths! %1");
    assert!(!c.is_builtin());
    assert!(!c.is_temporary());
}

#[test]
fn command_errors() {
    assert!(matches!(CommandRules::parse("%nope"), Err(RulesError::BadVariable(v)) if v == "nope"));
    assert!(matches!(CommandRules::parse("&WHAT"), Err(RulesError::BadTag(v)) if v == "WHAT"));
    assert!(matches!(CommandRules::parse("&C:X=1"), Err(RulesError::BadTag(v)) if v == "C:X"));
    assert!(matches!(CommandRules::var_from_string("12"), Ok(CommandSection::WordIndex(12))));
    assert!(matches!(CommandRules::tag_from_string("TEMP"), Ok(CommandTag::Temporary)));
    assert!(matches!(CommandRules::tag_from_string("C:ZERO=x"), Ok(CommandTag::CountReset(n)) if n == "x"));
}

#[test]
fn builtin_commands() {
    let c = CommandRules::empty_builtin(true);
    assert!(c.is_builtin());
    assert!(c.body.is_empty());
    assert_eq!(c.tags.len(), 2);
    assert_eq!(c.as_words_string(), "&SUPER ");
    assert_eq!(CommandRules::empty_builtin(false).tags.len(), 1);
}

#[test]
fn emote_info_groups_by_id() {
    let m = SubscriptionMessage {
        text: String::from("a b c"),
        emotes: vec![
            SubscriptionEmote { begin: 0, end: 0, id: String::from("x") },
            SubscriptionEmote { begin: 2, end: 2, id: String::from("y") },
            SubscriptionEmote { begin: 4, end: 4, id: String::from("x") },
        ],
    };
    let v = m.get_emote_info();
    assert_eq!(v.len(), 2);
    assert_eq!(v[0].id, "x");
    assert_eq!(v[0].locations, vec![(0, 0), (4, 4)]);
    assert_eq!(v[1].id, "y");
    assert_eq!(v[1].locations, vec![(2, 2)]);
}

#[test]
fn negotiation_initialises_each_feature() {
    let (mut n, first) = FeatureNegotiator::start(String::from("eye_motif"));
    assert!(matches!(first, NegotiationStep::Send(FeatureRequest::Features)));
    let step = n.on_reply(Some(ResponseData::Data { payload: String::from("[\"chat\"]") }));
    assert!(matches!(step, NegotiationStep::Send(FeatureRequest::ChatSetEmotes { username }) if username == "eye_motif"));
    let step = n.on_reply(Some(ResponseData::Success));
    assert!(matches!(step, NegotiationStep::Finish(v) if v == vec![Feature::Chat]));
}

#[test]
fn negotiation_failures() {
    let (mut n, _) = FeatureNegotiator::start(String::from("s"));
    assert!(matches!(n.on_reply(None), NegotiationStep::Abandon));
    let (mut n, _) = FeatureNegotiator::start(String::from("s"));
    assert!(matches!(n.on_reply(Some(ResponseData::Data { payload: String::from("[\"x\"]") })), NegotiationStep::Fail(_)));
    let (mut n, _) = FeatureNegotiator::start(String::from("s"));
    n.on_reply(Some(ResponseData::Data { payload: String::from("[\"chat\"]") }));
    let step = n.on_reply(Some(ResponseData::Error { is_internal: false, message: String::from("no emotes") }));
    assert!(matches!(step, NegotiationStep::Fail(m) if m == "no emotes"));
    let (mut n, _) = FeatureNegotiator::start(String::from("s"));
    assert!(matches!(n.on_reply(Some(ResponseData::Data { payload: String::from("[]") })), NegotiationStep::Finish(v) if v.is_empty()));
}

#[test]
fn feature_lists_parse() {
    assert_eq!(parse_features("[\"chat\", \"chat\"]"), Some(vec![Feature::Chat]));
    assert_eq!(parse_features("[]"), Some(vec![]));
    assert_eq!(parse_features("nope"), None);
    assert_eq!(parse_features("[\"audio\"]"), None);
}

#[test]
fn url_params() {
    let p = parse_url_params("code=abc&state=xyz&code=def").unwrap();
    assert_eq!(p.len(), 3);
    assert_eq!(param_value(&p, "state").map(|s| s.as_str()), Some("xyz"));
    assert_eq!(param_value(&p, "code").map(|s| s.as_str()), Some("def"));
    assert!(param_value(&p, "error").is_none());
    assert!(parse_url_params("code").is_none());
    assert!(parse_url_params("").is_none());
}

#[test]
fn redirect_links() {
    let scopes = vec![String::from("chat:read"), String::from("chat:edit")];
    let link = redirect_link("cid", "http://localhost:3000/response", &scopes, "st");
    assert_eq!(
        link,
        "https://id.twitch.tv/oauth2/authorize?response_type=code&client_id=cid&redirect_uri=http://localhost:3000/response&state=st&scope=chat%3Aread%20chat%3Aedit"
    );
    let rng = ring::rand::SystemRandom::new();
    let (link, state) = oauth_redirect_link("cid", "u", &scopes, &rng).unwrap();
    assert!(link.contains(&format!("&state={state}&")));
}

#[test]
fn hex_tokens() {
    assert_eq!(hex_token(&vec![0, 10, 255, 16, 1]), "0aff101");
}

fn counters(v: &[(&str, i64)]) -> Vec<(String, i64)> {
    v.iter().map(|(k, x)| (String::from(*k), *x)).collect()
}

#[test]
fn counter_tags_apply_in_order() {
    let c = CommandRules::parse("deaths: %counter=deaths &C:INC=deaths &REPLY").ok().unwrap();
    let mut cs = counters(&[("wins", 3), ("deaths", 41)]);
    assert!(matches!(c.apply_tags(&mut cs), Ok(true)));
    assert_eq!(cs, counters(&[("wins", 3), ("deaths", 42)]));
    let text = c.render(&vec![], "Eye", &cs).ok().unwrap();
    assert_eq!(text, "deaths: 42");
}

#[test]
fn missing_counter_is_reported() {
    let c = CommandRules::parse("&C:ZERO=wins &C:DEC=nope").ok().unwrap();
    let mut cs = counters(&[("wins", -7)]);
    assert!(matches!(c.apply_tags(&mut cs), Err(n) if n == "nope"));
    assert_eq!(cs, counters(&[("wins", 0)]));
    let r = CommandRules::parse("%counter=gone").ok().unwrap();
    assert!(matches!(r.render(&vec![], "x", &cs), Err(n) if n == "gone"));
}

#[test]
fn render_words_and_names() {
    let c = CommandRules::parse("hi %name, %1 %2").ok().unwrap();
    assert!(c.needs_chatter_name());
    let args = vec![String::from("!cmd"), String::from("there")];
    assert_eq!(c.render(&args, "Eye", &vec![]).ok().unwrap(), "hi Eye, there2");
    let d = CommandRules::parse("%counter=x").ok().unwrap();
    assert!(!d.needs_chatter_name());
    assert_eq!(d.render(&vec![], "", &counters(&[("x", -12)])).ok().unwrap(), "-12");
}

#[test]
fn can_run_checks_super() {
    let msg = ChatMessage {
        id: String::new(),
        channel: String::new(),
        text: String::new(),
        user_id: String::new(),
        is_moderator: false,
        is_subscriber: false,
        emotes: vec![],
        display_name: String::new(),
        name_color: None,
        badges: vec![],
    };
    assert!(!CommandRules::empty_builtin(true).can_run(&msg));
    assert!(CommandRules::empty_builtin(false).can_run(&msg));
}

#[test]
fn subscription_bodies_carry_session() {
    let s = Subscription::ChannelPointRedeem { broadcaster_user_id: String::from("42"), reward_id: None };
    assert_eq!(
        subscription_body(&s, "se\"ss"),
        "{\"condition\":{\"broadcaster_user_id\":\"42\",\"reward_id\":null},\"transport\":{\"method\":\"websocket\",\"session_id\":\"se\\\"ss\"},\"type\":\"channel.channel_points_custom_reward_redemption.add\",\"version\":\"1\"}"
    );
    let r = Subscription::RaidTo { broadcaster_user_id: String::from("7") };
    let v = subscription_bodies(&vec![r], "abc");
    assert_eq!(
        v,
        vec![String::from("{\"condition\":{\"to_broadcaster_user_id\":\"7\"},\"transport\":{\"method\":\"websocket\",\"session_id\":\"abc\"},\"type\":\"channel.raid\",\"version\":\"1\"}")]
    );
}

#[test]
fn oauth_routes() {
    assert!(matches!(oauth_route("/", "/response", None), OAuthRoute::Redirect));
    assert!(matches!(oauth_route("/favicon.ico", "/response", None), OAuthRoute::Respond { code: 404, .. }));
    assert!(matches!(
        oauth_route("/response?code=abc&state=s1", "/response", Some("s1")),
        OAuthRoute::Token(code) if code == "abc"
    ));
    assert!(matches!(
        oauth_route("/response?code=abc&state=s2", "/response", Some("s1")),
        OAuthRoute::Respond { code: 403, text: "Invalid state." }
    ));
    assert!(matches!(
        oauth_route("/response?code=abc&state=s1", "/response", None),
        OAuthRoute::Respond { code: 403, .. }
    ));
    assert!(matches!(oauth_route("/response", "/response", None), OAuthRoute::Respond { code: 400, .. }));
    assert!(matches!(
        oauth_route("/response?error=access_denied&error_description=The+user+denied", "/response", None),
        OAuthRoute::Denied { error, description } if error == "access_denied" && description == "The user denied"
    ));
    assert!(matches!(
        oauth_route("/?error=e&error_description=a+b&state=s1", "/response", Some("s1")),
        OAuthRoute::Denied { description, .. } if description == "a b"
    ));
    assert!(matches!(oauth_route("/?error=e&state=s1", "/response", Some("s1")), OAuthRoute::Respond { code: 400, .. }));
}
