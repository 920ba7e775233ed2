use eyebot::chat::{ChatMessage, EmoteInfo};
use eyebot::chat_stream::{chat_action, ChatAction};
use eyebot::component::{Chat, ChatMetadata, Sound};
use eyebot::line::{ChatLine, LineTag};
use eyebot::twitch::{BadgeSet, TwitchBadgeUrls};
use eyebot::tags::{
    emote_tag_to_emotes, parse_badges, parse_emotes, tags, CLEARCHATTags, CLEARMSGTags, PRIVMSGTags, USERNOTICETags,
};

fn message(text: &str, emotes: Vec<EmoteInfo>, badges: Vec<(&str, &str)>, is_moderator: bool) -> ChatMessage {
    ChatMessage {
        id: String::from("m1"),
        channel: String::from("chan"),
        text: String::from(text),
        user_id: String::from("u1"),
        is_moderator,
        is_subscriber: false,
        emotes,
        display_name: String::from("User"),
        name_color: None,
        badges: badges.into_iter().map(|(a, b)| (String::from(a), String::from(b))).collect(),
    }
}

fn emote(id: &str, locations: Vec<(u16, u16)>) -> EmoteInfo {
    EmoteInfo { id: String::from(id), locations }
}

fn lt(k: &str, v: Option<&str>) -> LineTag {
    LineTag { key: String::from(k), value: v.map(String::from) }
}

#[test]
fn broadcaster_and_super() {
    let b = message("hi", vec![], vec![("subscriber", "12"), ("broadcaster", "1")], false);
    assert!(b.user_is_broadcaster());
    assert!(b.user_is_super());
    let m = message("hi", vec![], vec![("subscriber", "12")], true);
    assert!(!m.user_is_broadcaster());
    assert!(m.user_is_super());
    let u = message("hi", vec![], vec![], false);
    assert!(!u.user_is_super());
}

#[test]
fn strip_emotes_removes_emote_characters() {
    let m = message("Kappa hello Kappa", vec![emote("25", vec![(0, 4), (12, 16)])], vec![], false);
    assert_eq!(m.strip_emotes(), " hello ");
    let none = message("plain", vec![], vec![], false);
    assert_eq!(none.strip_emotes(), "plain");
}

#[test]
fn action_text_is_unwrapped() {
    let m = message("\u{1}ACTION waves\u{1}", vec![], vec![], false);
    assert_eq!(m.try_get_action().as_deref(), Some("waves"));
    assert!(message("waves", vec![], vec![], false).try_get_action().is_none());
}

fn pieces(v: &[Chat]) -> Vec<String> {
    v.iter()
        .map(|c| match c {
            Chat::Text { content } => format!("t:{content}"),
            Chat::Emote { emote } => format!("e:{emote}"),
        })
        .collect()
}

#[test]
fn chat_in_pieces() {
    let m = message("hi Kappa there LUL", vec![emote("25", vec![(3, 7)]), emote("9", vec![(15, 17)])], vec![], false);
    let (v, meta) = Chat::from_chat_message(&m);
    assert!(meta == ChatMetadata::Plain);
    assert_eq!(pieces(&v), vec!["t:hi ", "e:25", "t: there ", "e:9"]);
}

#[test]
fn action_chat_in_pieces() {
    let m = message("\u{1}ACTION Kappa\u{1}", vec![emote("25", vec![(0, 4)])], vec![], false);
    let (v, meta) = Chat::from_chat_message(&m);
    assert!(meta == ChatMetadata::Action);
    assert_eq!(pieces(&v), vec!["e:25"]);
}

fn names(v: &[Vec<Sound>]) -> Vec<Vec<String>> {
    v.iter().map(|g| g.iter().map(|s| s.name.clone()).collect()).collect()
}

#[test]
fn sound_groups() {
    let v = Sound::parse("  boom+clap hey,ho\n");
    assert_eq!(names(&v), vec![vec!["boom", "clap"], vec!["hey"], vec!["ho"]]);
    let v = Sound::parse_trimmed("a,,b");
    assert_eq!(names(&v), vec![vec!["a"], vec![""], vec!["b"]]);
}

#[test]
fn emote_tags_parse() {
    let v = parse_emotes("25:0-4,12-16/1902:6-10").unwrap();
    assert_eq!(v.len(), 2);
    assert_eq!(v[0].id, "25");
    assert_eq!(v[0].locations, vec![(0, 4), (12, 16)]);
    assert_eq!(v[1].id, "1902");
    assert_eq!(v[1].locations, vec![(6, 10)]);
    assert!(parse_emotes("").unwrap().is_empty());
    assert!(parse_emotes("25:0-4,x").is_none());
    assert!(parse_emotes("25").is_none());
    assert!(parse_emotes("25:0-70000").is_none());
    assert!(emote_tag_to_emotes(None).unwrap().is_empty());
    assert!(emote_tag_to_emotes(Some(&None)).is_none());
}

#[test]
fn badges_parse() {
    let b = parse_badges("broadcaster/1,subscriber/12").unwrap();
    assert_eq!(b, vec![(String::from("broadcaster"), String::from("1")), (String::from("subscriber"), String::from("12"))]);
    assert!(parse_badges("").unwrap().is_empty());
    assert!(parse_badges("broken").is_none());
}

fn privmsg_tags() -> Vec<LineTag> {
    vec![
        lt("badges", Some("broadcaster/1")),
        lt("color", Some("#FF0000")),
        lt("display-name", Some("Eye")),
        lt("emotes", Some("25:0-4")),
        lt("id", Some("abc")),
        lt("mod", Some("0")),
        lt("subscriber", Some("1")),
        lt("user-id", Some("77")),
        lt("bits", Some("100")),
    ]
}

#[test]
fn privmsg_tags_parse() {
    let t = PRIVMSGTags::from_tags(&privmsg_tags()).unwrap();
    assert_eq!(t.id, "abc");
    assert_eq!(t.user_id, "77");
    assert_eq!(t.display_name, "Eye");
    assert_eq!(t.bits, Some(100));
    assert!(!t.is_mod);
    assert!(t.subscriber);
    assert!(!t.vip);
    assert_eq!(t.color.as_deref(), Some("#FF0000"));
    assert_eq!(t.emotes.len(), 1);
    let mut missing = privmsg_tags();
    missing.retain(|t| t.key != "id");
    assert!(PRIVMSGTags::from_tags(&missing).is_none());
}

#[test]
fn clear_tags_parse() {
    let c = CLEARCHATTags::from_tags(&vec![lt("room-id", Some("1")), lt("ban-duration", Some("600"))]).unwrap();
    assert_eq!(c.room_id, "1");
    assert_eq!(c.ban_duration, Some(600));
    assert!(c.target_user_id.is_none());
    assert!(CLEARCHATTags::from_tags(&vec![]).is_none());
    let m = CLEARMSGTags::from_tags(&vec![lt("login", Some("x")), lt("target-msg-id", Some("y"))]).unwrap();
    assert_eq!(m.login, "x");
    assert_eq!(m.target_msg_id.as_deref(), Some("y"));
}

#[test]
fn chat_lines_become_actions() {
    let line = ChatLine::Privmsg { text: String::from("Kappa hi"), tags: privmsg_tags() };
    match chat_action("eye_motif", line) {
        ChatAction::Publish(m) => {
            assert_eq!(m.channel, "eye_motif");
            assert_eq!(m.text, "Kappa hi");
            assert_eq!(m.id, "abc");
            assert!(m.user_is_broadcaster());
            assert!(m.is_subscriber);
        },
        _ => panic!("expected a published message"),
    }
    assert!(matches!(chat_action("c", ChatLine::Ping), ChatAction::Pong));
    assert!(matches!(chat_action("c", ChatLine::Join(Some(String::from("u")))), ChatAction::Joined(u) if u == "u"));
    assert!(matches!(chat_action("c", ChatLine::Part(None)), ChatAction::Malformed));
    assert!(matches!(chat_action("c", ChatLine::Raw { command: String::from("USERSTATE"), tags: vec![] }), ChatAction::Continue));
    assert!(matches!(chat_action("c", ChatLine::Raw { command: String::from("NOPE"), tags: vec![] }), ChatAction::Unrecognized));
    assert!(matches!(chat_action("c", ChatLine::Privmsg { text: String::new(), tags: vec![] }), ChatAction::Malformed));
}

#[test]
fn user_notice_tags_parse() {
    let mut t = privmsg_tags();
    t.push(lt("msg-id", Some("raid")));
    t.push(lt("msg-param-displayName", Some("Raider")));
    t.push(lt("msg-param-viewerCount", Some("15")));
    let u = USERNOTICETags::from_tags(&t).unwrap();
    assert_eq!(u.msg_id, "raid");
    assert!(u.sub.is_none());
    let raid = u.raid.unwrap();
    assert_eq!(raid.name, "Raider");
    assert_eq!(raid.viewcount, 15);
    let mut g = privmsg_tags();
    g.push(lt("msg-id", Some("subgift")));
    g.push(lt("msg-param-months", Some("3")));
    g.push(lt("msg-param-recipient-display-name", Some("Lucky")));
    g.push(lt("msg-param-recipient-id", Some("9")));
    let u = USERNOTICETags::from_tags(&g).unwrap();
    let sub = u.sub.unwrap();
    assert_eq!(sub.months, 3);
    assert_eq!(sub.gift_target, Some((String::from("Lucky"), String::from("9"))));
    let mut bad = privmsg_tags();
    bad.push(lt("msg-id", Some("sub")));
    bad.push(lt("msg-param-cumulative-months", Some("many")));
    assert!(USERNOTICETags::from_tags(&bad).is_none());
}

#[test]
fn generic_tag_reader() {
    let t: PRIVMSGTags = tags(&privmsg_tags()).unwrap();
    assert_eq!(t.user_id, "77");
    assert!(tags::<CLEARMSGTags>(&vec![]).is_none());
}

fn urls(id: &str) -> TwitchBadgeUrls {
    TwitchBadgeUrls {
        id: String::from(id),
        image_url_1x: format!("{id}-1"),
        image_url_2x: format!("{id}-2"),
        image_url_4x: format!("{id}-4"),
    }
}

#[test]
fn badge_images_prefer_channel_sets() {
    let m = message("hi", vec![], vec![("subscriber", "12"), ("broadcaster", "1"), ("vip", "1")], false);
    let sets = vec![
        BadgeSet {
            set_id: String::from("subscriber"),
            versions: vec![TwitchBadgeUrls { image_url_1x: String::from("global"), ..urls("12") }],
        },
        BadgeSet { set_id: String::from("broadcaster"), versions: vec![urls("0"), urls("1")] },
        BadgeSet { set_id: String::from("subscriber"), versions: vec![urls("6"), urls("12")] },
    ];
    let v = m.badge_urls(&sets);
    assert_eq!(v.len(), 2);
    assert_eq!(v[0].id, "12");
    assert_eq!(v[0].image_url_1x, "12-1");
    assert_eq!(v[1].image_url_2x, "1-2");
}

#[test]
fn generic_reader_refuses_missing_tags() {
    assert!(tags::<PRIVMSGTags>(&vec![]).is_none());
    let c: CLEARCHATTags = tags(&vec![lt("room-id", Some("5"))]).unwrap();
    assert_eq!(c.room_id, "5");
}
