use united_chat::twitch::{
    construct_emote_url, normalize_twitch_message, parse_badge_pairs, parse_emotes,
    parse_twitch_message, parse_twitch_tags, process_twitch_line, render_text, BadgeSet,
    BadgeVersion,
};
use united_chat::message::Platform;

fn pair(a: &str, b: &str) -> (String, String) {
    (a.to_string(), b.to_string())
}

#[test]
fn tags_parse_in_order_of_appearance() {
    let tags = parse_twitch_tags("badges=subscriber/12;color=#FF0000;display-name=Foo");
    assert_eq!(
        tags,
        vec![
            pair("badges", "subscriber/12"),
            pair("color", "#FF0000"),
            pair("display-name", "Foo"),
        ]
    );
}

#[test]
fn tag_value_keeps_everything_after_first_equals() {
    let tags = parse_twitch_tags("a=b=c;flag;=x");
    assert_eq!(tags, vec![pair("a", "b=c"), pair("flag", ""), pair("", "x")]);
}

#[test]
fn empty_tag_block_is_one_empty_pair() {
    assert_eq!(parse_twitch_tags(""), vec![pair("", "")]);
}

#[test]
fn emote_url_is_keyed_by_id() {
    assert_eq!(
        construct_emote_url("25"),
        "https://static-cdn.jtvnw.net/emoticons/v2/25/default/dark/1.0"
    );
}

#[test]
fn emote_substitution_for_kappa() {
    let emotes = parse_emotes("Hello Kappa!", "25:6-10");
    assert_eq!(emotes.len(), 1);
    assert_eq!(emotes[0].0, "Kappa");
    assert!(emotes[0].1.contains("25"));
    let rendered = render_text("Hello Kappa!", &emotes);
    let url = construct_emote_url("25");
    assert_eq!(
        rendered,
        format!("Hello <img id=\"Kappa\" src=\"{}\" alt=\"Kappa\" />!", url)
    );
}

#[test]
fn emote_replaced_at_every_occurrence() {
    let emotes = parse_emotes("Kappa Kappa", "25:0-4,6-10");
    assert_eq!(emotes.len(), 1);
    let rendered = render_text("Kappa Kappa", &emotes);
    assert_eq!(rendered.matches("<img id=\"Kappa\"").count(), 2);
}

#[test]
fn emote_offsets_count_utf16_units() {
    // U+1F600 takes two UTF-16 code units, so "Kappa" starts at unit 3.
    let text = "\u{1F600} Kappa";
    let emotes = parse_emotes(text, "25:3-7");
    assert_eq!(emotes, vec![pair("Kappa", &construct_emote_url("25"))]);
}

#[test]
fn emote_range_inside_surrogate_pair_is_skipped() {
    let emotes = parse_emotes("\u{1F600}ab", "25:1-2");
    assert!(emotes.is_empty());
}

#[test]
fn malformed_or_out_of_range_emote_groups_are_skipped() {
    assert!(parse_emotes("Hello", "").is_empty());
    assert!(parse_emotes("Hello", "25").is_empty());
    assert!(parse_emotes("Hello", "25:x-3").is_empty());
    assert!(parse_emotes("Hello", "25:3-1").is_empty());
    assert!(parse_emotes("Hello", "25:2-9").is_empty());
    let some = parse_emotes("Hello", "bad/25:0-1");
    assert_eq!(some, vec![pair("He", &construct_emote_url("25"))]);
}

#[test]
fn empty_emote_tag_leaves_text_unchanged() {
    let emotes = parse_emotes("plain text", "");
    assert!(emotes.is_empty());
    assert_eq!(render_text("plain text", &emotes), "plain text");
}

#[test]
fn badge_pairs_skip_malformed_pieces() {
    let pairs = parse_badge_pairs("broadcaster/1,oops,subscriber/18");
    assert_eq!(pairs, vec![pair("broadcaster", "1"), pair("subscriber", "18")]);
}

fn catalog() -> Vec<BadgeSet> {
    vec![
        BadgeSet {
            set_id: "subscriber".to_string(),
            versions: vec![
                BadgeVersion { id: "12".to_string(), image_url: "sub12.png".to_string() },
                BadgeVersion { id: "18".to_string(), image_url: "sub18.png".to_string() },
            ],
        },
        BadgeSet {
            set_id: "broadcaster".to_string(),
            versions: vec![BadgeVersion { id: "1".to_string(), image_url: "bc1.png".to_string() }],
        },
    ]
}

#[test]
fn chat_line_splits_into_tags_user_and_text() {
    let line = "@badges=subscriber/12;color=#FF0000;display-name=Foo;emotes= foo!foo@foo.tmi.twitch.tv PRIVMSG #chan :hello there";
    let (tags, user, text) = parse_twitch_message(line).expect("a chat line");
    assert_eq!(tags, "badges=subscriber/12;color=#FF0000;display-name=Foo;emotes=");
    assert_eq!(user, "foo");
    assert_eq!(text, "hello there");
}

#[test]
fn non_chat_lines_give_nothing() {
    assert!(parse_twitch_message("PING :tmi.twitch.tv").is_none());
    assert!(parse_twitch_message(":tmi.twitch.tv 001 justinfan1234 :Welcome, GLHF!").is_none());
    assert!(process_twitch_line("PING :tmi.twitch.tv", &catalog()).is_none());
}

#[test]
fn normalized_message_resolves_badges_and_emotes() {
    let m = normalize_twitch_message(
        "badges=broadcaster/1,subscriber/12,unknown/3;color=#00FF00;display-name=Foo;emotes=25:6-10",
        "foo",
        "Hello Kappa!",
        "abc".to_string(),
        42,
        &catalog(),
    );
    assert_eq!(m.id, "abc");
    assert_eq!(m.timestamp, 42);
    assert_eq!(m.platform, Platform::Twitch);
    assert_eq!(m.author_display_name, "Foo");
    assert_eq!(m.author_color, "#00FF00");
    // catalog order: subscriber first, then broadcaster
    assert_eq!(m.author_badge_urls, vec!["sub12.png".to_string(), "bc1.png".to_string()]);
    assert_eq!(m.emotes, vec![pair("Kappa", &construct_emote_url("25"))]);
    assert!(m.rendered_text.starts_with("Hello <img id=\"Kappa\""));
    assert_eq!(m.raw_text, "Hello Kappa!");
    assert_eq!(m.raw_platform_tags.len(), 4);
}

#[test]
fn missing_optional_tags_are_defaulted() {
    let m = normalize_twitch_message("id=1", "foo", "hi", "x".to_string(), 0, &Vec::new());
    assert_eq!(m.author_display_name, "foo");
    assert_eq!(m.author_color, "");
    assert!(m.author_badge_urls.is_empty());
    assert!(m.emotes.is_empty());
    assert_eq!(m.rendered_text, "hi");
}

#[test]
fn processed_line_gets_sixteen_char_alphanumeric_id() {
    let line = "@display-name=Foo;emotes= foo!foo@foo.tmi.twitch.tv PRIVMSG #chan :hi";
    let m = process_twitch_line(line, &Vec::new()).expect("a chat line");
    assert_eq!(m.id.chars().count(), 16);
    assert!(m.id.chars().all(|c| c.is_ascii_alphanumeric()));
    assert_eq!(m.author_display_name, "Foo");
    assert_eq!(m.raw_text, "hi");
    assert!(m.timestamp > 0);
}

#[test]
fn empty_emote_name_leaves_text_unchanged() {
    let emotes = vec![pair("", "u")];
    assert_eq!(render_text("abc", &emotes), "abc");
}
