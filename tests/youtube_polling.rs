use united_chat::message::{Platform, UnifiedMessage};
use united_chat::poller::{truncate_batch, PollTick, PreviousMessages, YoutubePoller, MAX_PREVIOUS_MESSAGES};
use united_chat::youtube::{
    read_live_chat, video_page_url, Action, AddChatItemAction, AuthorBadge, BaseVideoProperties,
    ChatItem, ContinuationEntry, EmojiRun, LiveChatResponse, MessageRendererBase, MessageRun,
    PaidStickerRenderer, PollError, Renderer, StreamKind, TextMessageRenderer, VideoErrorKind,
};

const PAGE_HEAD: &str = r#"<html><head><title>My Stream - YouTube</title><link rel="canonical" href="https://www.youtube.com/watch?v=abc123"></head>"#;

fn page(script: &str) -> String {
    format!("{}<script>var ytInitialData = {{{}}};</script></html>", PAGE_HEAD, script)
}

#[test]
fn live_page_resolves_all_fields() {
    let html = page(r#""INNERTUBE_API_KEY":"KEY1","clientVersion":"2.20240101.00.00","continuation":"TOKEN0""#);
    let v = BaseVideoProperties::retrieve_video_info(&html).expect("a live page");
    assert_eq!(v.api_key, "KEY1");
    assert_eq!(v.client_version, "2.20240101.00.00");
    assert_eq!(v.continuation.as_deref(), Some("TOKEN0"));
    assert_eq!(v.kind, StreamKind::Live);
    assert_eq!(v.video_id, "abc123");
    assert_eq!(v.title.as_deref(), Some("My Stream - YouTube"));
    assert_eq!(v.scheduled_start_time, None);
}

#[test]
fn scheduled_page_has_no_token() {
    let html = page(r#""INNERTUBE_API_KEY": "KEY1", "clientVersion": "2.1", "scheduledStartTime": "1700000000""#);
    let v = BaseVideoProperties::retrieve_video_info(&html).expect("a scheduled page");
    assert_eq!(v.kind, StreamKind::Scheduled);
    assert_eq!(v.continuation, None);
    assert_eq!(v.scheduled_start_time.as_deref(), Some("1700000000"));
    assert_eq!(v.next_request().unwrap_err(), PollError::NotLive);
}

#[test]
fn replay_page_is_refused_with_its_id() {
    let html = page(r#""isReplay":true,"INNERTUBE_API_KEY":"KEY1","clientVersion":"2.1","continuation":"T""#);
    let e = BaseVideoProperties::retrieve_video_info(&html).unwrap_err();
    assert_eq!(e.kind, VideoErrorKind::Replay);
    assert_eq!(e.video_id, "abc123");
}

#[test]
fn missing_fields_are_reported_in_order() {
    let e = BaseVideoProperties::retrieve_video_info(&page(r#""clientVersion":"2.1""#)).unwrap_err();
    assert_eq!(e.kind, VideoErrorKind::MissingApiKey);
    let e = BaseVideoProperties::retrieve_video_info(&page(r#""INNERTUBE_API_KEY":"K","clientVersion":"2.1""#)).unwrap_err();
    assert_eq!(e.kind, VideoErrorKind::MissingContinuation);
    let e = BaseVideoProperties::retrieve_video_info(&page(r#""INNERTUBE_API_KEY":"K","continuation":"T""#)).unwrap_err();
    assert_eq!(e.kind, VideoErrorKind::MissingClientVersion);
    let e = BaseVideoProperties::retrieve_video_info(r#"{"INNERTUBE_API_KEY":"K","continuation":"T","clientVersion":"2.1"}"#).unwrap_err();
    assert_eq!(e.kind, VideoErrorKind::MissingVideoId);
    assert_eq!(e.video_id, "Unknown");
}

#[test]
fn request_targets_live_chat_endpoint() {
    let html = page(r#""INNERTUBE_API_KEY":"KEY1","clientVersion":"2.1","continuation":"TOKEN0""#);
    let v = BaseVideoProperties::retrieve_video_info(&html).unwrap();
    let q = v.next_request().unwrap();
    assert_eq!(q.url, "https://www.youtube.com/youtubei/v1/live_chat/get_live_chat?key=KEY1");
    assert_eq!(q.client_version, "2.1");
    assert_eq!(q.continuation, "TOKEN0");
    assert_eq!(video_page_url("abc123"), "https://www.youtube.com/watch?v=abc123");
}

fn base(id: &str) -> MessageRendererBase {
    MessageRendererBase {
        author_name: Some("Alice".to_string()),
        author_badges: None,
        id: Some(id.to_string()),
        timestamp_usec: Some("1700000000123456".to_string()),
        author_external_channel_id: None,
    }
}

fn text_action(id: &str, runs: Vec<MessageRun>) -> Action {
    Action {
        add_chat_item_action: Some(AddChatItemAction {
            item: ChatItem {
                live_chat_text_message_renderer: Some(TextMessageRenderer { base: base(id), message: Some(runs) }),
                live_chat_paid_message_renderer: None,
                live_chat_paid_sticker_renderer: None,
                live_chat_membership_item_renderer: None,
            },
        }),
    }
}

fn sticker_action(id: &str) -> Action {
    Action {
        add_chat_item_action: Some(AddChatItemAction {
            item: ChatItem {
                live_chat_text_message_renderer: None,
                live_chat_paid_message_renderer: None,
                live_chat_paid_sticker_renderer: Some(PaidStickerRenderer { base: base(id) }),
                live_chat_membership_item_renderer: None,
            },
        }),
    }
}

fn response(actions: Vec<Action>, token: &str) -> LiveChatResponse {
    LiveChatResponse {
        actions: Some(actions),
        continuations: Some(vec![ContinuationEntry { timed: Some(token.to_string()), invalidation: None }]),
    }
}

#[test]
fn runs_render_without_separator() {
    let runs = vec![
        MessageRun::Text("hi ".to_string()),
        MessageRun::Emoji(EmojiRun { thumbnail_url: Some("u.png".to_string()), label: Some(":)".to_string()) }),
        MessageRun::Text("!".to_string()),
    ];
    let resp = response(vec![text_action("m1", runs)], "T1");
    let (batch, token) = read_live_chat(&resp).unwrap();
    assert_eq!(token, "T1");
    assert_eq!(batch.len(), 1);
    let m = &batch[0];
    assert_eq!(m.rendered_text, "hi <img id=\":)\" class=\"w-6 h-6\" src=\"u.png\" alt=\":)\" />!");
    assert_eq!(m.raw_text, "hi :)!");
    assert_eq!(m.timestamp, 1700000000123);
    assert_eq!(m.author_display_name, "Alice");
    assert_eq!(m.platform, Platform::YouTube);
    assert_eq!(m.id, "m1");
}

#[test]
fn missing_item_fields_are_defaulted() {
    let mut a = text_action("x", vec![MessageRun::Emoji(EmojiRun { thumbnail_url: None, label: None })]);
    if let Some(add) = a.add_chat_item_action.as_mut() {
        let r = add.item.live_chat_text_message_renderer.as_mut().unwrap();
        r.base.author_name = None;
        r.base.id = None;
        r.base.timestamp_usec = Some("soon".to_string());
        r.base.author_badges = Some(vec![
            AuthorBadge { custom_thumbnail_url: Some("b1".to_string()) },
            AuthorBadge { custom_thumbnail_url: None },
        ]);
    }
    let (batch, _) = read_live_chat(&response(vec![a], "T")).unwrap();
    let m = &batch[0];
    assert_eq!(m.author_display_name, "Unknown Author");
    assert_eq!(m.id, "Unknown ID");
    assert_eq!(m.timestamp, 0);
    assert_eq!(m.author_badge_urls, vec!["b1".to_string()]);
    assert_eq!(
        m.rendered_text,
        "<img id=\"Unknown Emoji\" class=\"w-6 h-6\" src=\"Unknown Emoji URL\" alt=\"Unknown Emoji\" />"
    );
}

#[test]
fn only_text_messages_are_relayed() {
    let resp = response(vec![sticker_action("s"), text_action("t", vec![])], "T");
    let (batch, _) = read_live_chat(&resp).unwrap();
    assert_eq!(batch.len(), 1);
    assert_eq!(batch[0].id, "t");
    match BaseVideoProperties::renderer_from_action(sticker_action("s")) {
        Some(Renderer::LiveChatPaidStickerRenderer(_)) => {}
        _ => panic!("expected a sticker renderer"),
    }
    let empty = Action { add_chat_item_action: None };
    assert!(BaseVideoProperties::renderer_from_action(empty).is_none());
}

#[test]
fn author_helpers_read_the_base() {
    let b = base("m");
    assert_eq!(BaseVideoProperties::get_author_name(&b).as_deref(), Some("Alice"));
    assert!(BaseVideoProperties::get_author_badges(&b).is_empty());
}

#[test]
fn continuation_prefers_timed_then_invalidation() {
    let mut resp = response(vec![], "T");
    resp.continuations = Some(vec![ContinuationEntry {
        timed: Some("timed".to_string()),
        invalidation: Some("inval".to_string()),
    }]);
    assert_eq!(read_live_chat(&resp).unwrap().1, "timed");
    resp.continuations = Some(vec![ContinuationEntry { timed: None, invalidation: Some("inval".to_string()) }]);
    assert_eq!(read_live_chat(&resp).unwrap().1, "inval");
    resp.continuations = Some(vec![ContinuationEntry { timed: None, invalidation: None }]);
    assert_eq!(read_live_chat(&resp).unwrap_err(), PollError::MissingToken);
    resp.continuations = Some(vec![]);
    assert_eq!(read_live_chat(&resp).unwrap_err(), PollError::NoContinuation);
    resp.continuations = None;
    assert_eq!(read_live_chat(&resp).unwrap_err(), PollError::NoContinuation);
}

#[test]
fn no_actions_means_no_chat_not_an_error() {
    let mut resp = response(vec![], "NEXT");
    resp.actions = None;
    let (batch, token) = read_live_chat(&resp).unwrap();
    assert!(batch.is_empty());
    assert_eq!(token, "NEXT");
}

fn msg(id: usize) -> UnifiedMessage {
    UnifiedMessage {
        id: format!("id{}", id),
        timestamp: id as i64,
        platform: Platform::YouTube,
        author_display_name: String::new(),
        author_color: String::new(),
        author_badge_urls: Vec::new(),
        rendered_text: String::new(),
        emotes: Vec::new(),
        raw_text: String::new(),
        raw_platform_tags: Vec::new(),
    }
}

fn ids(v: &[UnifiedMessage]) -> Vec<String> {
    v.iter().map(|m| m.id.clone()).collect()
}

#[test]
fn batch_of_25_keeps_newest_20() {
    let batch: Vec<UnifiedMessage> = (0..25).map(msg).collect();
    let kept = truncate_batch(batch);
    assert_eq!(kept.len(), MAX_PREVIOUS_MESSAGES);
    assert_eq!(ids(&kept), (5..25).map(|i| format!("id{}", i)).collect::<Vec<_>>());
    let small: Vec<UnifiedMessage> = (0..3).map(msg).collect();
    assert_eq!(truncate_batch(small).len(), 3);
}

#[test]
fn overlapping_batches_deliver_each_id_once() {
    let mut w = PreviousMessages::new();
    let first = w.sift_batch((0..10).map(msg).collect());
    assert_eq!(first.len(), 10);
    let second = w.sift_batch((5..15).map(msg).collect());
    assert_eq!(ids(&second), (10..15).map(|i| format!("id{}", i)).collect::<Vec<_>>());
    let third = w.sift_batch((0..15).map(msg).collect());
    assert!(third.is_empty());
    assert_eq!(w.len(), 15);
}

#[test]
fn repeated_id_within_a_batch_is_delivered_once() {
    let mut w = PreviousMessages::new();
    let out = w.sift_batch(vec![msg(1), msg(2), msg(1)]);
    assert_eq!(ids(&out), vec!["id1".to_string(), "id2".to_string()]);
}

#[test]
fn window_never_exceeds_twenty_and_evicts_oldest() {
    let mut w = PreviousMessages::new();
    for start in [0usize, 10, 20] {
        w.sift_batch((start..start + 10).map(msg).collect());
        assert!(w.len() <= MAX_PREVIOUS_MESSAGES);
    }
    assert_eq!(w.len(), 20);
    assert!(!w.holds(&"id9".to_string()));
    assert!(w.holds(&"id10".to_string()));
    assert!(w.holds(&"id29".to_string()));
}

#[test]
fn poller_updates_token_and_dedups() {
    let html = page(r#""INNERTUBE_API_KEY":"K","clientVersion":"2.1","continuation":"T0""#);
    let video = BaseVideoProperties::retrieve_video_info(&html).unwrap();
    let mut poller = YoutubePoller::new(video);
    let r1 = response(vec![text_action("a", vec![]), text_action("b", vec![])], "T1");
    assert_eq!(ids(&poller.on_response(&r1).unwrap()), vec!["a".to_string(), "b".to_string()]);
    assert_eq!(poller.video.continuation.as_deref(), Some("T1"));
    let r2 = response(vec![text_action("b", vec![]), text_action("c", vec![])], "T2");
    assert_eq!(ids(&poller.on_response(&r2).unwrap()), vec!["c".to_string()]);
    assert_eq!(poller.video.continuation.as_deref(), Some("T2"));
    let mut bad = response(vec![text_action("d", vec![])], "T3");
    bad.continuations = Some(vec![]);
    assert_eq!(poller.on_response(&bad).unwrap_err(), PollError::NoContinuation);
    assert_eq!(poller.video.continuation.as_deref(), Some("T2"));
}

#[test]
fn tick_stops_on_cancel_and_fetches_with_current_token() {
    let html = page(r#""INNERTUBE_API_KEY":"K","clientVersion":"2.1","continuation":"T0""#);
    let poller = YoutubePoller::new(BaseVideoProperties::retrieve_video_info(&html).unwrap());
    assert!(matches!(poller.on_tick(true), PollTick::Stop));
    match poller.on_tick(false) {
        PollTick::Fetch(q) => assert_eq!(q.continuation, "T0"),
        other => panic!("unexpected {:?}", other),
    }
    let scheduled = page(r#""INNERTUBE_API_KEY":"K","clientVersion":"2.1","scheduledStartTime":"1""#);
    let idle = YoutubePoller::new(BaseVideoProperties::retrieve_video_info(&scheduled).unwrap());
    assert!(matches!(idle.on_tick(false), PollTick::Skip(PollError::NotLive)));
}
