//! The polling platform: session metadata scanned from the watch page, and
//! chat batches decoded from the typed live-chat response.
use crate::message::{pairs_view, texts_view, MessageView, Platform, UnifiedMessage};
use crate::deps::{regex_capture, regex_capture_of};
use crate::text::{decimal_of, parse_decimal};
use vstd::prelude::*;

verus! {

pub const REPLAY_PATTERN: &'static str = r#""isReplay"\s*:\s*(true)"#;
pub const API_KEY_PATTERN: &'static str = r#""INNERTUBE_API_KEY"\s*:\s*"([^"]+)""#;
pub const CONTINUATION_PATTERN: &'static str = r#""continuation"\s*:\s*"([^"]+)""#;
pub const SCHEDULED_PATTERN: &'static str = r#""scheduledStartTime"\s*:\s*"([^"]+)""#;
pub const CLIENT_VERSION_PATTERN: &'static str = r#""clientVersion"\s*:\s*"([\d.]+)""#;
pub const CANONICAL_PATTERN: &'static str = r#"<link\s+rel="canonical"\s+href="https://www\.youtube\.com/watch\?v=([^"]+)""#;
pub const TITLE_PATTERN: &'static str = r#"<title>([^<]+)</title>"#;

/// The id that an error carries when the page gave none.
pub const UNKNOWN_VIDEO_ID: &'static str = "Unknown";

/// What kind of stream a page describes.
#[derive(Clone, Copy, Debug, PartialEq, Eq, Structural)]
pub enum StreamKind {
    /// Chat is running: the page holds a continuation token.
    Live,
    /// Not started yet: no token, but a scheduled start time.
    Scheduled,
}

/// Why a watch page cannot start a polling session.
#[derive(Clone, Copy, Debug, PartialEq, Eq, Structural)]
pub enum VideoErrorKind {
    /// The content is a finished stream's replay, which has no live chat.
    Replay,
    MissingApiKey,
    /// Neither a continuation token nor a scheduled start time.
    MissingContinuation,
    MissingClientVersion,
    MissingVideoId,
}

/// A failed resolve, with the content id when the page named one.
#[derive(Clone, Debug)]
pub struct VideoError {
    pub video_id: String,
    pub kind: VideoErrorKind,
}

/// Session metadata of one video, resolved once from its watch page.
#[derive(Clone, Debug)]
pub struct BaseVideoProperties {
    pub video_id: String,
    pub title: Option<String>,
    pub api_key: String,
    pub client_version: String,
    /// Replaced by the server's next token after every successful poll.
    pub continuation: Option<String>,
    pub scheduled_start_time: Option<String>,
    pub kind: StreamKind,
}

/// First capture group of `pattern` in the page.
pub open spec fn page_field(pattern: &str, html: Seq<char>) -> Option<Seq<char>> {
    regex_capture_of(pattern@, html, 1)
}

/// The first reason, in the order the fields are checked, why the page cannot
/// start a session.
pub open spec fn page_error(html: Seq<char>) -> Option<VideoErrorKind> {
    if page_field(REPLAY_PATTERN, html) is Some {
        Some(VideoErrorKind::Replay)
    } else if page_field(API_KEY_PATTERN, html) is None {
        Some(VideoErrorKind::MissingApiKey)
    } else if page_field(CONTINUATION_PATTERN, html) is None && page_field(SCHEDULED_PATTERN, html) is None {
        Some(VideoErrorKind::MissingContinuation)
    } else if page_field(CLIENT_VERSION_PATTERN, html) is None {
        Some(VideoErrorKind::MissingClientVersion)
    } else if page_field(CANONICAL_PATTERN, html) is None {
        Some(VideoErrorKind::MissingVideoId)
    } else {
        None
    }
}

/// The id an error on this page carries.
pub open spec fn page_error_id(html: Seq<char>) -> Seq<char> {
    match page_field(CANONICAL_PATTERN, html) {
        Some(id) => id,
        None => UNKNOWN_VIDEO_ID@,
    }
}

pub open spec fn opt_view(o: Option<String>) -> Option<Seq<char>> {
    match o {
        Some(s) => Some(s@),
        None => None,
    }
}

/// What a resolved page gives.
pub open spec fn page_properties(html: Seq<char>, v: BaseVideoProperties) -> bool {
    &&& Some(v.api_key@) == page_field(API_KEY_PATTERN, html)
    &&& Some(v.client_version@) == page_field(CLIENT_VERSION_PATTERN, html)
    &&& Some(v.video_id@) == page_field(CANONICAL_PATTERN, html)
    &&& opt_view(v.title) == page_field(TITLE_PATTERN, html)
    &&& opt_view(v.continuation) == page_field(CONTINUATION_PATTERN, html)
    &&& v.kind == (if page_field(CONTINUATION_PATTERN, html) is Some {
        StreamKind::Live
    } else {
        StreamKind::Scheduled
    })
    &&& opt_view(v.scheduled_start_time) == (if page_field(CONTINUATION_PATTERN, html) is Some {
        None
    } else {
        page_field(SCHEDULED_PATTERN, html)
    })
}

fn page_capture(pattern: &'static str, html: &str) -> (r: Option<String>)
    ensures
        opt_view(r) == page_field(pattern, html@),
{
    regex_capture(pattern, html, 1)
}

/// The image reference that stands for an inline emoji in rendered text.
pub open spec fn emoji_image(label: Seq<char>, url: Seq<char>) -> Seq<char> {
    "<img id=\""@ + label + "\" class=\"w-6 h-6\" src=\""@ + url + "\" alt=\""@ + label + "\" />"@
}

/// A run of a message body.
#[derive(Clone, Debug)]
pub enum MessageRun {
    Text(String),
    Emoji(EmojiRun),
}

/// An inline emoji: its thumbnail and its accessibility label, either of which
/// the server may leave out.
#[derive(Clone, Debug)]
pub struct EmojiRun {
    pub thumbnail_url: Option<String>,
    pub label: Option<String>,
}

/// An author badge; only custom badges carry a thumbnail.
#[derive(Clone, Debug)]
pub struct AuthorBadge {
    pub custom_thumbnail_url: Option<String>,
}

/// Fields shared by every chat renderer.
#[derive(Clone, Debug)]
pub struct MessageRendererBase {
    pub author_name: Option<String>,
    pub author_badges: Option<Vec<AuthorBadge>>,
    pub id: Option<String>,
    pub timestamp_usec: Option<String>,
    pub author_external_channel_id: Option<String>,
}

#[derive(Clone, Debug)]
pub struct TextMessageRenderer {
    pub base: MessageRendererBase,
    pub message: Option<Vec<MessageRun>>,
}

#[derive(Clone, Debug)]
pub struct PaidMessageRenderer {
    pub base: MessageRendererBase,
    pub message: Option<Vec<MessageRun>>,
}

#[derive(Clone, Debug)]
pub struct PaidStickerRenderer {
    pub base: MessageRendererBase,
}

#[derive(Clone, Debug)]
pub struct MembershipItemRenderer {
    pub base: MessageRendererBase,
    pub header_subtext: Option<Vec<MessageRun>>,
}

/// The item of an add-chat-item action; the server fills one of its renderers.
#[derive(Clone, Debug)]
pub struct ChatItem {
    pub live_chat_text_message_renderer: Option<TextMessageRenderer>,
    pub live_chat_paid_message_renderer: Option<PaidMessageRenderer>,
    pub live_chat_paid_sticker_renderer: Option<PaidStickerRenderer>,
    pub live_chat_membership_item_renderer: Option<MembershipItemRenderer>,
}

#[derive(Clone, Debug)]
pub struct AddChatItemAction {
    pub item: ChatItem,
}

/// One action of a live-chat batch; only add-chat-item actions carry messages.
#[derive(Clone, Debug)]
pub struct Action {
    pub add_chat_item_action: Option<AddChatItemAction>,
}

/// The renderer of a chat item.
#[derive(Clone, Debug)]
pub enum Renderer {
    LiveChatTextMessageRenderer(TextMessageRenderer),
    LiveChatPaidMessageRenderer(PaidMessageRenderer),
    LiveChatPaidStickerRenderer(PaidStickerRenderer),
    LiveChatMembershipItemRenderer(MembershipItemRenderer),
}

/// One entry of a batch's continuation list: a time-boxed token, an
/// invalidation-based one, or both.
#[derive(Clone, Debug)]
pub struct ContinuationEntry {
    pub timed: Option<String>,
    pub invalidation: Option<String>,
}

/// The part of a live-chat response that polling reads.
#[derive(Clone, Debug)]
pub struct LiveChatResponse {
    pub actions: Option<Vec<Action>>,
    pub continuations: Option<Vec<ContinuationEntry>>,
}

/// Why one poll cycle failed.
#[derive(Clone, Copy, Debug, PartialEq, Eq, Structural)]
pub enum PollError {
    /// The response holds no continuation list, or an empty one.
    NoContinuation,
    /// The first continuation entry holds no token of either kind.
    MissingToken,
    /// The session has no token to poll with (a scheduled stream).
    NotLive,
}

/// The renderer of an action's item: the first that is present of text,
/// paid message, paid sticker and membership item.
pub open spec fn renderer_of(action: Action) -> Option<Renderer> {
    match action.add_chat_item_action {
        None => None,
        Some(a) => if a.item.live_chat_text_message_renderer is Some {
            Some(Renderer::LiveChatTextMessageRenderer(a.item.live_chat_text_message_renderer->0))
        } else if a.item.live_chat_paid_message_renderer is Some {
            Some(Renderer::LiveChatPaidMessageRenderer(a.item.live_chat_paid_message_renderer->0))
        } else if a.item.live_chat_paid_sticker_renderer is Some {
            Some(Renderer::LiveChatPaidStickerRenderer(a.item.live_chat_paid_sticker_renderer->0))
        } else if a.item.live_chat_membership_item_renderer is Some {
            Some(Renderer::LiveChatMembershipItemRenderer(a.item.live_chat_membership_item_renderer->0))
        } else {
            None
        },
    }
}

pub open spec fn text_or(o: Option<String>, default: Seq<char>) -> Seq<char> {
    match o {
        Some(s) => s@,
        None => default,
    }
}

/// What a run renders as.
pub open spec fn run_rendered(r: MessageRun) -> Seq<char> {
    match r {
        MessageRun::Text(t) => t@,
        MessageRun::Emoji(e) => emoji_image(
            text_or(e.label, "Unknown Emoji"@),
            text_or(e.thumbnail_url, "Unknown Emoji URL"@),
        ),
    }
}

/// What a run contributes to the raw text: its text, or an emoji's label.
pub open spec fn run_raw(r: MessageRun) -> Seq<char> {
    match r {
        MessageRun::Text(t) => t@,
        MessageRun::Emoji(e) => text_or(e.label, Seq::empty()),
    }
}

/// The runs rendered and joined with no separator.
pub open spec fn runs_rendered(runs: Seq<MessageRun>) -> Seq<char>
    decreases runs.len(),
{
    if runs.len() == 0 {
        Seq::empty()
    } else {
        runs_rendered(runs.drop_last()) + run_rendered(runs.last())
    }
}

pub open spec fn runs_raw(runs: Seq<MessageRun>) -> Seq<char>
    decreases runs.len(),
{
    if runs.len() == 0 {
        Seq::empty()
    } else {
        runs_raw(runs.drop_last()) + run_raw(runs.last())
    }
}

/// Thumbnail URLs of the custom badges, in order.
pub open spec fn badge_urls(badges: Seq<AuthorBadge>) -> Seq<Seq<char>>
    decreases badges.len(),
{
    if badges.len() == 0 {
        Seq::empty()
    } else {
        let init = badge_urls(badges.drop_last());
        match badges.last().custom_thumbnail_url {
            Some(u) => init.push(u@),
            None => init,
        }
    }
}

/// The server's microsecond timestamp in milliseconds; 0 when it is missing or
/// not a number.
pub open spec fn timestamp_ms(usec: Option<String>) -> int {
    match usec {
        Some(s) => match decimal_of(s@) {
            Some(v) => (v / 1000) as int,
            None => 0,
        },
        None => 0,
    }
}

pub open spec fn runs_of(o: Option<Vec<MessageRun>>) -> Seq<MessageRun> {
    match o {
        Some(v) => v@,
        None => Seq::empty(),
    }
}

pub open spec fn badges_of(base: MessageRendererBase) -> Seq<AuthorBadge> {
    match base.author_badges {
        Some(v) => v@,
        None => Seq::empty(),
    }
}

/// The message a text-message renderer becomes.
pub open spec fn youtube_message(r: TextMessageRenderer) -> MessageView {
    MessageView {
        id: text_or(r.base.id, "Unknown ID"@),
        timestamp: timestamp_ms(r.base.timestamp_usec),
        platform: Platform::YouTube,
        author_display_name: text_or(r.base.author_name, "Unknown Author"@),
        author_color: Seq::empty(),
        author_badge_urls: badge_urls(badges_of(r.base)),
        rendered_text: runs_rendered(runs_of(r.message)),
        emotes: Seq::empty(),
        raw_text: runs_raw(runs_of(r.message)),
        raw_platform_tags: Seq::empty(),
    }
}

/// The message an action carries: only text messages are relayed.
pub open spec fn action_message(action: Action) -> Option<MessageView> {
    match renderer_of(action) {
        Some(Renderer::LiveChatTextMessageRenderer(r)) => Some(youtube_message(r)),
        _ => None,
    }
}

/// The messages of a batch's actions, in order.
pub open spec fn chat_messages(actions: Seq<Action>) -> Seq<MessageView>
    decreases actions.len(),
{
    if actions.len() == 0 {
        Seq::empty()
    } else {
        let init = chat_messages(actions.drop_last());
        match action_message(actions.last()) {
            Some(m) => init.push(m),
            None => init,
        }
    }
}

pub open spec fn messages_view(v: Seq<UnifiedMessage>) -> Seq<MessageView> {
    v.map_values(|m: UnifiedMessage| m@)
}

/// The token the next poll uses: from the first continuation entry, the
/// time-boxed token if there is one, else the invalidation-based one.
pub open spec fn next_token(cs: Option<Vec<ContinuationEntry>>) -> Result<Seq<char>, PollError> {
    match cs {
        None => Err(PollError::NoContinuation),
        Some(v) => if v@.len() == 0 {
            Err(PollError::NoContinuation)
        } else {
            match (v@[0].timed, v@[0].invalidation) {
                (Some(t), _) => Ok(t@),
                (None, Some(t)) => Ok(t@),
                (None, None) => Err(PollError::MissingToken),
            }
        },
    }
}

pub open spec fn actions_of(o: Option<Vec<Action>>) -> Seq<Action> {
    match o {
        Some(v) => v@,
        None => Seq::empty(),
    }
}

impl BaseVideoProperties {
    /// Scans a watch page for the fields a polling session needs.
    pub fn retrieve_video_info(html: &str) -> (r: Result<BaseVideoProperties, VideoError>)
        ensures
            r is Ok <==> page_error(html@) is None,
            match r {
                Ok(v) => page_properties(html@, v),
                Err(e) => page_error(html@) == Some(e.kind) && e.video_id@ == page_error_id(html@),
            },
    {
        let canonical = page_capture(CANONICAL_PATTERN, html);
        let error_id = match &canonical {
            Some(id) => id.clone(),
            None => UNKNOWN_VIDEO_ID.to_string(),
        };
        if page_capture(REPLAY_PATTERN, html).is_some() {
            return Err(VideoError { video_id: error_id, kind: VideoErrorKind::Replay });
        }
        let api_key = match page_capture(API_KEY_PATTERN, html) {
            Some(k) => k,
            None => return Err(VideoError { video_id: error_id, kind: VideoErrorKind::MissingApiKey }),
        };
        let continuation = page_capture(CONTINUATION_PATTERN, html);
        let (kind, scheduled_start_time) = if continuation.is_some() {
            (StreamKind::Live, None)
        } else {
            match page_capture(SCHEDULED_PATTERN, html) {
                Some(t) => (StreamKind::Scheduled, Some(t)),
                None => return Err(
                    VideoError { video_id: error_id, kind: VideoErrorKind::MissingContinuation },
                ),
            }
        };
        let client_version = match page_capture(CLIENT_VERSION_PATTERN, html) {
            Some(v) => v,
            None => return Err(
                VideoError { video_id: error_id, kind: VideoErrorKind::MissingClientVersion },
            ),
        };
        let video_id = match canonical {
            Some(id) => id,
            None => return Err(VideoError { video_id: error_id, kind: VideoErrorKind::MissingVideoId }),
        };
        let title = page_capture(TITLE_PATTERN, html);
        Ok(BaseVideoProperties {
            video_id,
            title,
            api_key,
            client_version,
            continuation,
            scheduled_start_time,
            kind,
        })
    }

    /// The renderer of an action's item, if it has one.
    pub fn renderer_from_action(action: Action) -> (r: Option<Renderer>)
        ensures
            r == renderer_of(action),
    {
        match action.add_chat_item_action {
            None => None,
            Some(a) => {
                let item = a.item;
                if let Some(renderer) = item.live_chat_text_message_renderer {
                    Some(Renderer::LiveChatTextMessageRenderer(renderer))
                } else if let Some(renderer) = item.live_chat_paid_message_renderer {
                    Some(Renderer::LiveChatPaidMessageRenderer(renderer))
                } else if let Some(renderer) = item.live_chat_paid_sticker_renderer {
                    Some(Renderer::LiveChatPaidStickerRenderer(renderer))
                } else if let Some(renderer) = item.live_chat_membership_item_renderer {
                    Some(Renderer::LiveChatMembershipItemRenderer(renderer))
                } else {
                    None
                }
            },
        }
    }

    /// The author's name, when the renderer carries one.
    pub fn get_author_name(base: &MessageRendererBase) -> (r: Option<String>)
        ensures
            opt_view(r) == opt_view(base.author_name),
    {
        match &base.author_name {
            Some(name) => Some(name.clone()),
            None => None,
        }
    }

    /// The author's badges; none when the renderer lists none.
    pub fn get_author_badges(base: &MessageRendererBase) -> (r: Vec<AuthorBadge>)
        ensures
            r@.len() == badges_of(*base).len(),
            badge_urls(r@) == badge_urls(badges_of(*base)),
    {
        match &base.author_badges {
            Some(badges) => {
                let mut out: Vec<AuthorBadge> = Vec::new();
                let mut i: usize = 0;
                while i < badges.len()
                    invariant
                        i <= badges@.len(),
                        out@.len() == i,
                        forall|k: int| 0 <= k < i ==> opt_view((#[trigger] out@[k]).custom_thumbnail_url)
                            == opt_view(badges@[k].custom_thumbnail_url),
                    decreases badges@.len() - i,
                {
                    let url = match &badges[i].custom_thumbnail_url {
                        Some(u) => Some(u.clone()),
                        None => None,
                    };
                    out.push(AuthorBadge { custom_thumbnail_url: url });
                    i = i + 1;
                }
                proof {
                    lemma_badge_urls_agree(out@, badges@);
                }
                out
            },
            None => Vec::new(),
        }
    }
}

proof fn lemma_badge_urls_agree(a: Seq<AuthorBadge>, b: Seq<AuthorBadge>)
    requires
        a.len() == b.len(),
        forall|k: int| 0 <= k < a.len() ==> opt_view((#[trigger] a[k]).custom_thumbnail_url)
            == opt_view(b[k].custom_thumbnail_url),
    ensures
        badge_urls(a) == badge_urls(b),
    decreases a.len(),
{
    if a.len() > 0 {
        assert forall|k: int| 0 <= k < a.drop_last().len() implies opt_view(
            (#[trigger] a.drop_last()[k]).custom_thumbnail_url,
        ) == opt_view(b.drop_last()[k].custom_thumbnail_url) by {
            assert(a.drop_last()[k] == a[k]);
            assert(b.drop_last()[k] == b[k]);
        }
        lemma_badge_urls_agree(a.drop_last(), b.drop_last());
        assert(opt_view(a.last().custom_thumbnail_url) == opt_view(b.last().custom_thumbnail_url));
    }
}

fn text_or_default(o: &Option<String>, default: &str) -> (r: String)
    ensures
        r@ == text_or(*o, default@),
{
    match o {
        Some(s) => s.clone(),
        None => default.to_string(),
    }
}

fn render_runs(runs: &Vec<MessageRun>) -> (r: (String, String))
    ensures
        r.0@ == runs_rendered(runs@),
        r.1@ == runs_raw(runs@),
{
    let mut rendered = String::new();
    let mut raw = String::new();
    let mut i: usize = 0;
    assert(runs@.take(0) =~= Seq::<MessageRun>::empty());
    while i < runs.len()
        invariant
            i <= runs@.len(),
            rendered@ == runs_rendered(runs@.take(i as int)),
            raw@ == runs_raw(runs@.take(i as int)),
        decreases runs@.len() - i,
    {
        assert(runs@.take(i + 1).drop_last() =~= runs@.take(i as int));
        assert(runs@.take(i + 1).last() == runs@[i as int]);
        match &runs[i] {
            MessageRun::Text(t) => {
                rendered.append(t);
                raw.append(t);
            },
            MessageRun::Emoji(e) => {
                let label = text_or_default(&e.label, "Unknown Emoji");
                let url = text_or_default(&e.thumbnail_url, "Unknown Emoji URL");
                rendered.append("<img id=\"");
                rendered.append(&label);
                rendered.append("\" class=\"w-6 h-6\" src=\"");
                rendered.append(&url);
                rendered.append("\" alt=\"");
                rendered.append(&label);
                rendered.append("\" />");
                if let Some(l) = &e.label {
                    raw.append(l);
                }
            },
        }
        i = i + 1;
    }
    assert(runs@.take(i as int) =~= runs@);
    (rendered, raw)
}

fn custom_badge_urls(badges: &Vec<AuthorBadge>) -> (r: Vec<String>)
    ensures
        texts_view(r@) == badge_urls(badges@),
{
    let mut out: Vec<String> = Vec::new();
    let mut i: usize = 0;
    assert(badges@.take(0) =~= Seq::<AuthorBadge>::empty());
    while i < badges.len()
        invariant
            i <= badges@.len(),
            texts_view(out@) == badge_urls(badges@.take(i as int)),
        decreases badges@.len() - i,
    {
        assert(badges@.take(i + 1).drop_last() =~= badges@.take(i as int));
        assert(badges@.take(i + 1).last() == badges@[i as int]);
        match &badges[i].custom_thumbnail_url {
            Some(u) => {
                let ghost before = texts_view(out@);
                out.push(u.clone());
                assert(texts_view(out@) =~= before.push(u@));
            },
            None => {},
        }
        i = i + 1;
    }
    assert(badges@.take(i as int) =~= badges@);
    out
}

fn timestamp_from_usec(usec: &Option<String>) -> (r: i64)
    ensures
        r as int == timestamp_ms(*usec),
{
    match usec {
        Some(s) => match parse_decimal(s) {
            Some(v) => (v / 1000) as i64,
            None => 0,
        },
        None => 0,
    }
}

/// Builds the normalised message of a text-message renderer.
pub fn text_message(r: &TextMessageRenderer) -> (m: UnifiedMessage)
    ensures
        m@ == youtube_message(*r),
{
    let (rendered, raw) = match &r.message {
        Some(runs) => render_runs(runs),
        None => (String::new(), String::new()),
    };
    let badges = match &r.base.author_badges {
        Some(b) => custom_badge_urls(b),
        None => Vec::new(),
    };
    let m = UnifiedMessage {
        id: text_or_default(&r.base.id, "Unknown ID"),
        timestamp: timestamp_from_usec(&r.base.timestamp_usec),
        platform: Platform::YouTube,
        author_display_name: text_or_default(&r.base.author_name, "Unknown Author"),
        author_color: String::new(),
        author_badge_urls: badges,
        rendered_text: rendered,
        emotes: Vec::new(),
        raw_text: raw,
        raw_platform_tags: Vec::new(),
    };
    assert(pairs_view(m.emotes@) =~= Seq::empty());
    assert(pairs_view(m.raw_platform_tags@) =~= Seq::empty());
    assert(texts_view(Seq::<String>::empty()) =~= Seq::empty());
    m
}

/// The message an action carries, if it is a text message.
pub fn parse_message_action(action: &Action) -> (r: Option<UnifiedMessage>)
    ensures
        match r {
            Some(m) => action_message(*action) == Some(m@),
            None => action_message(*action) is None,
        },
{
    match &action.add_chat_item_action {
        Some(a) => match &a.item.live_chat_text_message_renderer {
            Some(renderer) => Some(text_message(renderer)),
            None => None,
        },
        None => None,
    }
}

/// The messages of a batch's actions, in order.
pub fn parse_message_type(actions: &Vec<Action>) -> (r: Vec<UnifiedMessage>)
    ensures
        messages_view(r@) == chat_messages(actions@),
{
    let mut out: Vec<UnifiedMessage> = Vec::new();
    let mut i: usize = 0;
    assert(actions@.take(0) =~= Seq::<Action>::empty());
    while i < actions.len()
        invariant
            i <= actions@.len(),
            messages_view(out@) == chat_messages(actions@.take(i as int)),
        decreases actions@.len() - i,
    {
        assert(actions@.take(i + 1).drop_last() =~= actions@.take(i as int));
        assert(actions@.take(i + 1).last() == actions@[i as int]);
        match parse_message_action(&actions[i]) {
            Some(m) => {
                let ghost before = messages_view(out@);
                out.push(m);
                assert(messages_view(out@) =~= before.push(m@));
            },
            None => {},
        }
        i = i + 1;
    }
    assert(actions@.take(i as int) =~= actions@);
    out
}

/// Reads one live-chat response: its messages in order and the token for the
/// next poll. A response without actions holds no chat; one without a usable
/// continuation fails the cycle.
pub fn read_live_chat(resp: &LiveChatResponse) -> (r: Result<(Vec<UnifiedMessage>, String), PollError>)
    ensures
        match (r, next_token(resp.continuations)) {
            (Ok((batch, token)), Ok(t)) => token@ == t && messages_view(batch@) == chat_messages(actions_of(resp.actions)),
            (Err(e), Err(f)) => e == f,
            _ => false,
        },
{
    let token = match &resp.continuations {
        None => return Err(PollError::NoContinuation),
        Some(cs) => {
            if cs.len() == 0 {
                return Err(PollError::NoContinuation);
            }
            match (&cs[0].timed, &cs[0].invalidation) {
                (Some(t), _) => t.clone(),
                (None, Some(t)) => t.clone(),
                (None, None) => return Err(PollError::MissingToken),
            }
        },
    };
    let batch = match &resp.actions {
        Some(actions) => parse_message_type(actions),
        None => {
            assert(chat_messages(Seq::<Action>::empty()) =~= Seq::empty());
            assert(messages_view(Seq::<UnifiedMessage>::empty()) =~= Seq::empty());
            Vec::new()
        },
    };
    Ok((batch, token))
}

/// The watch page of a video.
pub open spec fn watch_url(video_id: Seq<char>) -> Seq<char> {
    "https://www.youtube.com/watch?v="@ + video_id
}

/// The live-chat endpoint, keyed by the page's API key.
pub open spec fn live_chat_url(api_key: Seq<char>) -> Seq<char> {
    "https://www.youtube.com/youtubei/v1/live_chat/get_live_chat?key="@ + api_key
}

/// Address of a video's watch page.
pub fn video_page_url(video_id: &str) -> (r: String)
    ensures
        r@ == watch_url(video_id@),
{
    let mut url = "https://www.youtube.com/watch?v=".to_string();
    url.append(video_id);
    url
}

/// One poll of the live-chat endpoint: where it goes, and the client version
/// and token its body carries.
#[derive(Clone, Debug)]
pub struct ChatRequest {
    pub url: String,
    pub client_version: String,
    pub continuation: String,
}

impl BaseVideoProperties {
    /// The next poll of this session; none while it has no token.
    pub fn next_request(&self) -> (r: Result<ChatRequest, PollError>)
        ensures
            match (r, self.continuation) {
                (Ok(q), Some(c)) => q.url@ == live_chat_url(self.api_key@) && q.client_version@
                    == self.client_version@ && q.continuation@ == c@,
                (Err(e), None) => e == PollError::NotLive,
                _ => false,
            },
    {
        match &self.continuation {
            Some(c) => {
                let mut url = "https://www.youtube.com/youtubei/v1/live_chat/get_live_chat?key=".to_string();
                url.append(&self.api_key);
                Ok(ChatRequest { url, client_version: self.client_version.clone(), continuation: c.clone() })
            },
            None => Err(PollError::NotLive),
        }
    }
}

} // verus!
