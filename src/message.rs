//! The normalised chat message shared by both platforms.
use vstd::prelude::*;

verus! {

/// The platform a message came from.
#[derive(Clone, Copy, Debug, PartialEq, Eq, Structural)]
pub enum Platform {
    Twitch,
    YouTube,
}

impl Platform {
    /// The name that tags the platform in an outbound frame.
    pub fn name(&self) -> (r: &'static str)
        ensures
            *self == Platform::Twitch ==> r@ == "twitch"@,
            *self == Platform::YouTube ==> r@ == "youtube"@,
    {
        match self {
            Platform::Twitch => "twitch",
            Platform::YouTube => "youtube",
        }
    }
}

/// One chat event, normalised. Built once per inbound event and not changed after.
#[derive(Clone, Debug)]
pub struct UnifiedMessage {
    pub id: String,
    /// Milliseconds since the Unix epoch.
    pub timestamp: i64,
    pub platform: Platform,
    pub author_display_name: String,
    /// May be empty.
    pub author_color: String,
    pub author_badge_urls: Vec<String>,
    /// The text with platform markup turned into embeddable image tags.
    pub rendered_text: String,
    /// `(name, image url)` of each emote found in the text.
    pub emotes: Vec<(String, String)>,
    pub raw_text: String,
    pub raw_platform_tags: Vec<(String, String)>,
}

/// The mathematical value of a [`UnifiedMessage`].
pub struct MessageView {
    pub id: Seq<char>,
    pub timestamp: int,
    pub platform: Platform,
    pub author_display_name: Seq<char>,
    pub author_color: Seq<char>,
    pub author_badge_urls: Seq<Seq<char>>,
    pub rendered_text: Seq<char>,
    pub emotes: Seq<(Seq<char>, Seq<char>)>,
    pub raw_text: Seq<char>,
    pub raw_platform_tags: Seq<(Seq<char>, Seq<char>)>,
}

pub open spec fn texts_view(v: Seq<String>) -> Seq<Seq<char>> {
    v.map_values(|s: String| s@)
}

pub open spec fn pairs_view(v: Seq<(String, String)>) -> Seq<(Seq<char>, Seq<char>)> {
    v.map_values(|p: (String, String)| (p.0@, p.1@))
}

impl View for UnifiedMessage {
    type V = MessageView;

    open spec fn view(&self) -> MessageView {
        MessageView {
            id: self.id@,
            timestamp: self.timestamp as int,
            platform: self.platform,
            author_display_name: self.author_display_name@,
            author_color: self.author_color@,
            author_badge_urls: texts_view(self.author_badge_urls@),
            rendered_text: self.rendered_text@,
            emotes: pairs_view(self.emotes@),
            raw_text: self.raw_text@,
            raw_platform_tags: pairs_view(self.raw_platform_tags@),
        }
    }
}

} // verus!
