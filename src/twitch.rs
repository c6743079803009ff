//! Normalisation of chat lines from the persistent-socket platform: the
//! `@tags prefix!user PRIVMSG #channel :text` grammar, its tag list, emote
//! ranges and badge pairs.
use crate::message::{pairs_view, texts_view, MessageView, Platform, UnifiedMessage};
use crate::deps::{
    is_ascii_alphanumeric, now_millis, random_alphanumeric, regex_capture, regex_capture_of,
};
use crate::text::{
    char_at_unit, char_index_of_unit, chars_of, decimal_of, find_char, has_char,
    parse_decimal, replace_all, replace_text, split_first, split_on, split_text,
    split_text_first,
};
use vstd::prelude::*;

verus! {

/// The chat-event grammar; its three groups are the tag block, the sender's
/// login and the message text.
pub const PRIVMSG_PATTERN: &'static str = r"@(?P<tags>[^ ]*) (?P<username>[^!]+)!.* PRIVMSG #[^ ]* :(?P<message>.*)";

/// Number of characters in the id given to each chat line.
pub const MESSAGE_ID_LEN: usize = 16;

/// Tag block, login and text of a chat line, when it is one.
pub open spec fn privmsg_parts(line: Seq<char>) -> Option<(Seq<char>, Seq<char>, Seq<char>)> {
    match (
        regex_capture_of(PRIVMSG_PATTERN@, line, 1),
        regex_capture_of(PRIVMSG_PATTERN@, line, 2),
        regex_capture_of(PRIVMSG_PATTERN@, line, 3),
    ) {
        (Some(t), Some(u), Some(m)) => Some((t, u, m)),
        _ => None,
    }
}

/// Splits a chat line into tag block, login and text.
pub fn parse_twitch_message(message: &str) -> (r: Option<(String, String, String)>)
    ensures
        match r {
            Some((t, u, m)) => privmsg_parts(message@) == Some((t@, u@, m@)),
            None => privmsg_parts(message@) is None,
        },
{
    let tags = regex_capture(PRIVMSG_PATTERN, message, 1);
    let username = regex_capture(PRIVMSG_PATTERN, message, 2);
    let text = regex_capture(PRIVMSG_PATTERN, message, 3);
    match (tags, username, text) {
        (Some(t), Some(u), Some(m)) => Some((t, u, m)),
        _ => None,
    }
}

/// The tag block as `(name, value)` pairs in their order: split on `;`, each
/// piece cut at its first `=`.
pub open spec fn tags_of(s: Seq<char>) -> Seq<(Seq<char>, Seq<char>)> {
    split_on(s, ';').map_values(|p: Seq<char>| split_first(p, '='))
}

/// Parses a tag block into `(name, value)` pairs in the order they appear.
pub fn parse_twitch_tags(tags_str: &str) -> (r: Vec<(String, String)>)
    ensures
        pairs_view(r@) == tags_of(tags_str@),
{
    let pieces = split_text(tags_str, ';');
    let ghost ps = split_on(tags_str@, ';');
    let mut tags: Vec<(String, String)> = Vec::new();
    let mut i: usize = 0;
    while i < pieces.len()
        invariant
            pieces@.map_values(|p: String| p@) == ps,
            ps == split_on(tags_str@, ';'),
            i <= pieces@.len(),
            pairs_view(tags@) == ps.take(i as int).map_values(|p: Seq<char>| split_first(p, '=')),
        decreases pieces@.len() - i,
    {
        let pair = split_text_first(&pieces[i], '=');
        assert(ps[i as int] == pieces@[i as int]@);
        let ghost before = pairs_view(tags@);
        tags.push(pair);
        assert(pairs_view(tags@) =~= before.push(split_first(ps[i as int], '=')));
        assert(ps.take(i + 1).map_values(|p: Seq<char>| split_first(p, '=')) =~= ps.take(i as int).map_values(
            |p: Seq<char>| split_first(p, '='),
        ).push(split_first(ps[i as int], '=')));
        i = i + 1;
    }
    assert(ps.take(i as int) =~= ps);
    tags
}

/// Value of the first tag named `key`.
pub open spec fn tag_value(tags: Seq<(Seq<char>, Seq<char>)>, key: Seq<char>) -> Option<Seq<char>>
    decreases tags.len(),
{
    if tags.len() == 0 {
        None
    } else if tags[0].0 == key {
        Some(tags[0].1)
    } else {
        tag_value(tags.drop_first(), key)
    }
}

pub open spec fn value_or_empty(v: Option<Seq<char>>) -> Seq<char> {
    match v {
        Some(s) => s,
        None => Seq::empty(),
    }
}

/// Value of the first tag named `key`.
pub fn find_tag(tags: &Vec<(String, String)>, key: &str) -> (r: Option<String>)
    ensures
        match r {
            Some(v) => tag_value(pairs_view(tags@), key@) == Some(v@),
            None => tag_value(pairs_view(tags@), key@) is None,
        },
{
    let wanted = key.to_string();
    assert(wanted@ == key@);
    let ghost all = pairs_view(tags@);
    let mut i: usize = 0;
    assert(all.skip(0) =~= all);
    while i < tags.len()
        invariant
            all == pairs_view(tags@),
            wanted@ == key@,
            i <= tags@.len(),
            tag_value(all.skip(i as int), key@) == tag_value(all, key@),
        decreases tags@.len() - i,
    {
        assert(all.skip(i as int)[0] == all[i as int]);
        assert(all[i as int] == (tags@[i as int].0@, tags@[i as int].1@));
        if tags[i].0.eq(&wanted) {
            return Some(tags[i].1.clone());
        }
        assert(all.skip(i as int).drop_first() =~= all.skip(i + 1));
        i = i + 1;
    }
    None
}

/// The image URL of an emote on the platform's CDN.
pub open spec fn emote_url(emote_id: Seq<char>) -> Seq<char> {
    "https://static-cdn.jtvnw.net/emoticons/v2/"@ + emote_id + "/default/dark/1.0"@
}

/// Builds the CDN image URL of an emote id.
pub fn construct_emote_url(emote_id: &str) -> (r: String)
    ensures
        r@ == emote_url(emote_id@),
{
    let mut url = String::new();
    url.append("https://static-cdn.jtvnw.net/emoticons/v2/");
    url.append(emote_id);
    url.append("/default/dark/1.0");
    url
}

/// The embeddable image reference that stands for an emote in rendered text.
pub open spec fn emote_image(name: Seq<char>, url: Seq<char>) -> Seq<char> {
    "<img id=\""@ + name + "\" src=\""@ + url + "\" alt=\""@ + name + "\" />"@
}

fn image_tag(name: &str, url: &str) -> (r: String)
    ensures
        r@ == emote_image(name@, url@),
{
    let mut tag = String::new();
    tag.append("<img id=\"");
    tag.append(name);
    tag.append("\" src=\"");
    tag.append(url);
    tag.append("\" alt=\"");
    tag.append(name);
    tag.append("\" />");
    tag
}

/// Name and id of the emote that one `id:start-end,...` group of the emotes tag
/// names: the first range, read as inclusive UTF-16 code-unit offsets into
/// `text`. A group whose range is malformed or falls outside the text names none.
pub open spec fn emote_of_group(text: Seq<char>, group: Seq<char>) -> Option<(Seq<char>, Seq<char>)> {
    let id = split_first(group, ':').0;
    let range = split_first(split_first(group, ':').1, ',').0;
    let bounds = split_first(range, '-');
    match (decimal_of(bounds.0), decimal_of(bounds.1)) {
        (Some(start), Some(end)) => if start <= end && end < u64::MAX {
            match (char_at_unit(text, start), char_at_unit(text, (end + 1) as nat)) {
                (Some(i), Some(j)) => if i < j && j <= text.len() {
                    Some((text.subrange(i as int, j as int), id))
                } else {
                    None
                },
                _ => None,
            }
        } else {
            None
        },
        _ => None,
    }
}

/// `(name, url)` of each emote that the groups name, in their order.
pub open spec fn emote_list(text: Seq<char>, groups: Seq<Seq<char>>) -> Seq<(Seq<char>, Seq<char>)>
    decreases groups.len(),
{
    if groups.len() == 0 {
        Seq::empty()
    } else {
        let init = emote_list(text, groups.drop_last());
        match emote_of_group(text, groups.last()) {
            Some((name, id)) => init.push((name, emote_url(id))),
            None => init,
        }
    }
}

/// The emotes that an emotes tag names in `text`.
pub open spec fn emotes_in(text: Seq<char>, emote_tag: Seq<char>) -> Seq<(Seq<char>, Seq<char>)> {
    emote_list(text, split_on(emote_tag, '/'))
}

/// `text` with each emote's name replaced, everywhere, by its image reference,
/// one emote after the other.
pub open spec fn render_emotes(text: Seq<char>, emotes: Seq<(Seq<char>, Seq<char>)>) -> Seq<char>
    decreases emotes.len(),
{
    if emotes.len() == 0 {
        text
    } else {
        let e = emotes.last();
        replace_all(render_emotes(text, emotes.drop_last()), e.0, emote_image(e.0, e.1))
    }
}

fn emote_from_group(text: &str, chars: &Vec<char>, group: &str) -> (r: Option<(String, String)>)
    requires
        chars@ == text@,
    ensures
        match r {
            Some((n, id)) => emote_of_group(text@, group@) == Some((n@, id@)),
            None => emote_of_group(text@, group@) is None,
        },
{
    let (id, ranges) = split_text_first(group, ':');
    let (range, _rest) = split_text_first(&ranges, ',');
    let (a, b) = split_text_first(&range, '-');
    let start = match parse_decimal(&a) {
        Some(v) => v,
        None => return None,
    };
    let end = match parse_decimal(&b) {
        Some(v) => v,
        None => return None,
    };
    if start > end || end == u64::MAX {
        return None;
    }
    let i = match char_index_of_unit(chars, start) {
        Some(k) => k,
        None => return None,
    };
    let j = match char_index_of_unit(chars, end + 1) {
        Some(k) => k,
        None => return None,
    };
    if i < j && j <= chars.len() {
        let name = text.substring_char(i, j);
        Some((name.to_string(), id))
    } else {
        None
    }
}

/// The emotes that the emotes tag names in `text`, as `(name, url)`.
pub fn parse_emotes(text: &str, emote_tag: &str) -> (r: Vec<(String, String)>)
    ensures
        pairs_view(r@) == emotes_in(text@, emote_tag@),
{
    let chars = chars_of(text);
    let groups = split_text(emote_tag, '/');
    let ghost gs = split_on(emote_tag@, '/');
    let mut out: Vec<(String, String)> = Vec::new();
    let mut k: usize = 0;
    assert(gs.take(0) =~= Seq::<Seq<char>>::empty());
    while k < groups.len()
        invariant
            chars@ == text@,
            groups@.map_values(|p: String| p@) == gs,
            k <= groups@.len(),
            pairs_view(out@) == emote_list(text@, gs.take(k as int)),
        decreases groups@.len() - k,
    {
        assert(gs.take(k + 1).drop_last() =~= gs.take(k as int));
        assert(gs.take(k + 1).last() == groups@[k as int]@);
        match emote_from_group(text, &chars, &groups[k]) {
            Some((name, id)) => {
                let url = construct_emote_url(&id);
                let ghost before = pairs_view(out@);
                out.push((name, url));
                assert(pairs_view(out@) =~= before.push((name@, emote_url(id@))));
            },
            None => {},
        }
        k = k + 1;
    }
    assert(gs.take(k as int) =~= gs);
    out
}

/// Replaces each emote's name in `text` by its image reference.
pub fn render_text(text: &str, emotes: &Vec<(String, String)>) -> (r: String)
    ensures
        r@ == render_emotes(text@, pairs_view(emotes@)),
{
    let ghost es = pairs_view(emotes@);
    let mut out = text.to_string();
    let mut k: usize = 0;
    assert(es.take(0) =~= Seq::<(Seq<char>, Seq<char>)>::empty());
    while k < emotes.len()
        invariant
            es == pairs_view(emotes@),
            k <= emotes@.len(),
            out@ == render_emotes(text@, es.take(k as int)),
        decreases emotes@.len() - k,
    {
        assert(es.take(k + 1).drop_last() =~= es.take(k as int));
        assert(es.take(k + 1).last() == (emotes@[k as int].0@, emotes@[k as int].1@));
        if emotes[k].0.unicode_len() > 0 {
            let img = image_tag(&emotes[k].0, &emotes[k].1);
            out = replace_text(&out, &emotes[k].0, &img);
        }
        k = k + 1;
    }
    assert(es.take(k as int) =~= es);
    out
}

/// One version of a badge in the platform's badge catalog.
#[derive(Clone, Debug)]
pub struct BadgeVersion {
    pub id: String,
    pub image_url: String,
}

impl View for BadgeVersion {
    type V = (Seq<char>, Seq<char>);

    open spec fn view(&self) -> (Seq<char>, Seq<char>) {
        (self.id@, self.image_url@)
    }
}

/// A badge of the catalog with its versions.
#[derive(Clone, Debug)]
pub struct BadgeSet {
    pub set_id: String,
    pub versions: Vec<BadgeVersion>,
}

pub struct BadgeSetView {
    pub set_id: Seq<char>,
    /// `(version id, image url)` pairs.
    pub versions: Seq<(Seq<char>, Seq<char>)>,
}

impl View for BadgeSet {
    type V = BadgeSetView;

    open spec fn view(&self) -> BadgeSetView {
        BadgeSetView { set_id: self.set_id@, versions: self.versions@.map_values(|v: BadgeVersion| v@) }
    }
}

pub open spec fn catalog_view(c: Seq<BadgeSet>) -> Seq<BadgeSetView> {
    c.map_values(|b: BadgeSet| b@)
}

/// The `(name, version)` pairs of the comma-separated pieces that hold a `/`;
/// a piece without one is skipped.
pub open spec fn badge_pairs_of(pieces: Seq<Seq<char>>) -> Seq<(Seq<char>, Seq<char>)>
    decreases pieces.len(),
{
    if pieces.len() == 0 {
        Seq::empty()
    } else {
        let init = badge_pairs_of(pieces.drop_last());
        if find_char(pieces.last(), '/') is Some {
            init.push(split_first(pieces.last(), '/'))
        } else {
            init
        }
    }
}

pub open spec fn badge_pairs(badge_tag: Seq<char>) -> Seq<(Seq<char>, Seq<char>)> {
    badge_pairs_of(split_on(badge_tag, ','))
}

/// Image URLs that one catalog badge gives to the pairs naming it, in pair order.
pub open spec fn set_badges(set: BadgeSetView, pairs: Seq<(Seq<char>, Seq<char>)>) -> Seq<Seq<char>>
    decreases pairs.len(),
{
    if pairs.len() == 0 {
        Seq::empty()
    } else {
        let init = set_badges(set, pairs.drop_last());
        let p = pairs.last();
        if p.0 == set.set_id {
            match tag_value(set.versions, p.1) {
                Some(url) => init.push(url),
                None => init,
            }
        } else {
            init
        }
    }
}

/// Image URLs of the badge pairs, catalog badge by catalog badge; pairs that
/// match nothing in the catalog give nothing.
pub open spec fn resolve_badges(sets: Seq<BadgeSetView>, pairs: Seq<(Seq<char>, Seq<char>)>) -> Seq<Seq<char>>
    decreases sets.len(),
{
    if sets.len() == 0 {
        Seq::empty()
    } else {
        resolve_badges(sets.drop_last(), pairs) + set_badges(sets.last(), pairs)
    }
}

/// The `(name, version)` pairs of a badges tag.
pub fn parse_badge_pairs(badge_tag: &str) -> (r: Vec<(String, String)>)
    ensures
        pairs_view(r@) == badge_pairs(badge_tag@),
{
    let pieces = split_text(badge_tag, ',');
    let ghost ps = split_on(badge_tag@, ',');
    let mut out: Vec<(String, String)> = Vec::new();
    let mut i: usize = 0;
    assert(ps.take(0) =~= Seq::<Seq<char>>::empty());
    while i < pieces.len()
        invariant
            pieces@.map_values(|p: String| p@) == ps,
            i <= pieces@.len(),
            pairs_view(out@) == badge_pairs_of(ps.take(i as int)),
        decreases pieces@.len() - i,
    {
        assert(ps.take(i + 1).drop_last() =~= ps.take(i as int));
        assert(ps.take(i + 1).last() == pieces@[i as int]@);
        if has_char(&pieces[i], '/') {
            let pair = split_text_first(&pieces[i], '/');
            let ghost before = pairs_view(out@);
            out.push(pair);
            assert(pairs_view(out@) =~= before.push(split_first(ps[i as int], '/')));
        }
        i = i + 1;
    }
    assert(ps.take(i as int) =~= ps);
    out
}

fn find_version(versions: &Vec<BadgeVersion>, id: &String) -> (r: Option<String>)
    ensures
        match r {
            Some(u) => tag_value(versions@.map_values(|v: BadgeVersion| v@), id@) == Some(u@),
            None => tag_value(versions@.map_values(|v: BadgeVersion| v@), id@) is None,
        },
{
    let ghost all = versions@.map_values(|v: BadgeVersion| v@);
    let mut i: usize = 0;
    assert(all.skip(0) =~= all);
    while i < versions.len()
        invariant
            all == versions@.map_values(|v: BadgeVersion| v@),
            i <= versions@.len(),
            tag_value(all.skip(i as int), id@) == tag_value(all, id@),
        decreases versions@.len() - i,
    {
        assert(all.skip(i as int)[0] == all[i as int]);
        if versions[i].id.eq(id) {
            return Some(versions[i].image_url.clone());
        }
        assert(all.skip(i as int).drop_first() =~= all.skip(i + 1));
        i = i + 1;
    }
    None
}

/// Image URLs of the badge pairs, looked up in the catalog.
pub fn resolve_badge_urls(catalog: &Vec<BadgeSet>, pairs: &Vec<(String, String)>) -> (r: Vec<String>)
    ensures
        texts_view(r@) == resolve_badges(catalog_view(catalog@), pairs_view(pairs@)),
{
    let ghost sets = catalog_view(catalog@);
    let ghost ps = pairs_view(pairs@);
    let mut out: Vec<String> = Vec::new();
    let mut k: usize = 0;
    assert(sets.take(0) =~= Seq::<BadgeSetView>::empty());
    while k < catalog.len()
        invariant
            sets == catalog_view(catalog@),
            ps == pairs_view(pairs@),
            k <= catalog@.len(),
            texts_view(out@) == resolve_badges(sets.take(k as int), ps),
        decreases catalog@.len() - k,
    {
        let set = &catalog[k];
        let ghost sv = sets[k as int];
        let ghost base = texts_view(out@);
        let mut j: usize = 0;
        assert(ps.take(0) =~= Seq::<(Seq<char>, Seq<char>)>::empty());
        assert(base + Seq::<Seq<char>>::empty() =~= base);
        while j < pairs.len()
            invariant
                sv == set@,
                ps == pairs_view(pairs@),
                j <= pairs@.len(),
                texts_view(out@) == base + set_badges(sv, ps.take(j as int)),
            decreases pairs@.len() - j,
        {
            assert(ps.take(j + 1).drop_last() =~= ps.take(j as int));
            assert(ps.take(j + 1).last() == (pairs@[j as int].0@, pairs@[j as int].1@));
            if pairs[j].0.eq(&set.set_id) {
                match find_version(&set.versions, &pairs[j].1) {
                    Some(url) => {
                        let ghost before = texts_view(out@);
                        out.push(url);
                        assert(texts_view(out@) =~= before.push(url@));
                        assert(base + set_badges(sv, ps.take(j + 1)) =~= before.push(url@));
                    },
                    None => {},
                }
            }
            j = j + 1;
        }
        assert(ps.take(j as int) =~= ps);
        assert(sets.take(k + 1).drop_last() =~= sets.take(k as int));
        k = k + 1;
    }
    assert(sets.take(k as int) =~= sets);
    out
}

/// The message a chat line with this tag block, login and text becomes,
/// given its id, its arrival time and the badge catalog.
pub open spec fn twitch_message(
    tags_raw: Seq<char>,
    username: Seq<char>,
    content: Seq<char>,
    id: Seq<char>,
    timestamp: int,
    catalog: Seq<BadgeSetView>,
) -> MessageView {
    let tags = tags_of(tags_raw);
    let emotes = emotes_in(content, value_or_empty(tag_value(tags, "emotes"@)));
    MessageView {
        id: id,
        timestamp: timestamp,
        platform: Platform::Twitch,
        author_display_name: match tag_value(tags, "display-name"@) {
            Some(name) => name,
            None => username,
        },
        author_color: value_or_empty(tag_value(tags, "color"@)),
        author_badge_urls: resolve_badges(catalog, badge_pairs(value_or_empty(tag_value(tags, "badges"@)))),
        rendered_text: render_emotes(content, emotes),
        emotes: emotes,
        raw_text: content,
        raw_platform_tags: tags,
    }
}

fn tag_or_empty(tags: &Vec<(String, String)>, key: &str) -> (r: String)
    ensures
        r@ == value_or_empty(tag_value(pairs_view(tags@), key@)),
{
    match find_tag(tags, key) {
        Some(v) => v,
        None => String::new(),
    }
}

/// Builds the normalised message of a chat line from its parts.
pub fn normalize_twitch_message(
    tags_raw: &str,
    username: &str,
    content: &str,
    id: String,
    timestamp: i64,
    catalog: &Vec<BadgeSet>,
) -> (m: UnifiedMessage)
    ensures
        m@ == twitch_message(tags_raw@, username@, content@, id@, timestamp as int, catalog_view(catalog@)),
{
    let tags = parse_twitch_tags(tags_raw);
    let emote_tag = tag_or_empty(&tags, "emotes");
    let emotes = parse_emotes(content, &emote_tag);
    let rendered = render_text(content, &emotes);
    let display_name = match find_tag(&tags, "display-name") {
        Some(name) => name,
        None => username.to_string(),
    };
    let color = tag_or_empty(&tags, "color");
    let badge_tag = tag_or_empty(&tags, "badges");
    let pairs = parse_badge_pairs(&badge_tag);
    let badges = resolve_badge_urls(catalog, &pairs);
    UnifiedMessage {
        id,
        timestamp,
        platform: Platform::Twitch,
        author_display_name: display_name,
        author_color: color,
        author_badge_urls: badges,
        rendered_text: rendered,
        emotes,
        raw_text: content.to_string(),
        raw_platform_tags: tags,
    }
}

/// Normalises one inbound chat line, giving it a fresh random id of
/// [`MESSAGE_ID_LEN`] letters and digits and the current time. Lines outside
/// the chat-event grammar give nothing.
pub fn process_twitch_line(line: &str, catalog: &Vec<BadgeSet>) -> (r: Option<UnifiedMessage>)
    ensures
        r is Some <==> privmsg_parts(line@) is Some,
        match (r, privmsg_parts(line@)) {
            (Some(m), Some((t, u, c))) => {
                &&& m@ == twitch_message(t, u, c, m.id@, m.timestamp as int, catalog_view(catalog@))
                &&& m.id@.len() == MESSAGE_ID_LEN
                &&& forall|i: int| 0 <= i < m.id@.len() ==> is_ascii_alphanumeric(#[trigger] m.id@[i])
            },
            _ => true,
        },
{
    match parse_twitch_message(line) {
        Some((tags, username, content)) => {
            let id = random_alphanumeric(MESSAGE_ID_LEN);
            let timestamp = now_millis();
            Some(normalize_twitch_message(&tags, &username, &content, id, timestamp, catalog))
        },
        None => None,
    }
}

} // verus!
