//! The polling ingester's state between cycles: the session's continuation
//! token and a bounded window of recently delivered message ids.
use crate::message::{MessageView, UnifiedMessage};
use crate::youtube::{
    actions_of, chat_messages, live_chat_url, messages_view, next_token, read_live_chat,
    BaseVideoProperties, ChatRequest, LiveChatResponse, PollError,
};
use std::collections::VecDeque;
use vstd::prelude::*;

verus! {

/// How many ids the window keeps, and how many of a batch's newest items a
/// cycle looks at.
pub const MAX_PREVIOUS_MESSAGES: usize = 20;

/// The newest [`MAX_PREVIOUS_MESSAGES`] items of a batch.
pub open spec fn truncated(b: Seq<MessageView>) -> Seq<MessageView> {
    if b.len() > MAX_PREVIOUS_MESSAGES {
        b.skip(b.len() - MAX_PREVIOUS_MESSAGES)
    } else {
        b
    }
}

/// The last [`MAX_PREVIOUS_MESSAGES`] ids of `s`.
pub open spec fn newest(s: Seq<Seq<char>>) -> Seq<Seq<char>> {
    if s.len() > MAX_PREVIOUS_MESSAGES {
        s.skip(s.len() - MAX_PREVIOUS_MESSAGES)
    } else {
        s
    }
}

/// The window after `id` is pushed: the oldest id leaves once it is over capacity.
pub open spec fn remember(w: Seq<Seq<char>>, id: Seq<char>) -> Seq<Seq<char>> {
    if w.push(id).len() > MAX_PREVIOUS_MESSAGES {
        w.push(id).drop_first()
    } else {
        w.push(id)
    }
}

/// Window and delivered messages after a batch: each message is delivered,
/// and its id remembered, only when the window does not hold its id at that point.
pub open spec fn sift(w: Seq<Seq<char>>, batch: Seq<MessageView>) -> (Seq<Seq<char>>, Seq<MessageView>)
    decreases batch.len(),
{
    if batch.len() == 0 {
        (w, Seq::empty())
    } else {
        let (w1, d1) = sift(w, batch.drop_last());
        let m = batch.last();
        if w1.contains(m.id) {
            (w1, d1)
        } else {
            (remember(w1, m.id), d1.push(m))
        }
    }
}

pub open spec fn ids(d: Seq<MessageView>) -> Seq<Seq<char>> {
    d.map_values(|m: MessageView| m.id)
}

/// A window as it can be: within capacity and free of repeats.
pub open spec fn window_wf(w: Seq<Seq<char>>) -> bool {
    w.len() <= MAX_PREVIOUS_MESSAGES && w.no_duplicates()
}

/// Ids of the messages delivered most recently, oldest first.
pub struct PreviousMessages {
    message_ids: VecDeque<String>,
}

impl View for PreviousMessages {
    type V = Seq<Seq<char>>;

    closed spec fn view(&self) -> Seq<Seq<char>> {
        self.message_ids@.map_values(|s: String| s@)
    }
}

proof fn lemma_remember_newest(x: Seq<Seq<char>>, id: Seq<char>)
    ensures
        remember(newest(x), id) == newest(x.push(id)),
{
    if x.len() >= MAX_PREVIOUS_MESSAGES {
        assert(newest(x).push(id).drop_first() =~= x.push(id).skip(x.push(id).len() - MAX_PREVIOUS_MESSAGES));
    } else {
        assert(newest(x) == x);
    }
}

/// The window keeps the newest ids of everything it held or was given, oldest
/// leaving first, and never holds more than it may.
pub proof fn lemma_sift_fifo(w: Seq<Seq<char>>, batch: Seq<MessageView>)
    requires
        window_wf(w),
    ensures
        sift(w, batch).0 == newest(w + ids(sift(w, batch).1)),
        window_wf(sift(w, batch).0),
    decreases batch.len(),
{
    if batch.len() == 0 {
        assert(w + ids(Seq::<MessageView>::empty()) =~= w);
    } else {
        let (w1, d1) = sift(w, batch.drop_last());
        lemma_sift_fifo(w, batch.drop_last());
        let m = batch.last();
        if !w1.contains(m.id) {
            lemma_remember_newest(w + ids(d1), m.id);
            assert((w + ids(d1)).push(m.id) =~= w + ids(d1.push(m)));
            let w2 = w1.push(m.id);
            assert forall|i: int, j: int| 0 <= i < j < w2.len() implies w2[i] != w2[j] by {
                if j == w2.len() - 1 {
                    assert(w1[i] == w2[i]);
                    assert(w1.contains(w2[i]));
                }
            }
            if w2.len() > MAX_PREVIOUS_MESSAGES {
                let w3 = w2.drop_first();
                assert forall|i: int, j: int| 0 <= i < j < w3.len() implies w3[i] != w3[j] by {
                    assert(w3[i] == w2[i + 1]);
                    assert(w3[j] == w2[j + 1]);
                }
            }
        }
    }
}

/// While the window has room for every id a batch delivers, nothing leaves it:
/// it becomes the old window followed by the delivered ids; no delivered id was
/// already in it or is delivered twice; and it ends up holding the id of every
/// message of the batch.
pub proof fn lemma_sift_within_capacity(w: Seq<Seq<char>>, batch: Seq<MessageView>)
    requires
        window_wf(w),
        w.len() + sift(w, batch).1.len() <= MAX_PREVIOUS_MESSAGES,
    ensures
        sift(w, batch).0 == w + ids(sift(w, batch).1),
        forall|i: int| 0 <= i < sift(w, batch).1.len() ==> !w.contains(#[trigger] sift(w, batch).1[i].id),
        ids(sift(w, batch).1).no_duplicates(),
        forall|j: int| 0 <= j < batch.len() ==> sift(w, batch).0.contains(#[trigger] batch[j].id),
    decreases batch.len(),
{
    let (w2, d2) = sift(w, batch);
    if batch.len() == 0 {
        assert(w + ids(Seq::<MessageView>::empty()) =~= w);
    } else {
        let (w1, d1) = sift(w, batch.drop_last());
        let m = batch.last();
        assert(d1.len() <= d2.len());
        lemma_sift_within_capacity(w, batch.drop_last());
        if w1.contains(m.id) {
            assert forall|j: int| 0 <= j < batch.len() implies w2.contains(#[trigger] batch[j].id) by {
                if j < batch.len() - 1 {
                    assert(batch.drop_last()[j] == batch[j]);
                }
            }
        } else {
            assert(w1.push(m.id).len() <= MAX_PREVIOUS_MESSAGES);
            assert(w2 == w1.push(m.id));
            assert(w1.push(m.id) =~= w + ids(d1.push(m)));
            assert forall|i: int| 0 <= i < d2.len() implies !w.contains(#[trigger] d2[i].id) by {
                if i < d1.len() {
                    assert(d2[i] == d1[i]);
                } else {
                    assert(d2[i] == m);
                    if w.contains(m.id) {
                        let k = choose|k: int| 0 <= k < w.len() && w[k] == m.id;
                        assert(w1[k] == m.id);
                    }
                }
            }
            let s = ids(d2);
            assert forall|i: int, j: int| 0 <= i < j < s.len() implies s[i] != s[j] by {
                if j == s.len() - 1 {
                    assert(s[j] == m.id);
                    assert(s[i] == ids(d1)[i]);
                    assert(w1[w.len() + i] == ids(d1)[i]);
                } else {
                    assert(s[i] == ids(d1)[i]);
                    assert(s[j] == ids(d1)[j]);
                }
            }
            assert forall|j: int| 0 <= j < batch.len() implies w2.contains(#[trigger] batch[j].id) by {
                if j < batch.len() - 1 {
                    assert(batch.drop_last()[j] == batch[j]);
                    let k = choose|k: int| 0 <= k < w1.len() && w1[k] == batch[j].id;
                    assert(w2[k] == w1[k]);
                } else {
                    assert(w2[w2.len() - 1] == m.id);
                }
            }
        }
    }
}

proof fn lemma_newest_keeps_tail(w: Seq<Seq<char>>, y: Seq<Seq<char>>, i: int)
    requires
        y.len() <= MAX_PREVIOUS_MESSAGES,
        0 <= i < y.len(),
    ensures
        newest(w + y).contains(y[i]),
{
    let x = w + y;
    assert(x[w.len() + i] == y[i]);
    if x.len() > MAX_PREVIOUS_MESSAGES {
        let s = x.len() - MAX_PREVIOUS_MESSAGES;
        assert(newest(x)[w.len() + i - s] == x[w.len() + i]);
    } else {
        assert(newest(x)[w.len() + i] == y[i]);
    }
}

/// Within one batch of at most [`MAX_PREVIOUS_MESSAGES`] items no id is
/// delivered twice, and every id delivered stays in the window afterwards.
pub proof fn lemma_sift_batch_distinct(w: Seq<Seq<char>>, batch: Seq<MessageView>)
    requires
        window_wf(w),
        batch.len() <= MAX_PREVIOUS_MESSAGES,
    ensures
        sift(w, batch).1.len() <= batch.len(),
        ids(sift(w, batch).1).no_duplicates(),
        forall|i: int| 0 <= i < sift(w, batch).1.len() ==> sift(w, batch).0.contains(#[trigger] sift(w, batch).1[i].id),
    decreases batch.len(),
{
    if batch.len() > 0 {
        let (w1, d1) = sift(w, batch.drop_last());
        let (w2, d2) = sift(w, batch);
        let m = batch.last();
        lemma_sift_batch_distinct(w, batch.drop_last());
        lemma_sift_fifo(w, batch.drop_last());
        lemma_sift_fifo(w, batch);
        if !w1.contains(m.id) {
            let s = ids(d2);
            assert forall|i: int, j: int| 0 <= i < j < s.len() implies s[i] != s[j] by {
                assert(s[i] == ids(d1)[i]);
                if j == s.len() - 1 {
                    assert(d1[i] == d2[i]);
                    assert(w1.contains(d1[i].id));
                } else {
                    assert(s[j] == ids(d1)[j]);
                }
            }
            assert forall|i: int| 0 <= i < d2.len() implies w2.contains(#[trigger] d2[i].id) by {
                assert(ids(d2)[i] == d2[i].id);
                lemma_newest_keeps_tail(w, ids(d2), i);
            }
        }
    }
}

/// Polled twice in a row, with room in the window for all that is delivered:
/// the second batch delivers no id that the first delivered or that the window
/// held before, so each message id is delivered once.
pub proof fn lemma_dedup_across_batches(w: Seq<Seq<char>>, first: Seq<MessageView>, second: Seq<MessageView>)
    requires
        window_wf(w),
        w.len() + sift(w, first).1.len() + sift(sift(w, first).0, second).1.len() <= MAX_PREVIOUS_MESSAGES,
    ensures
        forall|i: int, j: int|
            0 <= i < sift(w, first).1.len() && 0 <= j < sift(sift(w, first).0, second).1.len()
                ==> (#[trigger] sift(w, first).1[i]).id != (#[trigger] sift(sift(w, first).0, second).1[j]).id,
        forall|j: int|
            0 <= j < sift(sift(w, first).0, second).1.len() ==> !w.contains(
                (#[trigger] sift(sift(w, first).0, second).1[j]).id,
            ),
{
    let (w1, d1) = sift(w, first);
    lemma_sift_within_capacity(w, first);
    lemma_sift_fifo(w, first);
    lemma_sift_within_capacity(w1, second);
    let d2 = sift(w1, second).1;
    assert forall|i: int, j: int| 0 <= i < d1.len() && 0 <= j < d2.len() implies (#[trigger] d1[i]).id != (
    #[trigger] d2[j]).id by {
        assert(w1[w.len() + i] == ids(d1)[i]);
        assert(w1.contains(d1[i].id));
    }
    assert forall|j: int| 0 <= j < d2.len() implies !w.contains((#[trigger] d2[j]).id) by {
        if w.contains(d2[j].id) {
            let k = choose|k: int| 0 <= k < w.len() && w[k] == d2[j].id;
            assert(w1[k] == w[k]);
        }
    }
}

impl PreviousMessages {
    pub fn new() -> (r: PreviousMessages)
        ensures
            r@ == Seq::<Seq<char>>::empty(),
    {
        let r = PreviousMessages { message_ids: VecDeque::new() };
        assert(r@ =~= Seq::<Seq<char>>::empty());
        r
    }

    /// Number of ids held.
    pub fn len(&self) -> (r: usize)
        ensures
            r == self@.len(),
    {
        self.message_ids.len()
    }

    /// Whether the window holds `id`.
    pub fn holds(&self, id: &String) -> (r: bool)
        ensures
            r == self@.contains(id@),
    {
        let mut i: usize = 0;
        while i < self.message_ids.len()
            invariant
                i <= self@.len(),
                forall|k: int| 0 <= k < i ==> self@[k] != id@,
            decreases self@.len() - i,
        {
            if self.message_ids[i].eq(id) {
                assert(self@[i as int] == id@);
                return true;
            }
            i = i + 1;
        }
        false
    }

    /// Remembers `id`, letting the oldest id go once over capacity.
    pub fn remember_id(&mut self, id: String)
        ensures
            final(self)@ == remember(old(self)@, id@),
    {
        let ghost w = self@;
        self.message_ids.push_back(id);
        assert(self@ =~= w.push(id@));
        if self.message_ids.len() > MAX_PREVIOUS_MESSAGES {
            let _ = self.message_ids.pop_front();
            assert(self@ =~= w.push(id@).drop_first());
        }
    }

    /// Delivers the messages of a batch whose ids the window does not hold at
    /// that point, in order, and remembers their ids.
    pub fn sift_batch(&mut self, batch: Vec<UnifiedMessage>) -> (r: Vec<UnifiedMessage>)
        requires
            window_wf(old(self)@),
        ensures
            final(self)@ == sift(old(self)@, messages_view(batch@)).0,
            messages_view(r@) == sift(old(self)@, messages_view(batch@)).1,
            window_wf(final(self)@),
    {
        let ghost w0 = self@;
        let ghost all = messages_view(batch@);
        let mut rest = batch;
        let n = rest.len();
        let mut out: Vec<UnifiedMessage> = Vec::new();
        let mut k: usize = 0;
        assert(all.take(0) =~= Seq::<MessageView>::empty());
        assert(messages_view(out@) =~= Seq::<MessageView>::empty());
        while rest.len() > 0
            invariant
                k <= all.len(),
                all.len() == n,
                messages_view(rest@) == all.skip(k as int),
                self@ == sift(w0, all.take(k as int)).0,
                messages_view(out@) == sift(w0, all.take(k as int)).1,
            decreases rest@.len(),
        {
            assert(messages_view(rest@).len() == rest@.len());
            assert(k < all.len());
            assert(all.skip(k as int)[0] == rest@[0]@);
            let ghost old_rest = rest@;
            let m = rest.remove(0);
            assert forall|i: int| 0 <= i < rest@.len() implies messages_view(rest@)[i] == all.skip(k + 1)[i] by {
                assert(rest@[i] == old_rest[i + 1]);
                assert(messages_view(old_rest)[i + 1] == all.skip(k as int)[i + 1]);
            }
            assert(all.take(k + 1).drop_last() =~= all.take(k as int));
            assert(all.take(k + 1).last() == all.skip(k as int)[0]);
            assert(messages_view(rest@) =~= all.skip(k + 1));
            if !self.holds(&m.id) {
                self.remember_id(m.id.clone());
                let ghost before = messages_view(out@);
                out.push(m);
                assert(messages_view(out@) =~= before.push(m@));
            }
            k = k + 1;
        }
        assert(all.take(k as int) =~= all);
        proof {
            lemma_sift_fifo(w0, all);
        }
        out
    }
}

/// Keeps the newest [`MAX_PREVIOUS_MESSAGES`] items of a batch.
pub fn truncate_batch(batch: Vec<UnifiedMessage>) -> (r: Vec<UnifiedMessage>)
    ensures
        messages_view(r@) == truncated(messages_view(batch@)),
{
    let mut data = batch;
    if data.len() > MAX_PREVIOUS_MESSAGES {
        let at = data.len() - MAX_PREVIOUS_MESSAGES;
        let tail = data.split_off(at);
        assert(messages_view(tail@) =~= messages_view(batch@).skip(at as int));
        tail
    } else {
        data
    }
}

/// What a polling session does when its interval elapses.
#[derive(Clone, Debug)]
pub enum PollTick {
    /// Cancellation was requested: leave the loop.
    Stop,
    /// Fetch the next batch with this request.
    Fetch(ChatRequest),
    /// Nothing can be fetched this cycle.
    Skip(PollError),
}

/// A polling session: the video it follows, with its current token, and the
/// window of recently delivered ids.
pub struct YoutubePoller {
    pub video: BaseVideoProperties,
    pub previous: PreviousMessages,
}

impl YoutubePoller {
    /// A session on a resolved video, with an empty window.
    pub fn new(video: BaseVideoProperties) -> (r: YoutubePoller)
        ensures
            r.video == video,
            r.window() == Seq::<Seq<char>>::empty(),
    {
        YoutubePoller { video, previous: PreviousMessages::new() }
    }

    /// Ids the session remembers, oldest first.
    pub closed spec fn window(&self) -> Seq<Seq<char>> {
        self.previous@
    }

    pub open spec fn wf(&self) -> bool {
        window_wf(self.window())
    }

    /// Decides one interval tick: stop once cancellation is requested, else
    /// fetch with the session's current token, or skip while it has none.
    pub fn on_tick(&self, cancelled: bool) -> (r: PollTick)
        ensures
            cancelled ==> r is Stop,
            !cancelled && self.video.continuation is None ==> r == PollTick::Skip(PollError::NotLive),
            !cancelled && self.video.continuation is Some ==> r is Fetch,
            r matches PollTick::Fetch(q) ==> self.video.continuation matches Some(c) && q.continuation@ == c@
                && q.url@ == live_chat_url(self.video.api_key@) && q.client_version@ == self.video.client_version@,
    {
        if cancelled {
            return PollTick::Stop;
        }
        match self.video.next_request() {
            Ok(q) => PollTick::Fetch(q),
            Err(e) => PollTick::Skip(e),
        }
    }

    /// Takes in one poll's response. On success the session's token becomes
    /// the server's next one, and the newest items of the batch whose ids the
    /// window does not hold are returned for broadcast; a failed cycle changes
    /// nothing.
    pub fn on_response(&mut self, resp: &LiveChatResponse) -> (r: Result<Vec<UnifiedMessage>, PollError>)
        requires
            old(self).wf(),
        ensures
            final(self).wf(),
            match (r, next_token(resp.continuations)) {
                (Ok(delivered), Ok(token)) => {
                    let step = sift(old(self).window(), truncated(chat_messages(actions_of(resp.actions))));
                    &&& final(self).video.continuation matches Some(c) && c@ == token
                    &&& final(self).window() == step.0
                    &&& messages_view(delivered@) == step.1
                    &&& final(self).video.video_id == old(self).video.video_id
                    &&& final(self).video.api_key == old(self).video.api_key
                    &&& final(self).video.client_version == old(self).video.client_version
                },
                (Err(e), Err(f)) => e == f && *final(self) == *old(self),
                _ => false,
            },
    {
        match read_live_chat(resp) {
            Ok((batch, token)) => {
                self.video.continuation = Some(token);
                let recent = truncate_batch(batch);
                let delivered = self.previous.sift_batch(recent);
                Ok(delivered)
            },
            Err(e) => Err(e),
        }
    }
}

} // verus!
