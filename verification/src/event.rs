//! The update protocol: one event type per distinguishable inbound event
//! kind, each knowing how to fold itself into the store.
//!
//! Every event implements [`CacheUpdate`]. The trait couples the executable
//! update with two specification functions: `apply_spec` gives the store's
//! abstract value after the event, and `output_spec` the abstract value of
//! what the update hands back (commonly the prior state of the entity the
//! event replaced). Updates never fail: an event referencing an unknown
//! entity is an idempotent no-op, since the cache only mirrors what it has
//! already observed.

use vstd::prelude::*;

verus! {

use crate::cache::{Cache, CacheView, channel_messages_wf};
use crate::channel::{Channel, ChannelView, GroupView};
use crate::guild::{Emoji, Guild, GuildView, Member, MemberView, PartialGuild, Role, VoiceState};
use crate::id::{ChannelId, GuildId, MessageId, RoleId, UserId};
use crate::idmap::IdMap;
use crate::message::{Embed, Message, MessageType, MessageView};
use crate::user::{CurrentUser, Presence, User};

/// An inbound event that can fold itself into the store.
pub trait CacheUpdate: Sized {
    /// What the update hands back: commonly the prior state of the entity
    /// the event replaced, sometimes nothing meaningful.
    type Output: View;

    /// The store's abstract value after this event is applied to `pre`.
    spec fn apply_spec(&self, pre: CacheView) -> CacheView;

    /// The abstract value of what the update hands back when applied to
    /// `pre`, if anything.
    spec fn output_spec(&self, pre: CacheView) -> Option<<Self::Output as View>::V>;

    /// Folds the event into the store.
    fn update(&mut self, cache: &mut Cache) -> (r: Option<Self::Output>)
        requires
            old(cache)@.wf(),
        ensures
            final(cache)@.wf(),
            final(cache)@ == old(self).apply_spec(old(cache)@),
            match r {
                Some(o) => old(self).output_spec(old(cache)@) == Some(o@),
                None => old(self).output_spec(old(cache)@) is None,
            },
    ;
}

impl Cache {
    /// Updates the cache with an event's update implementation, returning
    /// whatever that implementation yields.
    pub fn update<E: CacheUpdate>(&mut self, e: &mut E) -> (r: Option<E::Output>)
        requires
            old(self)@.wf(),
        ensures
            final(self)@.wf(),
            final(self)@ == old(e).apply_spec(old(self)@),
            match r {
                Some(o) => old(e).output_spec(old(self)@) == Some(o@),
                None => old(e).output_spec(old(self)@) is None,
            },
    {
        e.update(self)
    }
}

/// One channel's eviction queue, or the empty queue where the channel has no
/// cached messages.
pub open spec fn queue_of(s: CacheView, c: u64) -> Seq<u64> {
    if s.queues.contains_key(c) {
        s.queues[c]
    } else {
        Seq::empty()
    }
}

/// One channel's message table, or the empty table where the channel has no
/// cached messages.
pub open spec fn msgs_of(s: CacheView, c: u64) -> Map<u64, MessageView> {
    if s.messages.contains_key(c) {
        s.messages[c]
    } else {
        Map::empty()
    }
}

/// Removing a value from a duplicate-free sequence removes exactly that
/// value, keeps the order duplicate-free, and shortens the sequence by one
/// when the value was present.
pub proof fn lemma_remove_value(q: Seq<u64>, x: u64)
    requires
        q.no_duplicates(),
    ensures
        q.remove_value(x).no_duplicates(),
        !q.remove_value(x).contains(x),
        forall|y: u64| y != x ==> (q.remove_value(x).contains(y) <==> q.contains(y)),
        q.contains(x) ==> q.remove_value(x).len() == q.len() - 1,
        !q.contains(x) ==> q.remove_value(x) == q,
{
    q.index_of_first_ensures(x);
    if q.contains(x) {
        let i = q.index_of_first(x)->Some_0;
        let rem = q.remove(i);
        assert forall|a: int, b: int| 0 <= a < b < rem.len() implies rem[a] != rem[b] by {
            let qa: int = if a < i { a } else { a + 1 };
            let qb: int = if b < i { b } else { b + 1 };
            assert(rem[a] == q[qa]);
            assert(rem[b] == q[qb]);
        }
        assert forall|j: int| 0 <= j < rem.len() implies rem[j] != x by {
            let qj: int = if j < i { j } else { j + 1 };
            assert(rem[j] == q[qj]);
            if qj != i && q[qj] == x {
                assert(q[i] == x);
            }
        }
        assert forall|y: u64| y != x && rem.contains(y) implies q.contains(y) by {
            let j = choose|j: int| 0 <= j < rem.len() && rem[j] == y;
            let qj: int = if j < i { j } else { j + 1 };
            assert(q[qj] == y);
        }
        assert forall|y: u64| y != x && q.contains(y) implies rem.contains(y) by {
            let j = choose|j: int| 0 <= j < q.len() && q[j] == y;
            assert(j != i);
            if j < i {
                assert(rem[j] == y);
            } else {
                assert(rem[j - 1] == y);
            }
        }
    }
}

/// The first index at which `x` stands in `q`, scanned from the front.
fn scan_first(q: &Vec<u64>, x: u64) -> (r: Option<usize>)
    ensures
        match r {
            Some(i) => i < q@.len() && q@[i as int] == x && (forall|j: int|
                0 <= j < i ==> q@[j] != x) && q@.index_of_first(x) == Some(i as int),
            None => !q@.contains(x) && q@.index_of_first(x) is None,
        },
{
    let mut i: usize = 0;
    while i < q.len()
        invariant
            i <= q@.len(),
            forall|j: int| 0 <= j < i ==> q@[j] != x,
        decreases q@.len() - i,
    {
        if q[i] == x {
            proof {
                q@.index_of_first_ensures(x);
                assert(q@[i as int] == x);
                assert(q@.contains(x));
                assert(q@.index_of_first(x) is Some);
                let f = q@.index_of_first(x)->Some_0;
                assert(q@[f] == x);
                assert(forall|j: int| 0 <= j < f ==> q@[j] != x);
                if f < i {
                    assert(q@[f] != x);
                }
                assert(f == i);
            }
            return Some(i);
        }
        i = i + 1;
    }
    proof {
        q@.index_of_first_ensures(x);
        if q@.contains(x) {
            let j = choose|j: int| 0 <= j < q@.len() && q@[j] == x;
            assert(q@[j] != x);
        }
    }
    None
}

/// The queue-and-table agreement survives creating one message in a channel
/// that is at or below its capacity, whether or not the oldest entry is
/// evicted to make room.
pub(crate) proof fn lemma_after_create(q1: Seq<u64>, d1: Map<u64, MessageView>, c: u64, mv: MessageView, k: nat)
    requires
        k > 0,
        q1.no_duplicates(),
        !q1.contains(mv.id.0),
        forall|y: u64| #[trigger] q1.contains(y) <==> d1.contains_key(y),
        forall|y: u64| #[trigger] d1.contains_key(y) ==> d1[y].id == MessageId(y)
            && d1[y].channel_id == ChannelId(c),
        mv.channel_id == ChannelId(c),
    ensures
        q1.len() >= k ==> channel_messages_wf(
            q1.drop_first().push(mv.id.0),
            d1.remove(q1.first()).insert(mv.id.0, mv),
            c,
        ),
        q1.len() < k ==> channel_messages_wf(q1.push(mv.id.0), d1.insert(mv.id.0, mv), c),
{
    let m = mv.id.0;
    if q1.len() >= k {
        let qt = q1.drop_first();
        let q2 = qt.push(m);
        let d2 = d1.remove(q1.first()).insert(m, mv);
        assert forall|a: int, b: int| 0 <= a < b < q2.len() implies q2[a] != q2[b] by {
            if b < qt.len() {
                assert(q2[a] == q1[a + 1]);
                assert(q2[b] == q1[b + 1]);
            } else {
                assert(q2[b] == m);
                assert(q2[a] == q1[a + 1]);
                assert(q1.contains(q1[a + 1]));
            }
        }
        assert(q2.no_duplicates());
        assert forall|y: u64| #[trigger] q2.contains(y) implies d2.contains_key(y) by {
            let j = choose|j: int| 0 <= j < q2.len() && q2[j] == y;
            if j < qt.len() {
                assert(q1[j + 1] == y);
                assert(q1.contains(y));
                if y == q1.first() {
                    assert(q1[0] == y);
                }
            }
        }
        assert forall|y: u64| d2.contains_key(y) implies q2.contains(y) by {
            if y == m {
                assert(q2[q2.len() - 1] == m);
            } else {
                assert(d1.contains_key(y));
                assert(q1.contains(y));
                let j = choose|j: int| 0 <= j < q1.len() && q1[j] == y;
                assert(y != q1.first());
                assert(j != 0);
                assert(q2[j - 1] == y);
            }
        }
        assert(channel_messages_wf(q2, d2, c));
    }
    if q1.len() < k {
        let q2 = q1.push(m);
        let d2 = d1.insert(m, mv);
        assert forall|a: int, b: int| 0 <= a < b < q2.len() implies q2[a] != q2[b] by {
            if b == q2.len() - 1 {
                assert(q2[b] == m);
                assert(q1.contains(q1[a]));
            }
        }
        assert forall|y: u64| #[trigger] q2.contains(y) implies d2.contains_key(y) by {
            let j = choose|j: int| 0 <= j < q2.len() && q2[j] == y;
            if j < q1.len() {
                assert(q1.contains(y));
            }
        }
        assert forall|y: u64| d2.contains_key(y) implies q2.contains(y) by {
            if y == m {
                assert(q2[q2.len() - 1] == m);
            } else {
                assert(d1.contains_key(y));
                assert(q1.contains(y));
                let j = choose|j: int| 0 <= j < q1.len() && q1[j] == y;
                assert(q2[j] == y);
            }
        }
        assert(channel_messages_wf(q2, d2, c));
    }
}

/// A newly created message.
///
/// Applying it stores the message in its channel's table, queues its
/// identifier for eviction bookkeeping, and upserts the author's canonical
/// user record. When the channel is already at the retention cap the oldest
/// cached message is evicted and handed back; when retention is zero nothing
/// is stored at all. Re-delivery of an identifier already cached counts as
/// the newest creation: the stale entry is dropped before the new one is
/// stored.
pub struct MessageCreateEvent {
    /// The message as delivered.
    pub message: Message,
}

/// One creation's effect on a channel's eviction queue under cap `k`: any
/// stale copy of the identifier leaves, the oldest entry is popped when the
/// channel is at capacity, and the identifier joins at the back.
pub open spec fn retention_step(q: Seq<u64>, x: u64, k: nat) -> Seq<u64> {
    let q1 = q.remove_value(x);
    if q1.len() >= k {
        q1.drop_first().push(x)
    } else {
        q1.push(x)
    }
}

impl MessageCreateEvent {
    /// The channel's eviction queue after this event.
    pub open spec fn queue_after(&self, pre: CacheView) -> Seq<u64> {
        retention_step(
            queue_of(pre, self.message.channel_id.0),
            self.message.id.0,
            pre.settings.max_messages as nat,
        )
    }

    /// The channel's message table after this event.
    pub open spec fn msgs_after(&self, pre: CacheView) -> Map<u64, MessageView> {
        let q1 = queue_of(pre, self.message.channel_id.0).remove_value(self.message.id.0);
        let d1 = msgs_of(pre, self.message.channel_id.0).remove(self.message.id.0);
        if q1.len() >= pre.settings.max_messages {
            d1.remove(q1.first()).insert(self.message.id.0, self.message@)
        } else {
            d1.insert(self.message.id.0, self.message@)
        }
    }

    /// Whether applying this event to `pre` evicts a cached message.
    pub open spec fn evicts(&self, pre: CacheView) -> bool {
        pre.settings.max_messages > 0 && queue_of(pre, self.message.channel_id.0).remove_value(
            self.message.id.0,
        ).len() >= pre.settings.max_messages
    }
}

impl CacheUpdate for MessageCreateEvent {
    type Output = Message;

    open spec fn apply_spec(&self, pre: CacheView) -> CacheView {
        let a = self.message.author;
        let withu = CacheView { users: pre.users.insert(a.id.0, a), ..pre };
        if pre.settings.max_messages == 0 {
            withu
        } else {
            CacheView {
                queues: withu.queues.insert(self.message.channel_id.0, self.queue_after(pre)),
                messages: withu.messages.insert(self.message.channel_id.0, self.msgs_after(pre)),
                ..withu
            }
        }
    }

    open spec fn output_spec(&self, pre: CacheView) -> Option<MessageView> {
        if self.evicts(pre) {
            let q1 = queue_of(pre, self.message.channel_id.0).remove_value(self.message.id.0);
            Some(msgs_of(pre, self.message.channel_id.0)[q1.first()])
        } else {
            None
        }
    }

    fn update(&mut self, cache: &mut Cache) -> (r: Option<Message>) {
        let ghost pre = cache@;
        let c = self.message.channel_id;
        let m = self.message.id;
        cache.update_user_entry(&self.message.author);
        let max = cache.settings.max_messages;
        if max == 0 {
            proof {
                assert(cache@ =~= self.apply_spec(pre));
                assert forall|x: u64| #[trigger] cache@.messages.contains_key(x) implies
                    channel_messages_wf(cache@.queues[x], cache@.messages[x], x) by {
                    assert(pre.messages.contains_key(x));
                }
                assert(cache@.wf());
            }
            return None;
        }
        let mut msgs: IdMap<Message> = match cache.messages.remove(c.0) {
            Some(t) => t,
            None => IdMap::new(),
        };
        let mut q: Vec<u64> = match cache.message_queue.remove(c.0) {
            Some(t) => t,
            None => Vec::new(),
        };
        let ghost q0 = queue_of(pre, c.0);
        let ghost d0 = msgs_of(pre, c.0);
        proof {
            assert(q@ == q0);
            assert(msgs@ =~= d0);
            if pre.messages.contains_key(c.0) {
                assert(channel_messages_wf(q0, d0, c.0));
            } else {
                assert(!pre.queues.contains_key(c.0));
                assert(forall|y: u64| !q0.contains(y));
            }
            lemma_remove_value(q0, m.0);
        }
        if let Some(i) = scan_first(&q, m.0) {
            q.remove(i);
        }
        msgs.remove(m.0);
        let ghost q1 = q0.remove_value(m.0);
        let ghost d1 = d0.remove(m.0);
        proof {
            assert(q@ == q1);
            assert(msgs@ =~= d1);
            assert forall|y: u64| #[trigger] q1.contains(y) implies d1.contains_key(y) by {
                assert(q0.contains(y));
            }
            assert forall|y: u64| d1.contains_key(y) implies q1.contains(y) by {
                assert(d0.contains_key(y));
                assert(q0.contains(y));
            }
            lemma_after_create(q1, d1, c.0, self.message@, max as nat);
        }
        let mut evicted: Option<Message> = None;
        if q.len() >= max {
            let victim = q.remove(0);
            proof {
                assert(victim == q1.first());
                assert(q1.contains(victim));
                assert(q@ =~= q1.drop_first());
            }
            evicted = msgs.remove(victim);
            proof {
                assert(evicted is Some);
            }
        }
        q.push(m.0);
        msgs.insert(m.0, self.message.clone());
        proof {
            assert(q@ =~= self.queue_after(pre));
            assert(msgs@ =~= self.msgs_after(pre));
        }
        cache.messages.insert(c.0, msgs);
        cache.message_queue.insert(c.0, q);
        proof {
            assert(cache@ =~= self.apply_spec(pre));
            let post = cache@;
            assert forall|x: u64| #[trigger] post.messages.contains_key(x) implies
                channel_messages_wf(post.queues[x], post.messages[x], x) by {
                if x != c.0 {
                    assert(pre.messages.contains_key(x));
                } else {
                    assert(channel_messages_wf(self.queue_after(pre), self.msgs_after(pre), c.0));
                }
            }
            assert(post.wf());
        }
        evicted
    }
}

/// A partial edit of a cached message: only the fields the payload carries
/// change, and every other previously-cached field is left as it was. A
/// message the cache never observed is silently ignored, since the store
/// only mirrors messages it has seen.
pub struct MessageUpdateEvent {
    /// The edited message.
    pub id: MessageId,
    /// The channel the message lives in.
    pub channel_id: ChannelId,
    /// The new text, when the edit carries one.
    pub content: Option<String>,
    /// The new edit timestamp, when the edit carries one.
    pub edited_timestamp: Option<String>,
    /// The new embeds, when the edit carries them.
    pub embeds: Option<Vec<Embed>>,
    /// The new kind, when the edit carries one.
    pub kind: Option<MessageType>,
    /// The new everyone-mention flag, when the edit carries one.
    pub mention_everyone: Option<bool>,
    /// The new role mentions, when the edit carries them.
    pub mention_roles: Option<Vec<RoleId>>,
    /// The new user mentions, when the edit carries them.
    pub mentions: Option<Vec<User>>,
    /// The new pin flag, when the edit carries one.
    pub pinned: Option<bool>,
    /// The new text-to-speech flag, when the edit carries one.
    pub tts: Option<bool>,
}

impl MessageUpdateEvent {
    /// The cached message after this edit: carried fields replaced, all
    /// others exactly as before.
    pub open spec fn merged(&self, m: MessageView) -> MessageView {
        MessageView {
            content: match self.content {
                Some(x) => x,
                None => m.content,
            },
            edited_timestamp: match self.edited_timestamp {
                Some(x) => Some(x),
                None => m.edited_timestamp,
            },
            embeds: match self.embeds {
                Some(x) => x@,
                None => m.embeds,
            },
            kind: match self.kind {
                Some(x) => x,
                None => m.kind,
            },
            mention_everyone: match self.mention_everyone {
                Some(x) => x,
                None => m.mention_everyone,
            },
            mention_roles: match self.mention_roles {
                Some(x) => x@,
                None => m.mention_roles,
            },
            mentions: match self.mentions {
                Some(x) => x@,
                None => m.mentions,
            },
            pinned: match self.pinned {
                Some(x) => x,
                None => m.pinned,
            },
            tts: match self.tts {
                Some(x) => x,
                None => m.tts,
            },
            ..m
        }
    }
}

impl CacheUpdate for MessageUpdateEvent {
    type Output = Message;

    open spec fn apply_spec(&self, pre: CacheView) -> CacheView {
        let c = self.channel_id.0;
        let m = self.id.0;
        if pre.messages.contains_key(c) && pre.messages[c].contains_key(m) {
            CacheView {
                messages: pre.messages.insert(
                    c,
                    pre.messages[c].insert(m, self.merged(pre.messages[c][m])),
                ),
                ..pre
            }
        } else {
            pre
        }
    }

    open spec fn output_spec(&self, pre: CacheView) -> Option<MessageView> {
        let c = self.channel_id.0;
        let m = self.id.0;
        if pre.messages.contains_key(c) && pre.messages[c].contains_key(m) {
            Some(pre.messages[c][m])
        } else {
            None
        }
    }

    fn update(&mut self, cache: &mut Cache) -> (r: Option<Message>) {
        let ghost pre = cache@;
        let c = self.channel_id;
        let m = self.id;
        let mut msgs: IdMap<Message> = match cache.messages.remove(c.0) {
            Some(t) => t,
            None => {
                proof {
                    assert(cache@.messages =~= pre.messages);
                    assert(cache@ =~= self.apply_spec(pre));
                }
                return None;
            },
        };
        let prior: Message = match msgs.remove(m.0) {
            Some(t) => t,
            None => {
                cache.messages.insert(c.0, msgs);
                proof {
                    assert(cache@.messages =~= pre.messages);
                    assert(cache@ =~= self.apply_spec(pre));
                    assert forall|x: u64| #[trigger] cache@.messages.contains_key(x) implies
                        channel_messages_wf(cache@.queues[x], cache@.messages[x], x) by {
                        assert(pre.messages.contains_key(x));
                    }
                    assert(cache@.wf());
                }
                return None;
            },
        };
        let merged = Message {
            id: prior.id,
            attachments: crate::message::clone_attachments(&prior.attachments),
            author: prior.author.clone(),
            channel_id: prior.channel_id,
            guild_id: prior.guild_id,
            content: match &self.content {
                Some(x) => x.clone(),
                None => prior.content.clone(),
            },
            edited_timestamp: match &self.edited_timestamp {
                Some(x) => Some(x.clone()),
                None => match &prior.edited_timestamp {
                    Some(x) => Some(x.clone()),
                    None => None,
                },
            },
            embeds: match &self.embeds {
                Some(x) => crate::message::clone_embeds(x),
                None => crate::message::clone_embeds(&prior.embeds),
            },
            kind: match self.kind {
                Some(x) => x,
                None => prior.kind,
            },
            mention_everyone: match self.mention_everyone {
                Some(x) => x,
                None => prior.mention_everyone,
            },
            mention_roles: match &self.mention_roles {
                Some(x) => crate::message::clone_role_ids(x),
                None => crate::message::clone_role_ids(&prior.mention_roles),
            },
            mentions: match &self.mentions {
                Some(x) => crate::message::clone_users(x),
                None => crate::message::clone_users(&prior.mentions),
            },
            pinned: match self.pinned {
                Some(x) => x,
                None => prior.pinned,
            },
            reactions: crate::message::clone_reactions(&prior.reactions),
            timestamp: prior.timestamp.clone(),
            tts: match self.tts {
                Some(x) => x,
                None => prior.tts,
            },
        };
        proof {
            assert(merged@ =~= self.merged(pre.messages[c.0][m.0]));
        }
        msgs.insert(m.0, merged);
        proof {
            assert(msgs@ =~= pre.messages[c.0].insert(m.0, self.merged(pre.messages[c.0][m.0])));
        }
        cache.messages.insert(c.0, msgs);
        proof {
            assert(cache@.messages =~= self.apply_spec(pre).messages);
            assert(cache@ =~= self.apply_spec(pre));
            let post = cache@;
            assert forall|x: u64| #[trigger] post.messages.contains_key(x) implies
                channel_messages_wf(post.queues[x], post.messages[x], x) by {
                assert(pre.messages.contains_key(x));
                if x == c.0 {
                    let d0 = pre.messages[c.0];
                    let d2 = post.messages[c.0];
                    assert forall|y: u64| #[trigger] d2.contains_key(y) implies d0.contains_key(
                        y,
                    ) by {}
                    assert(channel_messages_wf(post.queues[x], d2, x));
                }
            }
            assert(post.wf());
        }
        Some(prior)
    }
}

/// A bulk deletion: each named identifier leaves the channel's message table
/// and its eviction queue, and identifiers that are not cached are ignored.
pub struct MessageDeleteBulkEvent {
    /// The channel the messages were deleted in.
    pub channel_id: ChannelId,
    /// The deleted messages.
    pub ids: Vec<MessageId>,
}

/// A channel's message table after removing each of `ids` in turn.
pub open spec fn bulk_removed_msgs(d: Map<u64, MessageView>, ids: Seq<u64>) -> Map<u64, MessageView>
    decreases ids.len(),
{
    if ids.len() == 0 {
        d
    } else {
        bulk_removed_msgs(d, ids.drop_last()).remove(ids.last())
    }
}

/// A channel's eviction queue after removing each of `ids` in turn.
pub open spec fn bulk_removed_queue(q: Seq<u64>, ids: Seq<u64>) -> Seq<u64>
    decreases ids.len(),
{
    if ids.len() == 0 {
        q
    } else {
        bulk_removed_queue(q, ids.drop_last()).remove_value(ids.last())
    }
}

impl CacheUpdate for MessageDeleteBulkEvent {
    type Output = ();

    open spec fn apply_spec(&self, pre: CacheView) -> CacheView {
        let c = self.channel_id.0;
        let ids = self.ids@.map_values(|m: MessageId| m.0);
        if pre.messages.contains_key(c) {
            CacheView {
                messages: pre.messages.insert(c, bulk_removed_msgs(pre.messages[c], ids)),
                queues: pre.queues.insert(c, bulk_removed_queue(pre.queues[c], ids)),
                ..pre
            }
        } else {
            pre
        }
    }

    open spec fn output_spec(&self, pre: CacheView) -> Option<()> {
        None
    }

    fn update(&mut self, cache: &mut Cache) -> (r: Option<()>) {
        let ghost pre = cache@;
        let c = self.channel_id;
        let ghost ids = self.ids@.map_values(|m: MessageId| m.0);
        let mut msgs: IdMap<Message> = match cache.messages.remove(c.0) {
            Some(t) => t,
            None => {
                proof {
                    assert(cache@.messages =~= pre.messages);
                    assert(cache@ =~= self.apply_spec(pre));
                }
                return None;
            },
        };
        let mut q: Vec<u64> = match cache.message_queue.remove(c.0) {
            Some(t) => t,
            None => {
                proof {
                    assert(false);
                }
                Vec::new()
            },
        };
        proof {
            assert(pre.messages.contains_key(c.0));
            assert(q@ == pre.queues[c.0]);
            assert(msgs@ == pre.messages[c.0]);
            assert(channel_messages_wf(q@, msgs@, c.0));
        }
        let mut i: usize = 0;
        while i < self.ids.len()
            invariant
                i <= self.ids@.len(),
                ids == self.ids@.map_values(|m: MessageId| m.0),
                msgs@ =~= bulk_removed_msgs(pre.messages[c.0], ids.subrange(0, i as int)),
                q@ =~= bulk_removed_queue(pre.queues[c.0], ids.subrange(0, i as int)),
                channel_messages_wf(q@, msgs@, c.0),
            decreases self.ids@.len() - i,
        {
            let m = self.ids[i];
            let ghost q_before = q@;
            proof {
                lemma_remove_value(q@, m.0);
            }
            msgs.remove(m.0);
            if let Some(j) = scan_first(&q, m.0) {
                q.remove(j);
            }
            proof {
                assert(q@ == q_before.remove_value(m.0));
                assert(ids.subrange(0, i + 1 as int).drop_last() =~= ids.subrange(0, i as int));
                assert(ids.subrange(0, i + 1 as int).last() == m.0);
                assert(msgs@ =~= bulk_removed_msgs(pre.messages[c.0], ids.subrange(0, i + 1 as int)));
                assert(q@ =~= bulk_removed_queue(pre.queues[c.0], ids.subrange(0, i + 1 as int)));
                let d1 = msgs@;
                let q1 = q@;
                assert forall|y: u64| #[trigger] q1.contains(y) implies d1.contains_key(y) by {
                    assert(q_before.contains(y));
                }
                assert forall|y: u64| d1.contains_key(y) implies q1.contains(y) by {
                    assert(q_before.contains(y));
                }
                assert(channel_messages_wf(q@, msgs@, c.0));
            }
            i = i + 1;
        }
        proof {
            assert(ids.subrange(0, ids.len() as int) =~= ids);
        }
        cache.messages.insert(c.0, msgs);
        cache.message_queue.insert(c.0, q);
        proof {
            assert(cache@ =~= self.apply_spec(pre));
            let post = cache@;
            assert forall|x: u64| #[trigger] post.messages.contains_key(x) implies
                channel_messages_wf(post.queues[x], post.messages[x], x) by {
                if x != c.0 {
                    assert(pre.messages.contains_key(x));
                }
            }
            assert(post.wf());
        }
        None
    }
}

/// A deleted message: the identifier leaves both the channel's message table
/// and its eviction queue. An identifier that is not cached is ignored, and
/// nothing is handed back either way.
pub struct MessageDeleteEvent {
    /// The channel the message was deleted in.
    pub channel_id: ChannelId,
    /// The deleted message.
    pub message_id: MessageId,
}

impl CacheUpdate for MessageDeleteEvent {
    type Output = ();

    open spec fn apply_spec(&self, pre: CacheView) -> CacheView {
        let c = self.channel_id.0;
        let m = self.message_id.0;
        if pre.messages.contains_key(c) {
            CacheView {
                messages: pre.messages.insert(c, pre.messages[c].remove(m)),
                queues: pre.queues.insert(c, pre.queues[c].remove_value(m)),
                ..pre
            }
        } else {
            pre
        }
    }

    open spec fn output_spec(&self, pre: CacheView) -> Option<()> {
        None
    }

    fn update(&mut self, cache: &mut Cache) -> (r: Option<()>) {
        let ghost pre = cache@;
        let c = self.channel_id;
        let m = self.message_id;
        match cache.messages.remove(c.0) {
            Some(mut msgs) => {
                let mut q: Vec<u64> = match cache.message_queue.remove(c.0) {
                    Some(t) => t,
                    None => {
                        proof {
                            assert(false);
                        }
                        Vec::new()
                    },
                };
                proof {
                    assert(pre.messages.contains_key(c.0));
                    assert(q@ == pre.queues[c.0]);
                    assert(msgs@ == pre.messages[c.0]);
                    assert(channel_messages_wf(q@, msgs@, c.0));
                    lemma_remove_value(q@, m.0);
                }
                msgs.remove(m.0);
                if let Some(i) = scan_first(&q, m.0) {
                    q.remove(i);
                }
                let ghost q1 = pre.queues[c.0].remove_value(m.0);
                let ghost d1 = pre.messages[c.0].remove(m.0);
                proof {
                    assert(q@ == q1);
                    assert(msgs@ =~= d1);
                }
                cache.messages.insert(c.0, msgs);
                cache.message_queue.insert(c.0, q);
                proof {
                    assert(cache@ =~= self.apply_spec(pre));
                    let post = cache@;
                    assert forall|x: u64| #[trigger] post.messages.contains_key(x) implies
                        channel_messages_wf(post.queues[x], post.messages[x], x) by {
                        if x != c.0 {
                            assert(pre.messages.contains_key(x));
                        } else {
                            assert forall|y: u64| #[trigger] q1.contains(y) implies
                                d1.contains_key(y) by {
                                assert(pre.queues[c.0].contains(y));
                            }
                            assert forall|y: u64| d1.contains_key(y) implies q1.contains(y) by {
                                assert(pre.messages[c.0].contains_key(y));
                                assert(pre.queues[c.0].contains(y));
                            }
                            assert(channel_messages_wf(q1, d1, c.0));
                        }
                    }
                    assert(post.wf());
                }
            },
            None => {
                proof {
                    assert(cache@ =~= self.apply_spec(pre));
                    assert forall|x: u64| #[trigger] cache@.messages.contains_key(x) implies
                        channel_messages_wf(cache@.queues[x], cache@.messages[x], x) by {
                        assert(pre.messages.contains_key(x));
                    }
                    assert(cache@.wf());
                }
            },
        }
        None
    }
}

/// The store after upserting one channel into the table its kind selects.
///
/// A guild channel's identifier is withdrawn from the private-channel and
/// group tables (and the other way round), so that the polymorphic lookup's
/// three tables stay disjoint; a guild channel is also recorded in its
/// owning guild's own channel table when that guild is cached.
pub open spec fn channel_upsert_spec(chv: ChannelView, pre: CacheView) -> CacheView {
    match chv {
        ChannelView::Guild(c) => {
            let base = CacheView {
                channels: pre.channels.insert(c.id.0, c),
                private_channels: pre.private_channels.remove(c.id.0),
                groups: pre.groups.remove(c.id.0),
                ..pre
            };
            if pre.guilds.contains_key(c.guild_id.0) {
                CacheView {
                    guilds: base.guilds.insert(
                        c.guild_id.0,
                        GuildView {
                            channels: pre.guilds[c.guild_id.0].channels.insert(c.id.0, c),
                            ..pre.guilds[c.guild_id.0]
                        },
                    ),
                    ..base
                }
            } else {
                base
            }
        },
        ChannelView::Private(p) => CacheView {
            private_channels: pre.private_channels.insert(p.id.0, p),
            channels: pre.channels.remove(p.id.0),
            groups: pre.groups.remove(p.id.0),
            ..pre
        },
        ChannelView::Group(g) => CacheView {
            groups: pre.groups.insert(g.channel_id.0, g),
            channels: pre.channels.remove(g.channel_id.0),
            private_channels: pre.private_channels.remove(g.channel_id.0),
            ..pre
        },
        ChannelView::Category(c) => CacheView {
            categories: pre.categories.insert(c.id.0, c),
            ..pre
        },
    }
}

/// What an upsert of `chv` replaces: the entry its kind's table held under
/// the same identifier, if any.
pub open spec fn channel_prior_spec(chv: ChannelView, pre: CacheView) -> Option<ChannelView> {
    match chv {
        ChannelView::Guild(c) => if pre.channels.contains_key(c.id.0) {
            Some(ChannelView::Guild(pre.channels[c.id.0]))
        } else {
            None
        },
        ChannelView::Private(p) => if pre.private_channels.contains_key(p.id.0) {
            Some(ChannelView::Private(pre.private_channels[p.id.0]))
        } else {
            None
        },
        ChannelView::Group(g) => if pre.groups.contains_key(g.channel_id.0) {
            Some(ChannelView::Group(pre.groups[g.channel_id.0]))
        } else {
            None
        },
        ChannelView::Category(c) => if pre.categories.contains_key(c.id.0) {
            Some(ChannelView::Category(pre.categories[c.id.0]))
        } else {
            None
        },
    }
}

/// Upserts a channel, handing back the same-kind entry it replaced.
fn upsert_channel(cache: &mut Cache, ch: &Channel) -> (r: Option<Channel>)
    requires
        old(cache)@.wf(),
    ensures
        final(cache)@.wf(),
        final(cache)@ == channel_upsert_spec(ch@, old(cache)@),
        match r {
            Some(p) => channel_prior_spec(ch@, old(cache)@) == Some(p@),
            None => channel_prior_spec(ch@, old(cache)@) is None,
        },
{
    let ghost pre = cache@;
    let r = match ch {
        Channel::Guild(c) => {
            let prior = cache.channels.insert(c.id.0, c.clone());
            cache.private_channels.remove(c.id.0);
            cache.groups.remove(c.id.0);
            match cache.guilds.remove(c.guild_id.0) {
                Some(mut gv) => {
                    gv.channels.insert(c.id.0, c.clone());
                    cache.guilds.insert(c.guild_id.0, gv);
                    proof {
                        assert(cache@.guilds =~= channel_upsert_spec(ch@, pre).guilds);
                    }
                },
                None => {
                    proof {
                        assert(cache@.guilds =~= pre.guilds);
                    }
                },
            }
            match prior {
                Some(p) => Some(Channel::Guild(p)),
                None => None,
            }
        },
        Channel::Private(p) => {
            let prior = cache.private_channels.insert(p.id.0, p.clone());
            cache.channels.remove(p.id.0);
            cache.groups.remove(p.id.0);
            match prior {
                Some(x) => Some(Channel::Private(x)),
                None => None,
            }
        },
        Channel::Group(g) => {
            let prior = cache.groups.insert(g.channel_id.0, g.clone());
            cache.channels.remove(g.channel_id.0);
            cache.private_channels.remove(g.channel_id.0);
            match prior {
                Some(x) => Some(Channel::Group(x)),
                None => None,
            }
        },
        Channel::Category(c) => {
            let prior = cache.categories.insert(c.id.0, c.clone());
            match prior {
                Some(x) => Some(Channel::Category(x)),
                None => None,
            }
        },
    };
    proof {
        assert(cache@ =~= channel_upsert_spec(ch@, pre));
        let post = cache@;
        assert forall|x: u64| #[trigger] post.messages.contains_key(x) implies
            channel_messages_wf(post.queues[x], post.messages[x], x) by {
            assert(pre.messages.contains_key(x));
        }
        assert(post.wf());
    }
    r
}

/// A newly observed channel: upserted into the table its kind selects.
pub struct ChannelCreateEvent {
    /// The channel as delivered.
    pub channel: Channel,
}

impl CacheUpdate for ChannelCreateEvent {
    type Output = Channel;

    open spec fn apply_spec(&self, pre: CacheView) -> CacheView {
        channel_upsert_spec(self.channel@, pre)
    }

    open spec fn output_spec(&self, pre: CacheView) -> Option<ChannelView> {
        channel_prior_spec(self.channel@, pre)
    }

    fn update(&mut self, cache: &mut Cache) -> (r: Option<Channel>) {
        upsert_channel(cache, &self.channel)
    }
}

/// A changed channel: the stored entry is replaced wholesale by the
/// delivered one.
pub struct ChannelUpdateEvent {
    /// The channel as delivered.
    pub channel: Channel,
}

impl CacheUpdate for ChannelUpdateEvent {
    type Output = Channel;

    open spec fn apply_spec(&self, pre: CacheView) -> CacheView {
        channel_upsert_spec(self.channel@, pre)
    }

    open spec fn output_spec(&self, pre: CacheView) -> Option<ChannelView> {
        channel_prior_spec(self.channel@, pre)
    }

    fn update(&mut self, cache: &mut Cache) -> (r: Option<Channel>) {
        upsert_channel(cache, &self.channel)
    }
}

/// A deleted channel: the entry leaves the table its kind selects, a guild
/// channel also leaves its owning guild's table, and the channel's entire
/// message cache and eviction queue are purged.
pub struct ChannelDeleteEvent {
    /// The channel as delivered.
    pub channel: Channel,
}

impl CacheUpdate for ChannelDeleteEvent {
    type Output = Channel;

    open spec fn apply_spec(&self, pre: CacheView) -> CacheView {
        let c = self.channel@.id_spec().0;
        let purged = CacheView {
            messages: pre.messages.remove(c),
            queues: pre.queues.remove(c),
            ..pre
        };
        match self.channel@ {
            ChannelView::Guild(gc) => {
                let base = CacheView { channels: purged.channels.remove(c), ..purged };
                if pre.guilds.contains_key(gc.guild_id.0) {
                    CacheView {
                        guilds: base.guilds.insert(
                            gc.guild_id.0,
                            GuildView {
                                channels: pre.guilds[gc.guild_id.0].channels.remove(c),
                                ..pre.guilds[gc.guild_id.0]
                            },
                        ),
                        ..base
                    }
                } else {
                    base
                }
            },
            ChannelView::Private(_) => CacheView {
                private_channels: purged.private_channels.remove(c),
                ..purged
            },
            ChannelView::Group(_) => CacheView { groups: purged.groups.remove(c), ..purged },
            ChannelView::Category(_) => CacheView {
                categories: purged.categories.remove(c),
                ..purged
            },
        }
    }

    open spec fn output_spec(&self, pre: CacheView) -> Option<ChannelView> {
        channel_prior_spec(self.channel@, pre)
    }

    fn update(&mut self, cache: &mut Cache) -> (r: Option<Channel>) {
        let ghost pre = cache@;
        let c = self.channel.id();
        cache.messages.remove(c.0);
        cache.message_queue.remove(c.0);
        let r = match &self.channel {
            Channel::Guild(gc) => {
                let prior = cache.channels.remove(c.0);
                match cache.guilds.remove(gc.guild_id.0) {
                    Some(mut gv) => {
                        gv.channels.remove(c.0);
                        cache.guilds.insert(gc.guild_id.0, gv);
                        proof {
                            assert(cache@.guilds =~= self.apply_spec(pre).guilds);
                        }
                    },
                    None => {
                        proof {
                            assert(cache@.guilds =~= pre.guilds);
                        }
                    },
                }
                match prior {
                    Some(p) => Some(Channel::Guild(p)),
                    None => None,
                }
            },
            Channel::Private(_) => {
                match cache.private_channels.remove(c.0) {
                    Some(x) => Some(Channel::Private(x)),
                    None => None,
                }
            },
            Channel::Group(_) => {
                match cache.groups.remove(c.0) {
                    Some(x) => Some(Channel::Group(x)),
                    None => None,
                }
            },
            Channel::Category(_) => {
                match cache.categories.remove(c.0) {
                    Some(x) => Some(Channel::Category(x)),
                    None => None,
                }
            },
        };
        proof {
            assert(cache@ =~= self.apply_spec(pre));
            let post = cache@;
            assert forall|x: u64| #[trigger] post.messages.contains_key(x) implies
                channel_messages_wf(post.queues[x], post.messages[x], x) by {
                assert(pre.messages.contains_key(x));
            }
            assert(post.wf());
        }
        r
    }
}

/// A guild value with nothing in it, used to take a delivered guild out of
/// its event.
fn blank_guild() -> Guild {
    Guild {
        id: GuildId(0),
        afk_timeout: 0,
        channels: IdMap::new(),
        emojis: IdMap::new(),
        icon: None,
        joined_at: String::new(),
        large: false,
        member_count: 0,
        members: IdMap::new(),
        name: String::new(),
        owner_id: UserId(0),
        presences: IdMap::new(),
        region: String::new(),
        roles: IdMap::new(),
        splash: None,
        voice_states: IdMap::new(),
    }
}

/// A guild that has become available, carrying its full snapshot.
///
/// Applying it withdraws the guild from the unavailable set, installs the
/// snapshot, and installs every channel the snapshot contains into the
/// store's channel table. Member records inside the snapshot name their
/// users by identifier; the user records themselves arrive through
/// member-add events.
pub struct GuildCreateEvent {
    /// The guild as delivered.
    pub guild: Guild,
}

impl CacheUpdate for GuildCreateEvent {
    type Output = ();

    open spec fn apply_spec(&self, pre: CacheView) -> CacheView {
        let g = self.guild@;
        CacheView {
            guilds: pre.guilds.insert(g.id.0, g),
            unavailable_guilds: pre.unavailable_guilds.remove(g.id.0),
            channels: pre.channels.union_prefer_right(g.channels),
            private_channels: pre.private_channels.remove_keys(g.channels.dom()),
            groups: pre.groups.remove_keys(g.channels.dom()),
            ..pre
        }
    }

    open spec fn output_spec(&self, pre: CacheView) -> Option<()> {
        None
    }

    fn update(&mut self, cache: &mut Cache) -> (r: Option<()>) {
        let ghost pre = cache@;
        let ghost g = self.guild@;
        let gid = self.guild.id;
        cache.unavailable_guilds.remove(gid.0);
        let ks = self.guild.channels.keys();
        let mut i: usize = 0;
        while i < ks.len()
            invariant
                i <= ks@.len(),
                self.guild@ == g,
                ks@.no_duplicates(),
                ks@.to_set() == g.channels.dom(),
                cache@ =~= (CacheView {
                    channels: pre.channels.union_prefer_right(
                        g.channels.restrict(ks@.subrange(0, i as int).to_set()),
                    ),
                    private_channels: pre.private_channels.remove_keys(
                        ks@.subrange(0, i as int).to_set(),
                    ),
                    groups: pre.groups.remove_keys(ks@.subrange(0, i as int).to_set()),
                    unavailable_guilds: pre.unavailable_guilds.remove(gid.0),
                    ..pre
                }),
            decreases ks@.len() - i,
        {
            let cid = ks[i];
            proof {
                assert(ks@.to_set().contains(cid));
            }
            let ch = match self.guild.channels.get(cid) {
                Some(ch) => ch,
                None => {
                    proof {
                        assert(false);
                    }
                    return None;
                },
            };
            cache.channels.insert(cid, ch.clone());
            cache.private_channels.remove(cid);
            cache.groups.remove(cid);
            proof {
                let s1 = ks@.subrange(0, i as int).to_set();
                let s2 = ks@.subrange(0, i + 1 as int).to_set();
                assert(ks@.subrange(0, i + 1 as int).drop_last() =~= ks@.subrange(0, i as int));
                assert forall|x: u64| s2.contains(x) implies (s1.contains(x) || x == cid) by {
                    let j = choose|j: int|
                        0 <= j < i + 1 && #[trigger] ks@.subrange(0, i + 1 as int)[j] == x;
                    if j < i {
                        assert(ks@.subrange(0, i as int)[j] == x);
                    }
                }
                assert forall|x: u64| s1.contains(x) implies s2.contains(x) by {
                    let j = choose|j: int|
                        0 <= j < i && #[trigger] ks@.subrange(0, i as int)[j] == x;
                    assert(ks@.subrange(0, i + 1 as int)[j] == x);
                }
                assert(ks@.subrange(0, i + 1 as int)[i as int] == cid);
                assert(s2.contains(cid));
                assert(s2 =~= s1.insert(cid));
                assert(cache@.channels =~= pre.channels.union_prefer_right(
                    g.channels.restrict(s2),
                ));
                assert(cache@.private_channels =~= pre.private_channels.remove_keys(s2));
                assert(cache@.groups =~= pre.groups.remove_keys(s2));
            }
            i = i + 1;
        }
        let mut guild_value = blank_guild();
        std::mem::swap(&mut guild_value, &mut self.guild);
        cache.guilds.insert(gid.0, guild_value);
        proof {
            assert(ks@.subrange(0, ks@.len() as int) =~= ks@);
            assert(g.channels.restrict(g.channels.dom()) =~= g.channels);
            assert(cache@ =~= old(self).apply_spec(pre));
            let post = cache@;
            assert forall|x: u64| #[trigger] post.messages.contains_key(x) implies
                channel_messages_wf(post.queues[x], post.messages[x], x) by {
                assert(pre.messages.contains_key(x));
            }
            assert forall|x: u64| #[trigger] post.channels.contains_key(x) implies
                !post.private_channels.contains_key(x) && !post.groups.contains_key(x) by {
                if !g.channels.dom().contains(x) {
                    assert(pre.channels.contains_key(x));
                }
            }
            assert(post.wf());
        }
        None
    }
}

/// The store after a guild's entity and everything it owns are withdrawn:
/// the guild itself, each channel its snapshot owned, and those channels'
/// message tables and eviction queues. A guild that is not cached leaves the
/// store unchanged.
pub open spec fn guild_teardown_spec(pre: CacheView, gid: u64) -> CacheView {
    if pre.guilds.contains_key(gid) {
        let owned = pre.guilds[gid].channels.dom();
        CacheView {
            guilds: pre.guilds.remove(gid),
            channels: pre.channels.remove_keys(owned),
            messages: pre.messages.remove_keys(owned),
            queues: pre.queues.remove_keys(owned),
            ..pre
        }
    } else {
        pre
    }
}

/// Withdraws a guild and everything it owns, handing the entity back.
fn teardown_guild(cache: &mut Cache, gid: u64) -> (r: Option<Guild>)
    requires
        old(cache)@.wf(),
    ensures
        final(cache)@.wf(),
        final(cache)@ == guild_teardown_spec(old(cache)@, gid),
        match r {
            Some(g) => old(cache)@.guilds.contains_key(gid) && g@ == old(cache)@.guilds[gid],
            None => !old(cache)@.guilds.contains_key(gid),
        },
{
    let ghost pre = cache@;
    match cache.guilds.remove(gid) {
        Some(removed) => {
            let ghost g = removed@;
            let ks = removed.channels.keys();
            let mut i: usize = 0;
            while i < ks.len()
                invariant
                    i <= ks@.len(),
                    ks@.no_duplicates(),
                    ks@.to_set() == g.channels.dom(),
                    cache@ =~= (CacheView {
                        guilds: pre.guilds.remove(gid),
                        channels: pre.channels.remove_keys(ks@.subrange(0, i as int).to_set()),
                        messages: pre.messages.remove_keys(ks@.subrange(0, i as int).to_set()),
                        queues: pre.queues.remove_keys(ks@.subrange(0, i as int).to_set()),
                        ..pre
                    }),
                decreases ks@.len() - i,
            {
                let cid = ks[i];
                cache.channels.remove(cid);
                cache.messages.remove(cid);
                cache.message_queue.remove(cid);
                proof {
                    let s1 = ks@.subrange(0, i as int).to_set();
                    let s2 = ks@.subrange(0, i + 1 as int).to_set();
                    assert forall|x: u64| s2.contains(x) implies (s1.contains(x) || x == cid) by {
                        let j = choose|j: int|
                            0 <= j < i + 1 && #[trigger] ks@.subrange(0, i + 1 as int)[j] == x;
                        if j < i {
                            assert(ks@.subrange(0, i as int)[j] == x);
                        }
                    }
                    assert forall|x: u64| s1.contains(x) implies s2.contains(x) by {
                        let j = choose|j: int|
                        0 <= j < i && #[trigger] ks@.subrange(0, i as int)[j] == x;
                        assert(ks@.subrange(0, i + 1 as int)[j] == x);
                    }
                    assert(ks@.subrange(0, i + 1 as int)[i as int] == cid);
                    assert(s2 =~= s1.insert(cid));
                    assert(cache@.channels =~= pre.channels.remove_keys(s2));
                    assert(cache@.messages =~= pre.messages.remove_keys(s2));
                    assert(cache@.queues =~= pre.queues.remove_keys(s2));
                }
                i = i + 1;
            }
            proof {
                assert(ks@.subrange(0, ks@.len() as int) =~= ks@);
                assert(cache@ =~= guild_teardown_spec(pre, gid));
                let post = cache@;
                assert forall|x: u64| #[trigger] post.messages.contains_key(x) implies
                    channel_messages_wf(post.queues[x], post.messages[x], x) by {
                    assert(pre.messages.contains_key(x));
                }
                assert(post.wf());
            }
            Some(removed)
        },
        None => {
            proof {
                assert(cache@ =~= guild_teardown_spec(pre, gid));
            }
            None
        },
    }
}

/// A deleted guild: the guild's entity and every channel it owns leave the
/// store, together with those channels' cached messages, and the identifier
/// is forgotten outright. The entity that was cached is handed back.
pub struct GuildDeleteEvent {
    /// The partial image of the deleted guild.
    pub guild: PartialGuild,
}

impl CacheUpdate for GuildDeleteEvent {
    type Output = Guild;

    open spec fn apply_spec(&self, pre: CacheView) -> CacheView {
        let torn = guild_teardown_spec(pre, self.guild.id.0);
        CacheView {
            unavailable_guilds: pre.unavailable_guilds.remove(self.guild.id.0),
            ..torn
        }
    }

    open spec fn output_spec(&self, pre: CacheView) -> Option<GuildView> {
        if pre.guilds.contains_key(self.guild.id.0) {
            Some(pre.guilds[self.guild.id.0])
        } else {
            None
        }
    }

    fn update(&mut self, cache: &mut Cache) -> (r: Option<Guild>) {
        let ghost pre = cache@;
        let r = teardown_guild(cache, self.guild.id.0);
        cache.unavailable_guilds.remove(self.guild.id.0);
        proof {
            assert(cache@ =~= self.apply_spec(pre));
            let post = cache@;
            assert forall|x: u64| #[trigger] post.messages.contains_key(x) implies
                channel_messages_wf(post.queues[x], post.messages[x], x) by {
                assert(guild_teardown_spec(pre, self.guild.id.0).messages.contains_key(x));
            }
            assert(post.wf());
        }
        r
    }
}

/// A guild that became unavailable: torn down exactly as a deleted guild is,
/// except that its identifier moves to the unavailable set instead of being
/// forgotten.
pub struct GuildUnavailableEvent {
    /// The guild that became unavailable.
    pub guild_id: GuildId,
}

impl CacheUpdate for GuildUnavailableEvent {
    type Output = Guild;

    open spec fn apply_spec(&self, pre: CacheView) -> CacheView {
        let torn = guild_teardown_spec(pre, self.guild_id.0);
        CacheView { unavailable_guilds: pre.unavailable_guilds.insert(self.guild_id.0), ..torn }
    }

    open spec fn output_spec(&self, pre: CacheView) -> Option<GuildView> {
        if pre.guilds.contains_key(self.guild_id.0) {
            Some(pre.guilds[self.guild_id.0])
        } else {
            None
        }
    }

    fn update(&mut self, cache: &mut Cache) -> (r: Option<Guild>) {
        let ghost pre = cache@;
        let r = teardown_guild(cache, self.guild_id.0);
        cache.unavailable_guilds.insert(self.guild_id.0);
        proof {
            assert(cache@ =~= self.apply_spec(pre));
            let post = cache@;
            assert forall|x: u64| #[trigger] post.messages.contains_key(x) implies
                channel_messages_wf(post.queues[x], post.messages[x], x) by {
                assert(guild_teardown_spec(pre, self.guild_id.0).messages.contains_key(x));
            }
            assert forall|x: u64| #[trigger] post.guilds.contains_key(x) implies
                !post.unavailable_guilds.contains(x) by {
                assert(pre.guilds.contains_key(x));
            }
            assert(post.wf());
        }
        r
    }
}

/// A member that joined a guild. The carried user record is upserted into
/// the canonical user table; the member record, which names that user by
/// identifier, joins the guild's member table, and the guild's declared
/// member count grows by one.
pub struct GuildMemberAddEvent {
    /// The guild that was joined.
    pub guild_id: GuildId,
    /// The new member record.
    pub member: Member,
    /// The canonical record of the member's user.
    pub user: User,
}

impl CacheUpdate for GuildMemberAddEvent {
    type Output = ();

    open spec fn apply_spec(&self, pre: CacheView) -> CacheView {
        let withu = CacheView { users: pre.users.insert(self.user.id.0, self.user), ..pre };
        if pre.guilds.contains_key(self.guild_id.0) {
            let g = pre.guilds[self.guild_id.0];
            CacheView {
                guilds: withu.guilds.insert(
                    self.guild_id.0,
                    GuildView {
                        member_count: if g.member_count < u64::MAX {
                            (g.member_count + 1) as u64
                        } else {
                            g.member_count
                        },
                        members: g.members.insert(self.member.user_id.0, self.member@),
                        ..g
                    },
                ),
                ..withu
            }
        } else {
            withu
        }
    }

    open spec fn output_spec(&self, pre: CacheView) -> Option<()> {
        None
    }

    fn update(&mut self, cache: &mut Cache) -> (r: Option<()>) {
        let ghost pre = cache@;
        cache.update_user_entry(&self.user);
        match cache.guilds.remove(self.guild_id.0) {
            Some(mut gv) => {
                if gv.member_count < u64::MAX {
                    gv.member_count = gv.member_count + 1;
                }
                gv.members.insert(self.member.user_id.0, self.member.clone());
                cache.guilds.insert(self.guild_id.0, gv);
                proof {
                    assert(cache@.guilds =~= self.apply_spec(pre).guilds);
                    assert(cache@ =~= self.apply_spec(pre));
                }
            },
            None => {
                proof {
                    assert(cache@.guilds =~= pre.guilds);
                    assert(cache@ =~= self.apply_spec(pre));
                }
            },
        }
        proof {
            let post = cache@;
            assert forall|x: u64| #[trigger] post.messages.contains_key(x) implies
                channel_messages_wf(post.queues[x], post.messages[x], x) by {
                assert(pre.messages.contains_key(x));
            }
            assert(post.wf());
        }
        None
    }
}

/// A member that left a guild. The carried user record is upserted — other
/// structures may still reference the user — while the member record leaves
/// the guild's member table and the declared member count shrinks by one.
/// The removed member record is handed back.
pub struct GuildMemberRemoveEvent {
    /// The guild that was left.
    pub guild_id: GuildId,
    /// The user who left.
    pub user: User,
}

impl CacheUpdate for GuildMemberRemoveEvent {
    type Output = Member;

    open spec fn apply_spec(&self, pre: CacheView) -> CacheView {
        let withu = CacheView { users: pre.users.insert(self.user.id.0, self.user), ..pre };
        if pre.guilds.contains_key(self.guild_id.0) {
            let g = pre.guilds[self.guild_id.0];
            CacheView {
                guilds: withu.guilds.insert(
                    self.guild_id.0,
                    GuildView {
                        member_count: if g.member_count > 0 {
                            (g.member_count - 1) as u64
                        } else {
                            0
                        },
                        members: g.members.remove(self.user.id.0),
                        ..g
                    },
                ),
                ..withu
            }
        } else {
            withu
        }
    }

    open spec fn output_spec(&self, pre: CacheView) -> Option<MemberView> {
        if pre.guilds.contains_key(self.guild_id.0) && pre.guilds[
            self.guild_id.0
        ].members.contains_key(self.user.id.0) {
            Some(pre.guilds[self.guild_id.0].members[self.user.id.0])
        } else {
            None
        }
    }

    fn update(&mut self, cache: &mut Cache) -> (r: Option<Member>) {
        let ghost pre = cache@;
        cache.update_user_entry(&self.user);
        let r = match cache.guilds.remove(self.guild_id.0) {
            Some(mut gv) => {
                if gv.member_count > 0 {
                    gv.member_count = gv.member_count - 1;
                }
                let removed = gv.members.remove(self.user.id.0);
                cache.guilds.insert(self.guild_id.0, gv);
                proof {
                    assert(cache@.guilds =~= self.apply_spec(pre).guilds);
                    assert(cache@ =~= self.apply_spec(pre));
                }
                removed
            },
            None => {
                proof {
                    assert(cache@.guilds =~= pre.guilds);
                    assert(cache@ =~= self.apply_spec(pre));
                }
                None
            },
        };
        proof {
            let post = cache@;
            assert forall|x: u64| #[trigger] post.messages.contains_key(x) implies
                channel_messages_wf(post.queues[x], post.messages[x], x) by {
                assert(pre.messages.contains_key(x));
            }
            assert(post.wf());
        }
        r
    }
}

/// A changed guild membership: the carried user record is upserted, and the
/// member record already cached for that user has its nickname and roles
/// replaced by the delivered ones. A guild, or a member, the cache never
/// observed drops the event. The member record's prior state is handed back.
pub struct GuildMemberUpdateEvent {
    /// The guild the membership belongs to.
    pub guild_id: GuildId,
    /// The canonical record of the member's user.
    pub user: User,
    /// The member's new nickname, when one is set.
    pub nick: Option<String>,
    /// The roles the member now holds.
    pub roles: Vec<RoleId>,
}

impl CacheUpdate for GuildMemberUpdateEvent {
    type Output = Member;

    open spec fn apply_spec(&self, pre: CacheView) -> CacheView {
        let withu = CacheView { users: pre.users.insert(self.user.id.0, self.user), ..pre };
        if pre.guilds.contains_key(self.guild_id.0) && pre.guilds[
            self.guild_id.0
        ].members.contains_key(self.user.id.0) {
            let g = pre.guilds[self.guild_id.0];
            let prior = g.members[self.user.id.0];
            CacheView {
                guilds: withu.guilds.insert(
                    self.guild_id.0,
                    GuildView {
                        members: g.members.insert(
                            self.user.id.0,
                            MemberView { nick: self.nick, roles: self.roles@, ..prior },
                        ),
                        ..g
                    },
                ),
                ..withu
            }
        } else {
            withu
        }
    }

    open spec fn output_spec(&self, pre: CacheView) -> Option<MemberView> {
        if pre.guilds.contains_key(self.guild_id.0) && pre.guilds[
            self.guild_id.0
        ].members.contains_key(self.user.id.0) {
            Some(pre.guilds[self.guild_id.0].members[self.user.id.0])
        } else {
            None
        }
    }

    fn update(&mut self, cache: &mut Cache) -> (r: Option<Member>) {
        let ghost pre = cache@;
        cache.update_user_entry(&self.user);
        let r = match cache.guilds.remove(self.guild_id.0) {
            Some(mut gv) => {
                let ghost g0 = pre.guilds[self.guild_id.0];
                match gv.members.remove(self.user.id.0) {
                    Some(prior) => {
                        let merged = Member {
                            guild_id: prior.guild_id,
                            nick: match &self.nick {
                                Some(n) => Some(n.clone()),
                                None => None,
                            },
                            roles: crate::message::clone_role_ids(&self.roles),
                            user_id: prior.user_id,
                        };
                        gv.members.insert(self.user.id.0, merged);
                        proof {
                            assert(gv.members@ =~= g0.members.insert(
                                self.user.id.0,
                                MemberView {
                                    nick: self.nick,
                                    roles: self.roles@,
                                    ..g0.members[self.user.id.0]
                                },
                            ));
                        }
                        cache.guilds.insert(self.guild_id.0, gv);
                        proof {
                            assert(cache@.guilds =~= self.apply_spec(pre).guilds);
                            assert(cache@ =~= self.apply_spec(pre));
                        }
                        Some(prior)
                    },
                    None => {
                        cache.guilds.insert(self.guild_id.0, gv);
                        proof {
                            assert(cache@.guilds =~= pre.guilds);
                            assert(cache@ =~= self.apply_spec(pre));
                        }
                        None
                    },
                }
            },
            None => {
                proof {
                    assert(cache@.guilds =~= pre.guilds);
                    assert(cache@ =~= self.apply_spec(pre));
                }
                None
            },
        };
        proof {
            let post = cache@;
            assert forall|x: u64| #[trigger] post.messages.contains_key(x) implies
                channel_messages_wf(post.queues[x], post.messages[x], x) by {
                assert(pre.messages.contains_key(x));
            }
            assert(post.wf());
        }
        r
    }
}

/// One member delivered by a chunk: the member record plus the canonical
/// record of its user.
pub struct ChunkedMember {
    /// The member record.
    pub member: Member,
    /// The canonical record of the member's user.
    pub user: User,
}

/// The canonical user table after folding a chunk's entries into it. Under
/// the cache-all-unknown-users policy every carried user is upserted;
/// otherwise only users the table already held before the chunk are
/// refreshed.
pub open spec fn chunk_users(
    users0: Map<u64, User>,
    entries: Seq<ChunkedMember>,
    cache_all: bool,
) -> Map<u64, User>
    decreases entries.len(),
{
    if entries.len() == 0 {
        users0
    } else {
        let u = chunk_users(users0, entries.drop_last(), cache_all);
        let e = entries.last();
        if cache_all || users0.contains_key(e.user.id.0) {
            u.insert(e.user.id.0, e.user)
        } else {
            u
        }
    }
}

/// A guild's member table after folding a chunk's entries into it.
pub open spec fn chunk_members(
    members0: Map<u64, MemberView>,
    entries: Seq<ChunkedMember>,
) -> Map<u64, MemberView>
    decreases entries.len(),
{
    if entries.len() == 0 {
        members0
    } else {
        chunk_members(members0, entries.drop_last()).insert(
            entries.last().member.user_id.0,
            entries.last().member@,
        )
    }
}

/// Folding a chunk keeps the canonical table's records keyed under their
/// own identifiers, and grows its domain only when the policy allows.
proof fn lemma_chunk_users_wf(users0: Map<u64, User>, entries: Seq<ChunkedMember>, cache_all: bool)
    requires
        forall|u: u64| #[trigger] users0.contains_key(u) ==> users0[u].id == UserId(u),
    ensures
        ({
            let post = chunk_users(users0, entries, cache_all);
            &&& forall|u: u64| #[trigger] post.contains_key(u) ==> post[u].id == UserId(u)
            &&& !cache_all ==> post.dom() == users0.dom()
        }),
    decreases entries.len(),
{
    if entries.len() > 0 {
        lemma_chunk_users_wf(users0, entries.drop_last(), cache_all);
        if !cache_all {
            assert(chunk_users(users0, entries, cache_all).dom() =~= users0.dom());
        }
    }
}

/// A chunk of a guild's members, delivered in answer to a member request.
/// Member records are installed in the cached guild's member table; the
/// carried user records feed the canonical user table as the
/// cache-all-unknown-users policy directs. The declared member count is
/// untouched: chunks deliver members the guild already declared.
pub struct GuildMembersChunkEvent {
    /// The guild the members belong to.
    pub guild_id: GuildId,
    /// The delivered members.
    pub members: Vec<ChunkedMember>,
}

impl CacheUpdate for GuildMembersChunkEvent {
    type Output = ();

    open spec fn apply_spec(&self, pre: CacheView) -> CacheView {
        let withu = CacheView {
            users: chunk_users(pre.users, self.members@, pre.settings.cache_all_unknown_users),
            ..pre
        };
        if pre.guilds.contains_key(self.guild_id.0) {
            let g = pre.guilds[self.guild_id.0];
            CacheView {
                guilds: withu.guilds.insert(
                    self.guild_id.0,
                    GuildView { members: chunk_members(g.members, self.members@), ..g },
                ),
                ..withu
            }
        } else {
            withu
        }
    }

    open spec fn output_spec(&self, pre: CacheView) -> Option<()> {
        None
    }

    fn update(&mut self, cache: &mut Cache) -> (r: Option<()>) {
        let ghost pre = cache@;
        let cache_all = cache.settings.cache_all_unknown_users;
        let guild = cache.guilds.remove(self.guild_id.0);
        let mut gv: Option<Guild> = guild;
        let mut i: usize = 0;
        while i < self.members.len()
            invariant
                i <= self.members@.len(),
                cache_all == pre.settings.cache_all_unknown_users,
                cache@.users =~= chunk_users(
                    pre.users,
                    self.members@.subrange(0, i as int),
                    cache_all,
                ),
                !cache_all ==> cache@.users.dom() == pre.users.dom(),
                cache@ == (CacheView {
                    users: cache@.users,
                    guilds: pre.guilds.remove(self.guild_id.0),
                    ..pre
                }),
                match gv {
                    Some(g) => pre.guilds.contains_key(self.guild_id.0) && g@ == (GuildView {
                        members: chunk_members(
                            pre.guilds[self.guild_id.0].members,
                            self.members@.subrange(0, i as int),
                        ),
                        ..pre.guilds[self.guild_id.0]
                    }),
                    None => !pre.guilds.contains_key(self.guild_id.0),
                },
            decreases self.members@.len() - i,
        {
            let ghost users_before = cache@.users;
            let entry = &self.members[i];
            let known = cache.users.contains_key(entry.user.id.0);
            if cache_all || known {
                cache.users.insert(entry.user.id.0, entry.user.clone());
            }
            match &mut gv {
                Some(g) => {
                    g.members.insert(entry.member.user_id.0, entry.member.clone());
                },
                None => {},
            }
            proof {
                assert(self.members@.subrange(0, i + 1 as int).drop_last() =~= self.members@
                    .subrange(0, i as int));
                assert(self.members@.subrange(0, i + 1 as int).last() == self.members@[i as int]);
                assert(known == users_before.contains_key(entry.user.id.0));
                if !cache_all {
                    assert(known == pre.users.contains_key(entry.user.id.0));
                    if known {
                        assert(cache@.users.dom() =~= pre.users.dom());
                    }
                }
                assert(cache@.users =~= chunk_users(
                    pre.users,
                    self.members@.subrange(0, i + 1 as int),
                    cache_all,
                ));
            }
            i = i + 1;
        }
        proof {
            assert(self.members@.subrange(0, self.members@.len() as int) =~= self.members@);
        }
        match gv {
            Some(g) => {
                let ghost g0 = pre.guilds[self.guild_id.0];
                let ghost gfinal = g@;
                cache.guilds.insert(self.guild_id.0, g);
                proof {
                    assert(gfinal == (GuildView {
                        members: chunk_members(g0.members, self.members@),
                        ..g0
                    }));
                    assert(cache@.guilds =~= self.apply_spec(pre).guilds);
                    assert(cache@ =~= self.apply_spec(pre));
                }
            },
            None => {
                proof {
                    assert(cache@.guilds =~= pre.guilds);
                    assert(cache@ =~= self.apply_spec(pre));
                }
            },
        }
        proof {
            let post = cache@;
            assert forall|x: u64| #[trigger] post.messages.contains_key(x) implies
                channel_messages_wf(post.queues[x], post.messages[x], x) by {
                assert(pre.messages.contains_key(x));
            }
            lemma_chunk_users_wf(pre.users, self.members@, cache_all);
            assert(post.wf());
        }
        None
    }
}

/// A changed guild: the fields a partial image carries are merged into the
/// cached entity, which keeps its nested tables; a guild that is not cached
/// drops the event.
pub struct GuildUpdateEvent {
    /// The partial image of the guild.
    pub guild: PartialGuild,
}

impl CacheUpdate for GuildUpdateEvent {
    type Output = ();

    open spec fn apply_spec(&self, pre: CacheView) -> CacheView {
        if pre.guilds.contains_key(self.guild.id.0) {
            let g = pre.guilds[self.guild.id.0];
            CacheView {
                guilds: pre.guilds.insert(
                    self.guild.id.0,
                    GuildView {
                        afk_timeout: self.guild.afk_timeout,
                        icon: self.guild.icon,
                        name: self.guild.name,
                        owner_id: self.guild.owner_id,
                        region: self.guild.region,
                        splash: self.guild.splash,
                        ..g
                    },
                ),
                ..pre
            }
        } else {
            pre
        }
    }

    open spec fn output_spec(&self, pre: CacheView) -> Option<()> {
        None
    }

    fn update(&mut self, cache: &mut Cache) -> (r: Option<()>) {
        let ghost pre = cache@;
        match cache.guilds.remove(self.guild.id.0) {
            Some(mut gv) => {
                gv.afk_timeout = self.guild.afk_timeout;
                gv.icon = match &self.guild.icon {
                    Some(i) => Some(i.clone()),
                    None => None,
                };
                gv.name = self.guild.name.clone();
                gv.owner_id = self.guild.owner_id;
                gv.region = self.guild.region.clone();
                gv.splash = match &self.guild.splash {
                    Some(s) => Some(s.clone()),
                    None => None,
                };
                cache.guilds.insert(self.guild.id.0, gv);
                proof {
                    assert(cache@.guilds =~= self.apply_spec(pre).guilds);
                    assert(cache@ =~= self.apply_spec(pre));
                }
            },
            None => {
                proof {
                    assert(cache@.guilds =~= pre.guilds);
                    assert(cache@ =~= self.apply_spec(pre));
                }
            },
        }
        proof {
            let post = cache@;
            assert forall|x: u64| #[trigger] post.messages.contains_key(x) implies
                channel_messages_wf(post.queues[x], post.messages[x], x) by {
                assert(pre.messages.contains_key(x));
            }
            assert(post.wf());
        }
        None
    }
}

/// The emoji table a delivered list stands for, keyed by emoji identifier;
/// a later entry with a repeated identifier shadows an earlier one.
pub open spec fn emoji_table(s: Seq<Emoji>) -> Map<u64, Emoji>
    decreases s.len(),
{
    if s.len() == 0 {
        Map::empty()
    } else {
        emoji_table(s.drop_last()).insert(s.last().id.0, s.last())
    }
}

/// A guild's emoji list, delivered whole: the cached guild's emoji table is
/// replaced by it; a guild that is not cached drops the event.
pub struct GuildEmojisUpdateEvent {
    /// The guild the emojis belong to.
    pub guild_id: GuildId,
    /// The guild's emojis, as delivered.
    pub emojis: Vec<Emoji>,
}

impl CacheUpdate for GuildEmojisUpdateEvent {
    type Output = ();

    open spec fn apply_spec(&self, pre: CacheView) -> CacheView {
        if pre.guilds.contains_key(self.guild_id.0) {
            let g = pre.guilds[self.guild_id.0];
            CacheView {
                guilds: pre.guilds.insert(
                    self.guild_id.0,
                    GuildView { emojis: emoji_table(self.emojis@), ..g },
                ),
                ..pre
            }
        } else {
            pre
        }
    }

    open spec fn output_spec(&self, pre: CacheView) -> Option<()> {
        None
    }

    fn update(&mut self, cache: &mut Cache) -> (r: Option<()>) {
        let ghost pre = cache@;
        match cache.guilds.remove(self.guild_id.0) {
            Some(mut gv) => {
                let mut table: IdMap<Emoji> = IdMap::new();
                let mut i: usize = 0;
                while i < self.emojis.len()
                    invariant
                        i <= self.emojis@.len(),
                        table@ =~= emoji_table(self.emojis@.subrange(0, i as int)),
                    decreases self.emojis@.len() - i,
                {
                    table.insert(self.emojis[i].id.0, self.emojis[i].clone());
                    proof {
                        assert(self.emojis@.subrange(0, i + 1 as int).drop_last()
                            =~= self.emojis@.subrange(0, i as int));
                        assert(self.emojis@.subrange(0, i + 1 as int).last()
                            == self.emojis@[i as int]);
                    }
                    i = i + 1;
                }
                proof {
                    assert(self.emojis@.subrange(0, self.emojis@.len() as int) =~= self.emojis@);
                }
                gv.emojis = table;
                cache.guilds.insert(self.guild_id.0, gv);
                proof {
                    assert(cache@.guilds =~= self.apply_spec(pre).guilds);
                    assert(cache@ =~= self.apply_spec(pre));
                }
            },
            None => {
                proof {
                    assert(cache@.guilds =~= pre.guilds);
                    assert(cache@ =~= self.apply_spec(pre));
                }
            },
        }
        proof {
            let post = cache@;
            assert forall|x: u64| #[trigger] post.messages.contains_key(x) implies
                channel_messages_wf(post.queues[x], post.messages[x], x) by {
                assert(pre.messages.contains_key(x));
            }
            assert(post.wf());
        }
        None
    }
}

/// A newly created or changed role: upserted into the guild's role table; a
/// guild that is not cached drops the event. The role the upsert replaced is
/// handed back.
pub struct GuildRoleCreateEvent {
    /// The guild the role belongs to.
    pub guild_id: GuildId,
    /// The role as delivered.
    pub role: Role,
}

impl CacheUpdate for GuildRoleCreateEvent {
    type Output = Role;

    open spec fn apply_spec(&self, pre: CacheView) -> CacheView {
        if pre.guilds.contains_key(self.guild_id.0) {
            let g = pre.guilds[self.guild_id.0];
            CacheView {
                guilds: pre.guilds.insert(
                    self.guild_id.0,
                    GuildView { roles: g.roles.insert(self.role.id.0, self.role), ..g },
                ),
                ..pre
            }
        } else {
            pre
        }
    }

    open spec fn output_spec(&self, pre: CacheView) -> Option<Role> {
        if pre.guilds.contains_key(self.guild_id.0) && pre.guilds[
            self.guild_id.0
        ].roles.contains_key(self.role.id.0) {
            Some(pre.guilds[self.guild_id.0].roles[self.role.id.0])
        } else {
            None
        }
    }

    fn update(&mut self, cache: &mut Cache) -> (r: Option<Role>) {
        let ghost pre = cache@;
        let r = match cache.guilds.remove(self.guild_id.0) {
            Some(mut gv) => {
                let prior = gv.roles.insert(self.role.id.0, self.role.clone());
                cache.guilds.insert(self.guild_id.0, gv);
                proof {
                    assert(cache@.guilds =~= self.apply_spec(pre).guilds);
                    assert(cache@ =~= self.apply_spec(pre));
                }
                prior
            },
            None => {
                proof {
                    assert(cache@.guilds =~= pre.guilds);
                    assert(cache@ =~= self.apply_spec(pre));
                }
                None
            },
        };
        proof {
            let post = cache@;
            assert forall|x: u64| #[trigger] post.messages.contains_key(x) implies
                channel_messages_wf(post.queues[x], post.messages[x], x) by {
                assert(pre.messages.contains_key(x));
            }
            assert(post.wf());
        }
        r
    }
}

/// A deleted role: withdrawn from the guild's role table; a guild that is
/// not cached drops the event. The removed role is handed back.
pub struct GuildRoleDeleteEvent {
    /// The guild the role belonged to.
    pub guild_id: GuildId,
    /// The deleted role.
    pub role_id: RoleId,
}

impl CacheUpdate for GuildRoleDeleteEvent {
    type Output = Role;

    open spec fn apply_spec(&self, pre: CacheView) -> CacheView {
        if pre.guilds.contains_key(self.guild_id.0) {
            let g = pre.guilds[self.guild_id.0];
            CacheView {
                guilds: pre.guilds.insert(
                    self.guild_id.0,
                    GuildView { roles: g.roles.remove(self.role_id.0), ..g },
                ),
                ..pre
            }
        } else {
            pre
        }
    }

    open spec fn output_spec(&self, pre: CacheView) -> Option<Role> {
        if pre.guilds.contains_key(self.guild_id.0) && pre.guilds[
            self.guild_id.0
        ].roles.contains_key(self.role_id.0) {
            Some(pre.guilds[self.guild_id.0].roles[self.role_id.0])
        } else {
            None
        }
    }

    fn update(&mut self, cache: &mut Cache) -> (r: Option<Role>) {
        let ghost pre = cache@;
        let r = match cache.guilds.remove(self.guild_id.0) {
            Some(mut gv) => {
                let removed = gv.roles.remove(self.role_id.0);
                cache.guilds.insert(self.guild_id.0, gv);
                proof {
                    assert(cache@.guilds =~= self.apply_spec(pre).guilds);
                    assert(cache@ =~= self.apply_spec(pre));
                }
                removed
            },
            None => {
                proof {
                    assert(cache@.guilds =~= pre.guilds);
                    assert(cache@ =~= self.apply_spec(pre));
                }
                None
            },
        };
        proof {
            let post = cache@;
            assert forall|x: u64| #[trigger] post.messages.contains_key(x) implies
                channel_messages_wf(post.queues[x], post.messages[x], x) by {
                assert(pre.messages.contains_key(x));
            }
            assert(post.wf());
        }
        r
    }
}

/// A member's voice connection changed. A state naming a voice channel is
/// stored in the cached guild's voice table wholesale; one naming no channel
/// means the member disconnected, and their entry is withdrawn. A guild that
/// is not cached, or a state outside any guild, drops the event. The state
/// that was replaced or withdrawn is handed back.
pub struct VoiceStateUpdateEvent {
    /// The guild the voice channel belongs to, when there is one.
    pub guild_id: Option<GuildId>,
    /// The member's new voice state.
    pub voice_state: VoiceState,
}

impl CacheUpdate for VoiceStateUpdateEvent {
    type Output = VoiceState;

    open spec fn apply_spec(&self, pre: CacheView) -> CacheView {
        match self.guild_id {
            Some(gid) => if pre.guilds.contains_key(gid.0) {
                let g = pre.guilds[gid.0];
                let vs = if self.voice_state.channel_id is Some {
                    g.voice_states.insert(self.voice_state.user_id.0, self.voice_state)
                } else {
                    g.voice_states.remove(self.voice_state.user_id.0)
                };
                CacheView {
                    guilds: pre.guilds.insert(gid.0, GuildView { voice_states: vs, ..g }),
                    ..pre
                }
            } else {
                pre
            },
            None => pre,
        }
    }

    open spec fn output_spec(&self, pre: CacheView) -> Option<VoiceState> {
        match self.guild_id {
            Some(gid) => if pre.guilds.contains_key(gid.0) && pre.guilds[
                gid.0
            ].voice_states.contains_key(self.voice_state.user_id.0) {
                Some(pre.guilds[gid.0].voice_states[self.voice_state.user_id.0])
            } else {
                None
            },
            None => None,
        }
    }

    fn update(&mut self, cache: &mut Cache) -> (r: Option<VoiceState>) {
        let ghost pre = cache@;
        let r = match self.guild_id {
            Some(gid) => {
                match cache.guilds.remove(gid.0) {
                    Some(mut gv) => {
                        let prior = if self.voice_state.channel_id.is_some() {
                            gv.voice_states.insert(
                                self.voice_state.user_id.0,
                                self.voice_state.clone(),
                            )
                        } else {
                            gv.voice_states.remove(self.voice_state.user_id.0)
                        };
                        cache.guilds.insert(gid.0, gv);
                        proof {
                            assert(cache@.guilds =~= self.apply_spec(pre).guilds);
                            assert(cache@ =~= self.apply_spec(pre));
                        }
                        prior
                    },
                    None => {
                        proof {
                            assert(cache@.guilds =~= pre.guilds);
                            assert(cache@ =~= self.apply_spec(pre));
                        }
                        None
                    },
                }
            },
            None => {
                proof {
                    assert(cache@ =~= self.apply_spec(pre));
                }
                None
            },
        };
        proof {
            let post = cache@;
            assert forall|x: u64| #[trigger] post.messages.contains_key(x) implies
                channel_messages_wf(post.queues[x], post.messages[x], x) by {
                assert(pre.messages.contains_key(x));
            }
            assert(post.wf());
        }
        r
    }
}

/// The initial handshake snapshot.
pub struct Ready {
    /// The guilds the session belongs to, all initially unavailable.
    pub guilds: Vec<GuildId>,
    /// How many shards the connection is split over, when the gateway says.
    pub shard: Option<u64>,
    /// The account the session belongs to.
    pub user: CurrentUser,
}

/// The handshake snapshot: seeds the shard count and the current user, and
/// moves the announced guilds to the unavailable set.
pub struct ReadyEvent {
    /// The snapshot as delivered.
    pub ready: Ready,
}

impl ReadyEvent {
    /// The identifiers of the guilds the snapshot announces.
    pub open spec fn announced(&self) -> Set<u64> {
        self.ready.guilds@.map_values(|g: GuildId| g.0).to_set()
    }
}

impl CacheUpdate for ReadyEvent {
    type Output = ();

    open spec fn apply_spec(&self, pre: CacheView) -> CacheView {
        CacheView {
            guilds: pre.guilds.remove_keys(self.announced()),
            unavailable_guilds: pre.unavailable_guilds.union(self.announced()),
            shard_count: match self.ready.shard {
                Some(n) => n,
                None => pre.shard_count,
            },
            user: self.ready.user,
            ..pre
        }
    }

    open spec fn output_spec(&self, pre: CacheView) -> Option<()> {
        None
    }

    fn update(&mut self, cache: &mut Cache) -> (r: Option<()>) {
        let ghost pre = cache@;
        let ghost ids = self.ready.guilds@.map_values(|g: GuildId| g.0);
        let mut i: usize = 0;
        while i < self.ready.guilds.len()
            invariant
                i <= self.ready.guilds@.len(),
                ids == self.ready.guilds@.map_values(|g: GuildId| g.0),
                cache@ =~= (CacheView {
                    guilds: pre.guilds.remove_keys(ids.subrange(0, i as int).to_set()),
                    unavailable_guilds: pre.unavailable_guilds.union(
                        ids.subrange(0, i as int).to_set(),
                    ),
                    ..pre
                }),
            decreases self.ready.guilds@.len() - i,
        {
            let gid = self.ready.guilds[i];
            cache.guilds.remove(gid.0);
            cache.unavailable_guilds.insert(gid.0);
            proof {
                let s1 = ids.subrange(0, i as int).to_set();
                let s2 = ids.subrange(0, i + 1 as int).to_set();
                assert forall|x: u64| s2.contains(x) implies (s1.contains(x) || x == gid.0) by {
                    let j = choose|j: int|
                        0 <= j < i + 1 && #[trigger] ids.subrange(0, i + 1 as int)[j] == x;
                    if j < i {
                        assert(ids.subrange(0, i as int)[j] == x);
                    }
                }
                assert forall|x: u64| s1.contains(x) implies s2.contains(x) by {
                    let j = choose|j: int|
                        0 <= j < i && #[trigger] ids.subrange(0, i as int)[j] == x;
                    assert(ids.subrange(0, i + 1 as int)[j] == x);
                }
                assert(ids.subrange(0, i + 1 as int)[i as int] == gid.0);
                assert(s2 =~= s1.insert(gid.0));
                assert(cache@.guilds =~= pre.guilds.remove_keys(s2));
                assert(cache@.unavailable_guilds =~= pre.unavailable_guilds.union(s2));
            }
            i = i + 1;
        }
        match self.ready.shard {
            Some(n) => {
                cache.shard_count = n;
            },
            None => {},
        }
        cache.user = self.ready.user.clone();
        proof {
            assert(ids.subrange(0, ids.len() as int) =~= ids);
            assert(cache@ =~= self.apply_spec(pre));
            let post = cache@;
            assert forall|x: u64| #[trigger] post.messages.contains_key(x) implies
                channel_messages_wf(post.queues[x], post.messages[x], x) by {
                assert(pre.messages.contains_key(x));
            }
            assert forall|x: u64| #[trigger] post.guilds.contains_key(x) implies
                !post.unavailable_guilds.contains(x) by {
                assert(pre.guilds.contains_key(x));
            }
            assert(post.wf());
        }
        None
    }
}

/// A user added to a group. The carried record joins the canonical user
/// table, and the user's identifier joins the group's recipient list unless
/// it is already there; a group that is not cached drops the event.
pub struct ChannelRecipientAddEvent {
    /// The group's channel.
    pub channel_id: ChannelId,
    /// The added user.
    pub user: User,
}

impl CacheUpdate for ChannelRecipientAddEvent {
    type Output = ();

    open spec fn apply_spec(&self, pre: CacheView) -> CacheView {
        let withu = CacheView { users: pre.users.insert(self.user.id.0, self.user), ..pre };
        if pre.groups.contains_key(self.channel_id.0) {
            let g = pre.groups[self.channel_id.0];
            if g.recipient_ids.contains(self.user.id) {
                withu
            } else {
                CacheView {
                    groups: withu.groups.insert(
                        self.channel_id.0,
                        GroupView { recipient_ids: g.recipient_ids.push(self.user.id), ..g },
                    ),
                    ..withu
                }
            }
        } else {
            withu
        }
    }

    open spec fn output_spec(&self, pre: CacheView) -> Option<()> {
        None
    }

    fn update(&mut self, cache: &mut Cache) -> (r: Option<()>) {
        let ghost pre = cache@;
        cache.update_user_entry(&self.user);
        match cache.groups.remove(self.channel_id.0) {
            Some(mut g) => {
                let mut present = false;
                let mut i: usize = 0;
                while i < g.recipient_ids.len()
                    invariant
                        i <= g.recipient_ids@.len(),
                        present == exists|j: int|
                            0 <= j < i && g.recipient_ids@[j] == self.user.id,
                    decreases g.recipient_ids@.len() - i,
                {
                    if g.recipient_ids[i] == self.user.id {
                        present = true;
                    }
                    i = i + 1;
                }
                proof {
                    assert(present == g.recipient_ids@.contains(self.user.id));
                }
                if !present {
                    g.recipient_ids.push(self.user.id);
                }
                cache.groups.insert(self.channel_id.0, g);
                proof {
                    assert(cache@.groups =~= self.apply_spec(pre).groups);
                    assert(cache@ =~= self.apply_spec(pre));
                }
            },
            None => {
                proof {
                    assert(cache@.groups =~= pre.groups);
                    assert(cache@ =~= self.apply_spec(pre));
                }
            },
        }
        proof {
            let post = cache@;
            assert forall|x: u64| #[trigger] post.messages.contains_key(x) implies
                channel_messages_wf(post.queues[x], post.messages[x], x) by {
                assert(pre.messages.contains_key(x));
            }
            assert forall|x: u64| #[trigger] post.channels.contains_key(x) implies
                !post.private_channels.contains_key(x) && !post.groups.contains_key(x) by {
                assert(pre.channels.contains_key(x));
            }
            assert forall|x: u64| #[trigger] post.private_channels.contains_key(x) implies
                !post.groups.contains_key(x) by {
                assert(pre.private_channels.contains_key(x));
            }
            assert(post.wf());
        }
        None
    }
}

/// A user removed from a group. The carried record still joins the
/// canonical user table — other structures may reference the user — while
/// the identifier leaves the group's recipient list; a group that is not
/// cached drops the event.
pub struct ChannelRecipientRemoveEvent {
    /// The group's channel.
    pub channel_id: ChannelId,
    /// The removed user.
    pub user: User,
}

impl CacheUpdate for ChannelRecipientRemoveEvent {
    type Output = ();

    open spec fn apply_spec(&self, pre: CacheView) -> CacheView {
        let withu = CacheView { users: pre.users.insert(self.user.id.0, self.user), ..pre };
        if pre.groups.contains_key(self.channel_id.0) {
            let g = pre.groups[self.channel_id.0];
            CacheView {
                groups: withu.groups.insert(
                    self.channel_id.0,
                    GroupView {
                        recipient_ids: g.recipient_ids.remove_value(self.user.id),
                        ..g
                    },
                ),
                ..withu
            }
        } else {
            withu
        }
    }

    open spec fn output_spec(&self, pre: CacheView) -> Option<()> {
        None
    }

    fn update(&mut self, cache: &mut Cache) -> (r: Option<()>) {
        let ghost pre = cache@;
        cache.update_user_entry(&self.user);
        match cache.groups.remove(self.channel_id.0) {
            Some(mut g) => {
                let ghost ids0 = g.recipient_ids@;
                let mut found: Option<usize> = None;
                let mut i: usize = 0;
                while i < g.recipient_ids.len()
                    invariant
                        i <= g.recipient_ids@.len(),
                        g.recipient_ids@ == ids0,
                        match found {
                            Some(f) => f < i && ids0[f as int] == self.user.id && (forall|j: int|
                                0 <= j < f ==> ids0[j] != self.user.id),
                            None => forall|j: int| 0 <= j < i ==> ids0[j] != self.user.id,
                        },
                    decreases g.recipient_ids@.len() - i,
                {
                    if found.is_none() && g.recipient_ids[i] == self.user.id {
                        found = Some(i);
                    }
                    i = i + 1;
                }
                proof {
                    ids0.index_of_first_ensures(self.user.id);
                    match found {
                        Some(f) => {
                            assert(ids0.contains(self.user.id));
                            let fs = ids0.index_of_first(self.user.id)->Some_0;
                            assert(ids0[fs] == self.user.id);
                            if fs < f {
                                assert(ids0[fs] != self.user.id);
                            }
                            if fs > f {
                                assert(ids0[f as int] != self.user.id);
                            }
                            assert(fs == f);
                        },
                        None => {
                            if ids0.contains(self.user.id) {
                                let j = choose|j: int|
                                    0 <= j < ids0.len() && ids0[j] == self.user.id;
                                assert(ids0[j] != self.user.id);
                            }
                        },
                    }
                }
                if let Some(f) = found {
                    g.recipient_ids.remove(f);
                }
                proof {
                    assert(g.recipient_ids@ == ids0.remove_value(self.user.id));
                }
                cache.groups.insert(self.channel_id.0, g);
                proof {
                    assert(cache@.groups =~= self.apply_spec(pre).groups);
                    assert(cache@ =~= self.apply_spec(pre));
                }
            },
            None => {
                proof {
                    assert(cache@.groups =~= pre.groups);
                    assert(cache@ =~= self.apply_spec(pre));
                }
            },
        }
        proof {
            let post = cache@;
            assert forall|x: u64| #[trigger] post.messages.contains_key(x) implies
                channel_messages_wf(post.queues[x], post.messages[x], x) by {
                assert(pre.messages.contains_key(x));
            }
            assert forall|x: u64| #[trigger] post.channels.contains_key(x) implies
                !post.private_channels.contains_key(x) && !post.groups.contains_key(x) by {
                assert(pre.channels.contains_key(x));
            }
            assert forall|x: u64| #[trigger] post.private_channels.contains_key(x) implies
                !post.groups.contains_key(x) by {
                assert(pre.private_channels.contains_key(x));
            }
            assert(post.wf());
        }
        None
    }
}

/// An online-status or activity change: the cached presence for the user is
/// replaced wholesale, both in the flat presence table and, when the event
/// names a cached guild, in that guild's presence table.
pub struct PresenceUpdateEvent {
    /// The new presence snapshot.
    pub presence: Presence,
    /// The guild the update happened in, when it did not happen in a private
    /// context.
    pub guild_id: Option<GuildId>,
}

impl CacheUpdate for PresenceUpdateEvent {
    type Output = ();

    open spec fn apply_spec(&self, pre: CacheView) -> CacheView {
        let p = self.presence;
        let base = CacheView { presences: pre.presences.insert(p.user_id.0, p), ..pre };
        match self.guild_id {
            Some(g) => if pre.guilds.contains_key(g.0) {
                CacheView {
                    guilds: base.guilds.insert(
                        g.0,
                        GuildView {
                            presences: pre.guilds[g.0].presences.insert(p.user_id.0, p),
                            ..pre.guilds[g.0]
                        },
                    ),
                    ..base
                }
            } else {
                base
            },
            None => base,
        }
    }

    open spec fn output_spec(&self, pre: CacheView) -> Option<()> {
        None
    }

    fn update(&mut self, cache: &mut Cache) -> (r: Option<()>) {
        let ghost pre = cache@;
        cache.presences.insert(self.presence.user_id.0, self.presence.clone());
        match self.guild_id {
            Some(g) => {
                match cache.guilds.remove(g.0) {
                    Some(mut gv) => {
                        gv.presences.insert(self.presence.user_id.0, self.presence.clone());
                        cache.guilds.insert(g.0, gv);
                        proof {
                            assert(cache@.guilds =~= self.apply_spec(pre).guilds);
                            assert(cache@ =~= self.apply_spec(pre));
                        }
                    },
                    None => {
                        proof {
                            assert(cache@.guilds =~= pre.guilds);
                            assert(cache@ =~= self.apply_spec(pre));
                        }
                    },
                }
            },
            None => {
                proof {
                    assert(cache@ =~= self.apply_spec(pre));
                }
            },
        }
        proof {
            let post = cache@;
            assert forall|c: u64| #[trigger] post.messages.contains_key(c) implies
                channel_messages_wf(post.queues[c], post.messages[c], c) by {
                assert(pre.messages.contains_key(c));
            }
            assert(post.wf());
        }
        None
    }
}

} // verus!
