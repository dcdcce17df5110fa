//! The store's cross-cutting guarantees, each proved from the update
//! protocol's specification functions.
//!
//! The per-event contracts in the event module pin down every update exactly;
//! the lemmas here state the properties that relate several updates, or an
//! update and the accessor surface, so that a reader finds them written down
//! rather than having to derive them.

use vstd::prelude::*;

verus! {

use crate::cache::{channel_lookup, CacheView};
use crate::event::{
    guild_teardown_spec, msgs_of, queue_of, retention_step, CacheUpdate, GuildDeleteEvent,
    GuildMemberAddEvent, GuildUnavailableEvent, MessageCreateEvent, MessageDeleteEvent,
    MessageUpdateEvent,
};
use crate::id::UserId;

/// The identifiers of `ids`, earlier duplicates dropped: each identifier
/// appears once, in the order of its latest occurrence.
pub open spec fn recent_distinct(ids: Seq<u64>) -> Seq<u64>
    decreases ids.len(),
{
    if ids.len() == 0 {
        Seq::empty()
    } else {
        recent_distinct(ids.drop_last()).remove_value(ids.last()).push(ids.last())
    }
}

/// The last `k` elements of `s`, or all of `s` when it is shorter.
pub open spec fn last_k(s: Seq<u64>, k: nat) -> Seq<u64> {
    if s.len() <= k {
        s
    } else {
        s.skip(s.len() - k)
    }
}

/// One channel's eviction queue after a whole sequence of creations, starting
/// from a channel with no cached messages, under cap `k`.
pub open spec fn retention_fold(ids: Seq<u64>, k: nat) -> Seq<u64>
    decreases ids.len(),
{
    if ids.len() == 0 {
        Seq::empty()
    } else {
        retention_step(retention_fold(ids.drop_last(), k), ids.last(), k)
    }
}

/// `recent_distinct` never repeats an identifier.
pub proof fn lemma_recent_distinct_no_dup(ids: Seq<u64>)
    ensures
        recent_distinct(ids).no_duplicates(),
    decreases ids.len(),
{
    if ids.len() > 0 {
        lemma_recent_distinct_no_dup(ids.drop_last());
        let r = recent_distinct(ids.drop_last());
        let x = ids.last();
        crate::event::lemma_remove_value(r, x);
        let r1 = r.remove_value(x);
        let r2 = r1.push(x);
        assert forall|a: int, b: int| 0 <= a < b < r2.len() implies r2[a] != r2[b] by {
            if b == r2.len() - 1 {
                assert(r2[a] == r1[a]);
                assert(r1.contains(r1[a]));
            } else {
                assert(r2[a] == r1[a]);
                assert(r2[b] == r1[b]);
            }
        }
    }
}

/// The eviction step carried out on the suffix the queue keeps agrees with
/// the suffix of the full creation history with its stale entry moved to the
/// back.
proof fn lemma_retention_step_last(r: Seq<u64>, q: Seq<u64>, x: u64, k: nat)
    requires
        k > 0,
        r.no_duplicates(),
        q == last_k(r, k),
    ensures
        retention_step(q, x, k) == last_k(r.remove_value(x).push(x), k),
{
    let n = r.len() as int;
    let s: int = if n <= k { 0 } else { n - k };
    assert(q =~= r.skip(s));
    assert(q.len() == n - s);
    assert forall|j: int| 0 <= j < q.len() implies q[j] == r[s + j] by {}
    assert(q.no_duplicates()) by {
        assert forall|a: int, b: int| 0 <= a < b < q.len() implies q[a] != q[b] by {
            assert(q[a] == r[s + a]);
            assert(q[b] == r[s + b]);
        }
    }
    r.index_of_first_ensures(x);
    q.index_of_first_ensures(x);
    crate::event::lemma_remove_value(r, x);
    crate::event::lemma_remove_value(q, x);
    if !r.contains(x) {
        assert(!q.contains(x)) by {
            if q.contains(x) {
                let j = choose|j: int| 0 <= j < q.len() && q[j] == x;
                assert(r[s + j] == x);
                assert(r.contains(x));
            }
        }
        assert(q.remove_value(x) == q);
        assert(r.remove_value(x) == r);
        let rp = r.push(x);
        if n < k {
            assert(retention_step(q, x, k) == q.push(x));
            assert(q.push(x) =~= rp);
            assert(last_k(rp, k) == rp);
        } else {
            assert(q.len() == k);
            assert(retention_step(q, x, k) == q.drop_first().push(x));
            let t = rp.skip(n + 1 - k);
            assert forall|j: int| 0 <= j < k implies q.drop_first().push(x)[j] == t[j] by {
                if j < k - 1 {
                    assert(q.drop_first().push(x)[j] == q[j + 1]);
                    assert(q[j + 1] == r[s + j + 1]);
                    assert(t[j] == rp[n + 1 - k + j]);
                    assert(rp[n + 1 - k + j] == r[n + 1 - k + j]);
                } else {
                    assert(q.drop_first().push(x)[j] == x);
                    assert(t[j] == rp[n]);
                }
            }
            assert(q.drop_first().push(x) =~= t);
            assert(last_k(rp, k) == t);
        }
    } else {
        let p = r.index_of_first(x)->Some_0;
        assert(r[p] == x);
        r.remove_ensures(p);
        let r1 = r.remove(p);
        let rp = r1.push(x);
        assert(rp.len() == n);
        if p >= s {
            assert(q[p - s] == x);
            assert(q.contains(x));
            let pq = q.index_of_first(x)->Some_0;
            assert(q[pq] == x);
            assert(pq == p - s) by {
                if pq < p - s {
                    assert(q[pq] == r[s + pq]);
                    assert(r[s + pq] == x && r[p] == x && s + pq != p);
                } else if pq > p - s {
                    assert(q[p - s] != x);
                }
            }
            q.remove_ensures(pq);
            let q1 = q.remove(pq);
            assert(q.remove_value(x) == q1);
            assert(q1.len() == q.len() - 1);
            assert(q1.len() < k);
            assert(retention_step(q, x, k) == q1.push(x));
            if n <= k {
                assert(s == 0);
                assert(q =~= r);
                assert(pq == p);
                assert(q1 =~= r1) by {
                    assert forall|j: int| 0 <= j < q1.len() implies q1[j] == r1[j] by {
                        if j < p {
                            assert(q1[j] == q[j]);
                            assert(r1[j] == r[j]);
                        } else {
                            assert(q1[j] == q[j + 1]);
                            assert(r1[j] == r[j + 1]);
                        }
                    }
                }
                assert(q1.push(x) =~= rp);
                assert(last_k(rp, k) == rp);
            } else {
                assert(s == n - k);
                let t = rp.skip(n - k);
                assert(t.len() == k);
                assert(q1.push(x).len() == k);
                assert forall|j: int| 0 <= j < k implies q1.push(x)[j] == t[j] by {
                    if j < k - 1 {
                        assert(q1.push(x)[j] == q1[j]);
                        assert(t[j] == rp[n - k + j]);
                        assert(n - k + j < r1.len());
                        assert(rp[n - k + j] == r1[n - k + j]);
                        if j < pq {
                            assert(q1[j] == q[j]);
                            assert(q[j] == r[s + j]);
                            assert(n - k + j < p);
                            assert(r1[n - k + j] == r[n - k + j]);
                        } else {
                            assert(q1[j] == q[j + 1]);
                            assert(q[j + 1] == r[s + j + 1]);
                            assert(n - k + j >= p);
                            assert(r1[n - k + j] == r[n - k + j + 1]);
                        }
                    } else {
                        assert(q1.push(x)[j] == x);
                        assert(t[j] == rp[n - 1]);
                    }
                }
                assert(q1.push(x) =~= t);
                assert(last_k(rp, k) == t);
            }
        } else {
            assert(p < s);
            assert(n > k);
            assert(s == n - k);
            assert(!q.contains(x)) by {
                if q.contains(x) {
                    let j = choose|j: int| 0 <= j < q.len() && q[j] == x;
                    assert(r[s + j] == x);
                    assert(r[p] == x);
                    assert(s + j != p);
                }
            }
            assert(q.remove_value(x) == q);
            assert(q.len() == k);
            assert(retention_step(q, x, k) == q.drop_first().push(x));
            let t = rp.skip(n - 1 - k + 1);
            assert(rp.len() == n);
            assert(last_k(rp, k) == rp.skip(n - k));
            assert forall|j: int| 0 <= j < k implies q.drop_first().push(x)[j] == rp.skip(
                n - k,
            )[j] by {
                if j < k - 1 {
                    assert(q.drop_first().push(x)[j] == q[j + 1]);
                    assert(q[j + 1] == r[s + j + 1]);
                    assert(rp.skip(n - k)[j] == rp[n - k + j]);
                    assert(n - k + j < r1.len());
                    assert(rp[n - k + j] == r1[n - k + j]);
                    assert(n - k + j >= p);
                    assert(r1[n - k + j] == r[n - k + j + 1]);
                } else {
                    assert(q.drop_first().push(x)[j] == x);
                    assert(rp.skip(n - k)[j] == rp[n - 1]);
                }
            }
            assert(q.drop_first().push(x) =~= rp.skip(n - k));
        }
    }
}

/// `recent_distinct` grows by moving the newest identifier to the back.
proof fn lemma_recent_distinct_push(ids: Seq<u64>, x: u64)
    ensures
        recent_distinct(ids.push(x)) == recent_distinct(ids).remove_value(x).push(x),
{
    assert(ids.push(x).drop_last() =~= ids);
    assert(ids.push(x).last() == x);
}

/// Bounded retention: folding any sequence of message creations for one
/// channel through the eviction step, starting from a channel with no cached
/// messages and a positive cap `k`, leaves at most `k` identifiers in the
/// eviction queue, and those identifiers are exactly the most recently
/// created distinct ones, oldest first. By the store's well-formedness the
/// channel's message table holds exactly the identifiers in the queue, so
/// the table never exceeds `k` entries either.
pub proof fn lemma_bounded_retention(ids: Seq<u64>, k: nat)
    requires
        k > 0,
    ensures
        retention_fold(ids, k).len() <= k,
        retention_fold(ids, k) == last_k(recent_distinct(ids), k),
    decreases ids.len(),
{
    lemma_recent_distinct_no_dup(ids);
    if ids.len() == 0 {
        assert(recent_distinct(ids) =~= Seq::<u64>::empty());
        assert(retention_fold(ids, k) =~= last_k(recent_distinct(ids), k));
    } else {
        let prefix = ids.drop_last();
        let x = ids.last();
        lemma_bounded_retention(prefix, k);
        lemma_recent_distinct_no_dup(prefix);
        lemma_retention_step_last(recent_distinct(prefix), retention_fold(prefix, k), x, k);
        lemma_recent_distinct_push(prefix, x);
        assert(prefix.push(x) =~= ids);
        crate::event::lemma_remove_value(recent_distinct(prefix), x);
        let rd = recent_distinct(ids);
        assert(rd == recent_distinct(prefix).remove_value(x).push(x));
        assert(retention_fold(ids, k) == last_k(rd, k));
        assert(last_k(rd, k).len() <= k);
    }
}

/// In a well-formed store a channel's message table holds exactly as many
/// entries as its eviction queue names, so a bound on the queue is a bound
/// on the table.
pub proof fn lemma_message_table_size(s: CacheView, c: u64)
    requires
        s.wf(),
        s.messages.contains_key(c),
    ensures
        s.messages[c].dom().len() == s.queues[c].len(),
{
    assert(s.queues[c].to_set() =~= s.messages[c].dom());
    s.queues[c].unique_seq_to_set();
}

/// The store after a sequence of message-creation events, applied in
/// delivery order.
pub open spec fn apply_creates(pre: CacheView, es: Seq<MessageCreateEvent>) -> CacheView
    decreases es.len(),
{
    if es.len() == 0 {
        pre
    } else {
        es.last().apply_spec(apply_creates(pre, es.drop_last()))
    }
}

/// The identifiers created by a sequence of message-creation events.
pub open spec fn created_ids(es: Seq<MessageCreateEvent>) -> Seq<u64> {
    es.map_values(|e: MessageCreateEvent| e.message.id.0)
}

/// One message creation keeps the store well-formed, whatever it evicts.
pub proof fn lemma_create_preserves_wf(e: MessageCreateEvent, pre: CacheView)
    requires
        pre.wf(),
    ensures
        e.apply_spec(pre).wf(),
{
    let post = e.apply_spec(pre);
    let c = e.message.channel_id.0;
    let m = e.message.id.0;
    let k = pre.settings.max_messages;
    if k == 0 {
        assert forall|x: u64| #[trigger] post.messages.contains_key(x) implies
            crate::cache::channel_messages_wf(post.queues[x], post.messages[x], x) by {
            assert(pre.messages.contains_key(x));
        }
    } else {
        let q0 = queue_of(pre, c);
        let d0 = msgs_of(pre, c);
        if pre.messages.contains_key(c) {
            assert(crate::cache::channel_messages_wf(q0, d0, c));
        } else {
            assert(!pre.queues.contains_key(c));
            assert(forall|y: u64| !q0.contains(y));
        }
        crate::event::lemma_remove_value(q0, m);
        let q1 = q0.remove_value(m);
        let d1 = d0.remove(m);
        assert forall|y: u64| #[trigger] q1.contains(y) implies d1.contains_key(y) by {
            assert(q0.contains(y));
        }
        assert forall|y: u64| d1.contains_key(y) implies q1.contains(y) by {
            assert(d0.contains_key(y));
            assert(q0.contains(y));
        }
        crate::event::lemma_after_create(q1, d1, c, e.message@, k as nat);
        assert forall|x: u64| #[trigger] post.messages.contains_key(x) implies
            crate::cache::channel_messages_wf(post.queues[x], post.messages[x], x) by {
            if x != c {
                assert(pre.messages.contains_key(x));
            } else {
                assert(post.queues[c] == e.queue_after(pre));
                assert(post.messages[c] == e.msgs_after(pre));
            }
        }
        assert(post.wf());
    }
}

/// A whole sequence of message creations keeps the store well-formed and
/// leaves its policy untouched.
pub proof fn lemma_creates_preserve_wf(pre: CacheView, es: Seq<MessageCreateEvent>)
    requires
        pre.wf(),
    ensures
        apply_creates(pre, es).wf(),
        apply_creates(pre, es).settings == pre.settings,
    decreases es.len(),
{
    if es.len() > 0 {
        lemma_creates_preserve_wf(pre, es.drop_last());
        lemma_create_preserves_wf(es.last(), apply_creates(pre, es.drop_last()));
    }
}

/// Applying any sequence of message-creation events for one channel, to a
/// store that has no cached messages for that channel, leaves that channel's
/// eviction queue exactly at the retention fold of the created identifiers.
/// With `lemma_bounded_retention`, the channel therefore retains at most
/// `max_messages` messages: exactly the most recently created ones.
pub proof fn lemma_creates_reach_retention_fold(
    pre: CacheView,
    es: Seq<MessageCreateEvent>,
    c: u64,
)
    requires
        pre.settings.max_messages > 0,
        !pre.queues.contains_key(c),
        forall|i: int| 0 <= i < es.len() ==> (#[trigger] es[i].message).channel_id.0 == c,
    ensures
        queue_of(apply_creates(pre, es), c) == retention_fold(
            created_ids(es),
            pre.settings.max_messages as nat,
        ),
        apply_creates(pre, es).settings == pre.settings,
    decreases es.len(),
{
    let k = pre.settings.max_messages as nat;
    if es.len() == 0 {
        assert(queue_of(pre, c) =~= Seq::<u64>::empty());
        assert(retention_fold(created_ids(es), k) =~= Seq::<u64>::empty());
    } else {
        let prefix = es.drop_last();
        let e = es.last();
        assert(forall|i: int| 0 <= i < prefix.len() ==> (#[trigger] prefix[i].message).channel_id.0
            == c) by {
            assert(forall|i: int| 0 <= i < prefix.len() ==> prefix[i] == es[i]);
        }
        lemma_creates_reach_retention_fold(pre, prefix, c);
        let mid = apply_creates(pre, prefix);
        assert(es[es.len() - 1].message.channel_id.0 == c);
        assert(queue_of(e.apply_spec(mid), c) == retention_step(
            queue_of(mid, c),
            e.message.id.0,
            k,
        ));
        assert(created_ids(es).drop_last() =~= created_ids(prefix));
        assert(created_ids(es).last() == e.message.id.0);
    }
}

/// Bounded retention, stated of the store itself: applying any sequence of
/// message-creation events for one channel to a well-formed store with
/// nothing cached for that channel and a positive retention cap leaves the
/// channel's message table holding at most `max_messages` entries — exactly
/// the most recently created distinct identifiers, ties broken by delivery
/// order.
pub proof fn lemma_store_bounded_retention(
    pre: CacheView,
    es: Seq<MessageCreateEvent>,
    c: u64,
)
    requires
        pre.wf(),
        pre.settings.max_messages > 0,
        !pre.queues.contains_key(c),
        forall|i: int| 0 <= i < es.len() ==> (#[trigger] es[i].message).channel_id.0 == c,
    ensures
        ({
            let post = apply_creates(pre, es);
            let k = pre.settings.max_messages as nat;
            let retained = last_k(recent_distinct(created_ids(es)), k);
            &&& post.wf()
            &&& msgs_of(post, c).dom().len() <= k
            &&& forall|m: u64| #[trigger] msgs_of(post, c).contains_key(m) <==> retained.contains(
                m,
            )
        }),
{
    let post = apply_creates(pre, es);
    let k = pre.settings.max_messages as nat;
    let retained = last_k(recent_distinct(created_ids(es)), k);
    lemma_creates_preserve_wf(pre, es);
    lemma_creates_reach_retention_fold(pre, es, c);
    lemma_bounded_retention(created_ids(es), k);
    assert(queue_of(post, c) == retained);
    if post.messages.contains_key(c) {
        lemma_message_table_size(post, c);
        assert(msgs_of(post, c) == post.messages[c]);
        assert(queue_of(post, c) == post.queues[c]);
        assert forall|m: u64| #[trigger] msgs_of(post, c).contains_key(m) implies
            retained.contains(m) by {
            assert(post.queues[c].contains(m));
        }
        assert forall|m: u64| retained.contains(m) implies msgs_of(post, c).contains_key(m) by {
            assert(post.queues[c].contains(m));
        }
    } else {
        assert(!post.queues.contains_key(c));
        assert(queue_of(post, c) =~= Seq::<u64>::empty());
        assert forall|m: u64| retained.contains(m) implies msgs_of(post, c).contains_key(m) by {
            assert(queue_of(post, c).contains(m));
        }
        assert(msgs_of(post, c).dom() =~= Set::<u64>::empty());
    }
}

/// With retention configured as zero, a message creation stores nothing at
/// all and evicts nothing; only the author's canonical record is upserted.
pub proof fn lemma_zero_retention_stores_nothing(e: MessageCreateEvent, pre: CacheView)
    requires
        pre.settings.max_messages == 0,
    ensures
        e.apply_spec(pre).messages == pre.messages,
        e.apply_spec(pre).queues == pre.queues,
        e.apply_spec(pre).users == pre.users.insert(e.message.author.id.0, e.message.author),
        e.output_spec(pre) is None,
{
}

/// Deleting a message identifier that is not cached is a no-op: the store is
/// unchanged and nothing is handed back.
pub proof fn lemma_delete_missing_is_noop(e: MessageDeleteEvent, pre: CacheView)
    requires
        pre.wf(),
        !msgs_of(pre, e.channel_id.0).contains_key(e.message_id.0),
    ensures
        e.apply_spec(pre) == pre,
        e.output_spec(pre) is None,
{
    let c = e.channel_id.0;
    let m = e.message_id.0;
    if pre.messages.contains_key(c) {
        assert(!pre.queues[c].contains(m));
        pre.queues[c].index_of_first_ensures(m);
        assert(pre.queues[c].remove_value(m) == pre.queues[c]);
        assert(pre.messages[c].remove(m) =~= pre.messages[c]);
        assert(e.apply_spec(pre).messages =~= pre.messages);
        assert(e.apply_spec(pre).queues =~= pre.queues);
        assert(e.apply_spec(pre) =~= pre);
    }
}

/// Deleting a cached message removes its identifier from both the channel's
/// message table and its eviction queue, so a subsequent lookup of that
/// identifier yields nothing.
pub proof fn lemma_delete_removes(e: MessageDeleteEvent, pre: CacheView)
    requires
        pre.wf(),
    ensures
        !msgs_of(e.apply_spec(pre), e.channel_id.0).contains_key(e.message_id.0),
        !queue_of(e.apply_spec(pre), e.channel_id.0).contains(e.message_id.0),
{
    let c = e.channel_id.0;
    let m = e.message_id.0;
    if pre.messages.contains_key(c) {
        crate::event::lemma_remove_value(pre.queues[c], m);
    }
}

/// Tearing a guild down removes the guild's entity, each channel the guild
/// owned, and those channels' message tables and eviction queues; a
/// polymorphic channel lookup of an owned channel afterwards yields nothing.
/// Both the guild-delete and the guild-unavailable event tear the guild down
/// exactly this way.
pub proof fn lemma_guild_teardown_cascade(pre: CacheView, gid: u64, c: u64)
    requires
        pre.wf(),
        pre.guilds.contains_key(gid),
        pre.guilds[gid].channels.contains_key(c),
        pre.channels.contains_key(c),
    ensures
        !guild_teardown_spec(pre, gid).guilds.contains_key(gid),
        !guild_teardown_spec(pre, gid).channels.contains_key(c),
        !guild_teardown_spec(pre, gid).messages.contains_key(c),
        !guild_teardown_spec(pre, gid).queues.contains_key(c),
        channel_lookup(guild_teardown_spec(pre, gid), c) is None,
{
}

/// The guild-delete event tears the guild down as `guild_teardown_spec`
/// says, and forgets the identifier outright.
pub proof fn lemma_guild_delete_cascade(e: GuildDeleteEvent, pre: CacheView, c: u64)
    requires
        pre.wf(),
        pre.guilds.contains_key(e.guild.id.0),
        pre.guilds[e.guild.id.0].channels.contains_key(c),
        pre.channels.contains_key(c),
    ensures
        !e.apply_spec(pre).guilds.contains_key(e.guild.id.0),
        !e.apply_spec(pre).unavailable_guilds.contains(e.guild.id.0),
        !e.apply_spec(pre).messages.contains_key(c),
        channel_lookup(e.apply_spec(pre), c) is None,
{
    lemma_guild_teardown_cascade(pre, e.guild.id.0, c);
}

/// The guild-unavailable event tears the guild down the same way, but moves
/// the identifier to the unavailable set instead of forgetting it.
pub proof fn lemma_guild_unavailable_cascade(e: GuildUnavailableEvent, pre: CacheView, c: u64)
    requires
        pre.wf(),
        pre.guilds.contains_key(e.guild_id.0),
        pre.guilds[e.guild_id.0].channels.contains_key(c),
        pre.channels.contains_key(c),
    ensures
        !e.apply_spec(pre).guilds.contains_key(e.guild_id.0),
        e.apply_spec(pre).unavailable_guilds.contains(e.guild_id.0),
        !e.apply_spec(pre).messages.contains_key(c),
        channel_lookup(e.apply_spec(pre), c) is None,
{
    lemma_guild_teardown_cascade(pre, e.guild_id.0, c);
}

/// A message-update event that carries only new text changes exactly the
/// cached message's text: every other previously-cached field — author
/// snapshot, timestamps, embeds, mentions and the rest — is left unchanged.
pub proof fn lemma_partial_update_preserves_fields(e: MessageUpdateEvent, pre: CacheView)
    requires
        pre.wf(),
        msgs_of(pre, e.channel_id.0).contains_key(e.id.0),
        e.content is Some,
        e.edited_timestamp is None,
        e.embeds is None,
        e.kind is None,
        e.mention_everyone is None,
        e.mention_roles is None,
        e.mentions is None,
        e.pinned is None,
        e.tts is None,
    ensures
        ({
            let prior = pre.messages[e.channel_id.0][e.id.0];
            let stored = msgs_of(e.apply_spec(pre), e.channel_id.0)[e.id.0];
            &&& stored.content == e.content->Some_0
            &&& stored.author == prior.author
            &&& stored.timestamp == prior.timestamp
            &&& stored.edited_timestamp == prior.edited_timestamp
            &&& stored.embeds == prior.embeds
            &&& stored.mentions == prior.mentions
            &&& stored.mention_roles == prior.mention_roles
            &&& stored.attachments == prior.attachments
            &&& stored.reactions == prior.reactions
            &&& stored.kind == prior.kind
            &&& stored.pinned == prior.pinned
            &&& stored.tts == prior.tts
            &&& stored.id == prior.id
            &&& stored.channel_id == prior.channel_id
            &&& stored.guild_id == prior.guild_id
        }),
{
}

/// Canonical user sharing: after a member-add and then a message creation
/// that reference the same user identifier, the canonical user table holds
/// exactly one record carrying that identifier, with the latest-applied
/// fields, and the stored member record resolves to it by identifier. The
/// message's own author field is the documented exception: it stays a
/// snapshot frozen at send time rather than a reference into the table.
pub proof fn lemma_canonical_user_sharing(
    e1: GuildMemberAddEvent,
    e2: MessageCreateEvent,
    pre: CacheView,
)
    requires
        pre.wf(),
        e1.user.id == e2.message.author.id,
        e1.member.user_id == e1.user.id,
    ensures
        ({
            let uid = e1.user.id.0;
            let post = e2.apply_spec(e1.apply_spec(pre));
            &&& post.users.contains_key(uid)
            &&& post.users[uid] == e2.message.author
            &&& forall|u: u64|
                #[trigger] post.users.contains_key(u) && post.users[u].id == e1.user.id ==> u
                    == uid
            &&& pre.guilds.contains_key(e1.guild_id.0) ==> {
                let members = post.guilds[e1.guild_id.0].members;
                &&& members.contains_key(uid)
                &&& members[uid].user_id == e1.user.id
            }
        }),
{
    let uid = e1.user.id.0;
    let mid = e1.apply_spec(pre);
    let post = e2.apply_spec(mid);
    assert(e2.message.author.id.0 == uid);
    assert(post.users == mid.users.insert(uid, e2.message.author));
    assert forall|u: u64|
        #[trigger] post.users.contains_key(u) && post.users[u].id == e1.user.id implies u
            == uid by {
        if u != uid {
            assert(post.users[u] == pre.users[u]);
            assert(pre.users[u].id == UserId(u));
        }
    }
}

} // verus!
