//! The two bounded caches of the collector.
//!
//! The caches are `lru::LruCache`s. What they hold is named here as a
//! sequence of entries, the most recently used first, and each operation is
//! stated over that sequence. These statements are taken on trust from the
//! cache's documentation; everything else in the crate is proved from them.
use vstd::prelude::*;
use lru::LruCache;
use crate::ids::MessageId;
use crate::message::{Message, MessageMetadata, MessageView, MetadataView};
use crate::seq_util::first_where;

verus! {

/// `lru::LruCache`, of which nothing is known but what the functions below
/// say.
#[verifier::external_type_specification]
#[verifier::external_body]
#[verifier::reject_recursive_types(K)]
#[verifier::reject_recursive_types(V)]
#[verifier::reject_recursive_types(S)]
pub struct ExLruCache<K, V, S>(lru::LruCache<K, V, S>);

/// `lru::DefaultHasher`, the hasher of the caches; nothing is said of it.
#[verifier::external_type_specification]
#[verifier::external_body]
pub struct ExDefaultHasher(lru::DefaultHasher);

/// The cache of message bodies: for each message its milestone (estimated,
/// or exact once the message is referenced) and its body.
pub type MessageCache = LruCache<MessageId, (u32, Message)>;

/// The cache of metadata.
pub type MetadataCache = LruCache<MessageId, MessageMetadata>;

/// The entries of a message cache, the most recently used first.
pub uninterp spec fn message_entries(cache: LruCache<MessageId, (u32, Message)>) -> Seq<
    (MessageId, (u32, MessageView)),
>;

/// The number of entries that a message cache holds at most.
pub uninterp spec fn message_capacity(cache: LruCache<MessageId, (u32, Message)>) -> nat;

/// The entries of a metadata cache, the most recently used first.
pub uninterp spec fn metadata_entries(cache: LruCache<MessageId, MessageMetadata>) -> Seq<
    (MessageId, MetadataView),
>;

/// The number of entries that a metadata cache holds at most.
pub uninterp spec fn metadata_capacity(cache: LruCache<MessageId, MessageMetadata>) -> nat;

/// Entries under the key `id`.
pub open spec fn key_pred<V>(id: MessageId) -> spec_fn((MessageId, V)) -> bool {
    |e: (MessageId, V)| e.0 == id
}

/// The position of the entry under `id`; the number of entries if there is
/// none.
pub open spec fn position<V>(entries: Seq<(MessageId, V)>, id: MessageId) -> int {
    first_where(entries, key_pred::<V>(id))
}

/// The value cached under `id`.
pub open spec fn lookup<V>(entries: Seq<(MessageId, V)>, id: MessageId) -> Option<V> {
    let k = position(entries, id);
    if k < entries.len() {
        Some(entries[k].1)
    } else {
        None
    }
}

/// The entries after a read of `id`: the entry under `id`, if there is one,
/// becomes the most recently used.
pub open spec fn touched<V>(entries: Seq<(MessageId, V)>, id: MessageId) -> Seq<(MessageId, V)> {
    let k = position(entries, id);
    if k < entries.len() {
        seq![entries[k]] + entries.remove(k)
    } else {
        entries
    }
}

/// The entries after `value` was put under `id`: the new entry is the most
/// recently used; it replaces the entry under `id` if there is one, and
/// otherwise drives out the least recently used entry of a full cache.
pub open spec fn put<V>(entries: Seq<(MessageId, V)>, capacity: nat, id: MessageId, value: V) -> Seq<
    (MessageId, V),
> {
    let k = position(entries, id);
    if k < entries.len() {
        seq![(id, value)] + entries.remove(k)
    } else if entries.len() == capacity {
        seq![(id, value)] + entries.drop_last()
    } else {
        seq![(id, value)] + entries
    }
}

/// `LruCache::new`: an empty cache that holds at most `capacity` entries.
#[verifier::external_body]
pub(crate) fn new_message_cache(capacity: usize) -> (cache: LruCache<MessageId, (u32, Message)>)
    requires
        capacity > 0,
    ensures
        message_entries(cache) == Seq::<(MessageId, (u32, MessageView))>::empty(),
        message_capacity(cache) == capacity,
{
    LruCache::new(std::num::NonZeroUsize::new(capacity).unwrap())
}

/// `LruCache::get`, with a copy of the value: the value under `id`, if
/// there is one; its entry becomes the most recently used.
#[verifier::external_body]
pub(crate) fn get_message(cache: &mut LruCache<MessageId, (u32, Message)>, id: &MessageId) -> (r:
    Option<(u32, Message)>)
    ensures
        message_entries(*final(cache)) == touched(message_entries(*old(cache)), *id),
        message_capacity(*final(cache)) == message_capacity(*old(cache)),
        match r {
            Some(v) => lookup(message_entries(*old(cache)), *id) == Some((v.0, v.1.deep_view())),
            None => lookup(message_entries(*old(cache)), *id).is_none(),
        },
{
    cache.get(id).cloned()
}

/// `LruCache::put`: the value is cached under `id` as the most recently
/// used entry; it replaces the value under `id`, or else, in a full cache,
/// the least recently used entry makes room for it.
#[verifier::external_body]
pub(crate) fn put_message(
    cache: &mut LruCache<MessageId, (u32, Message)>,
    id: MessageId,
    value: (u32, Message),
)
    ensures
        message_entries(*final(cache)) == put(
            message_entries(*old(cache)),
            message_capacity(*old(cache)),
            id,
            (value.0, value.1.deep_view()),
        ),
        message_capacity(*final(cache)) == message_capacity(*old(cache)),
{
    cache.put(id, value);
}

/// `LruCache::peek`, reduced to the milestone of the entry: the milestone
/// cached under `id`, if there is one. No entry changes its place.
#[verifier::external_body]
pub(crate) fn peek_milestone(cache: &LruCache<MessageId, (u32, Message)>, id: &MessageId) -> (r:
    Option<u32>)
    ensures
        r == match lookup(message_entries(*cache), *id) {
            Some(e) => Some(e.0),
            None => None,
        },
{
    cache.peek(id).map(|entry| entry.0)
}

/// `LruCache::new`: an empty cache that holds at most `capacity` entries.
#[verifier::external_body]
pub(crate) fn new_metadata_cache(capacity: usize) -> (cache: LruCache<MessageId, MessageMetadata>)
    requires
        capacity > 0,
    ensures
        metadata_entries(cache) == Seq::<(MessageId, MetadataView)>::empty(),
        metadata_capacity(cache) == capacity,
{
    LruCache::new(std::num::NonZeroUsize::new(capacity).unwrap())
}

/// `LruCache::get`, with a copy of the value: the value under `id`, if
/// there is one; its entry becomes the most recently used.
#[verifier::external_body]
pub(crate) fn get_metadata(cache: &mut LruCache<MessageId, MessageMetadata>, id: &MessageId) -> (r:
    Option<MessageMetadata>)
    ensures
        metadata_entries(*final(cache)) == touched(metadata_entries(*old(cache)), *id),
        metadata_capacity(*final(cache)) == metadata_capacity(*old(cache)),
        match r {
            Some(v) => lookup(metadata_entries(*old(cache)), *id) == Some(v.deep_view()),
            None => lookup(metadata_entries(*old(cache)), *id).is_none(),
        },
{
    cache.get(id).cloned()
}

/// `LruCache::put`: the value is cached under `id` as the most recently
/// used entry; it replaces the value under `id`, or else, in a full cache,
/// the least recently used entry makes room for it.
#[verifier::external_body]
pub(crate) fn put_metadata(
    cache: &mut LruCache<MessageId, MessageMetadata>,
    id: MessageId,
    value: MessageMetadata,
)
    ensures
        metadata_entries(*final(cache)) == put(
            metadata_entries(*old(cache)),
            metadata_capacity(*old(cache)),
            id,
            value.deep_view(),
        ),
        metadata_capacity(*final(cache)) == metadata_capacity(*old(cache)),
{
    cache.put(id, value);
}

} // verus!
