//! The store of pairs (original message, reply) that wait for their embeds.
//!
//! The store is plain owned state: whoever shares it between tasks puts it
//! behind one lock and holds that lock for the whole of each call, so that
//! every comparison and the removals that follow it are one step.

use crate::pending::{BotMessage, Pending};
use std::collections::HashMap;
use vstd::prelude::*;
use vstd::std_specs::hash::spec_hash_map_iter;
use vstd::std_specs::iter::IteratorSpec;

verus! {

/// The two maps of the store.
pub struct FutureEmbedRemovalsInner {
    /// Key: original message, value: target embed count.
    messages_with_fixable_embeds: HashMap<u64, usize>,
    /// Key: bot message.
    bot_messages: HashMap<u64, BotMessage>,
}

impl View for FutureEmbedRemovalsInner {
    type V = Pending;

    closed spec fn view(&self) -> Pending {
        Pending { originals: self.messages_with_fixable_embeds@, replies: self.bot_messages@ }
    }
}

impl FutureEmbedRemovalsInner {
    pub fn new() -> (inner: Self)
        ensures
            inner@ == Pending::empty(),
    {
        FutureEmbedRemovalsInner {
            messages_with_fixable_embeds: HashMap::new(),
            bot_messages: HashMap::new(),
        }
    }

    /// The smallest reply that waits for `original` with its count known, if there is one.
    fn find_known_reply(&self, original: u64) -> (found: Option<u64>)
        ensures
            found == self@.known_reply_for(original),
    {
        broadcast use vstd::std_specs::hash::group_hash_axioms;

        let ghost replies = self.bot_messages@;
        let ghost walk = spec_hash_map_iter(&self.bot_messages).remaining();
        let ghost mut seen: int = 0;
        let mut found: Option<u64> = None;
        for entry in it: self.bot_messages.iter()
            invariant
                replies == self.bot_messages@,
                it.seq() == walk,
                seen == it.index(),
                found matches Some(r) ==> Pending::knows(replies, original, r),
                forall|i: int|
                    0 <= i < seen && Pending::knows(replies, original, *(#[trigger] walk[i]).0)
                        ==> found is Some && found.unwrap() <= *walk[i].0,
        {
            let (k, v) = entry;
            proof {
                seen = seen + 1;
            }
            if v.original_message == original && v.embed_count.is_some() {
                match found {
                    Some(r) => {
                        if *k < r {
                            found = Some(*k);
                        }
                    },
                    None => {
                        found = Some(*k);
                    },
                }
            }
        }
        proof {
            assert forall|k: u64| Pending::knows(replies, original, k) implies found is Some
                && found.unwrap() <= k by {
                let i = choose|i: int| 0 <= i < walk.len() && walk[i] == (&k, &replies[k]);
            }
            self@.known_reply_is_least(original, found);
        }
        found
    }
}

/// The store of waiting pairs.
pub struct FutureEmbedRemovals(FutureEmbedRemovalsInner);

impl View for FutureEmbedRemovals {
    type V = Pending;

    closed spec fn view(&self) -> Pending {
        self.0@
    }
}

impl FutureEmbedRemovals {
    pub fn new() -> (store: Self)
        ensures
            store@ == Pending::empty(),
            store@.consistent(),
    {
        Self(FutureEmbedRemovalsInner::new())
    }

    /// Registers the reply `bot_message` to `original_message`, with the number
    /// of its embeds where they are known. Returns whether the embeds of
    /// `original_message` are to be hidden now.
    pub fn add_bot_message(
        &mut self,
        original_message: u64,
        bot_message: u64,
        embed_count: Option<usize>,
    ) -> (matched: bool)
        ensures
            final(self)@ == old(self)@.add_bot_message(original_message, bot_message, embed_count).0,
            matched == old(self)@.add_bot_message(original_message, bot_message, embed_count).1,
            old(self)@.consistent() ==> final(self)@.consistent(),
    {
        broadcast use vstd::std_specs::hash::group_hash_axioms;

        proof {
            if old(self)@.consistent() {
                old(self)@.transitions_keep_consistent(
                    original_message,
                    bot_message,
                    if embed_count is Some {
                        embed_count->0
                    } else {
                        0
                    },
                );
            }
        }
        if let Some(count) = embed_count {
            let target = self.0.messages_with_fixable_embeds.remove(&original_message);
            if let Some(target_embed_count) = target {
                self.0.bot_messages.remove(&bot_message);
                return target_embed_count == count;
            }
        }
        self.0.bot_messages.insert(bot_message, BotMessage { original_message, embed_count });
        false
    }

    /// The reply `bot_message_id` now shows `embed_count` embeds. Returns the
    /// original message whose embeds are to be hidden now, if there is one.
    pub fn update_bot_message(&mut self, bot_message_id: u64, embed_count: usize) -> (original:
        Option<u64>)
        ensures
            final(self)@ == old(self)@.update_bot_message(bot_message_id, embed_count).0,
            original == old(self)@.update_bot_message(bot_message_id, embed_count).1,
            old(self)@.consistent() ==> final(self)@.consistent(),
    {
        broadcast use vstd::std_specs::hash::group_hash_axioms;

        proof {
            if old(self)@.consistent() {
                old(self)@.transitions_keep_consistent(0, bot_message_id, embed_count);
            }
        }
        let original_message = match self.0.bot_messages.get(&bot_message_id) {
            Some(bot_message) => bot_message.original_message,
            None => {
                return None;
            },
        };
        match self.0.messages_with_fixable_embeds.remove(&original_message) {
            Some(target_embed_count) => {
                // Both are known, so the pair is settled, whichever way.
                self.0.bot_messages.remove(&bot_message_id);
                if target_embed_count == embed_count {
                    Some(original_message)
                } else {
                    None
                }
            },
            None => {
                // Keep the count and go on waiting for the original message.
                self.0.bot_messages.insert(
                    bot_message_id,
                    BotMessage { original_message, embed_count: Some(embed_count) },
                );
                None
            },
        }
    }

    /// The message `original_message` shows embeds of which `target_embed_count`
    /// are accounted for. Returns whether its embeds are to be hidden now.
    pub fn add_original_message(&mut self, original_message: u64, target_embed_count: usize) -> (matched:
        bool)
        ensures
            final(self)@ == old(self)@.add_original_message(original_message, target_embed_count).0,
            matched == old(self)@.add_original_message(original_message, target_embed_count).1,
            old(self)@.consistent() ==> final(self)@.consistent(),
    {
        broadcast use vstd::std_specs::hash::group_hash_axioms;

        proof {
            self@.known_reply_for_sound(original_message);
            if old(self)@.consistent() {
                old(self)@.transitions_keep_consistent(original_message, 0, target_embed_count);
            }
        }
        match self.0.find_known_reply(original_message) {
            Some(bot_message_id) => {
                // Both are known, so the pair is settled, whichever way.
                let bot_message = self.0.bot_messages.remove(&bot_message_id);
                self.0.messages_with_fixable_embeds.remove(&original_message);
                match bot_message {
                    Some(BotMessage { embed_count: Some(embed_count), .. }) => embed_count
                        == target_embed_count,
                    _ => false,
                }
            },
            None => {
                // Wait for the reply to come along.
                self.0.messages_with_fixable_embeds.insert(original_message, target_embed_count);
                false
            },
        }
    }

    /// The target embed count that is kept for `original_message`, if one is.
    pub fn target_embed_count(&self, original_message: u64) -> (target: Option<usize>)
        ensures
            target == (if self@.originals.contains_key(original_message) {
                Some(self@.originals[original_message])
            } else {
                None
            }),
    {
        broadcast use vstd::std_specs::hash::group_hash_axioms;

        match self.0.messages_with_fixable_embeds.get(&original_message) {
            Some(target) => Some(*target),
            None => None,
        }
    }

    /// What is kept of the reply `bot_message`, if anything is.
    pub fn bot_message(&self, bot_message: u64) -> (kept: Option<BotMessage>)
        ensures
            kept == (if self@.replies.contains_key(bot_message) {
                Some(self@.replies[bot_message])
            } else {
                None
            }),
    {
        broadcast use vstd::std_specs::hash::group_hash_axioms;

        match self.0.bot_messages.get(&bot_message) {
            Some(kept) => Some(*kept),
            None => None,
        }
    }

    /// Whether nothing waits.
    pub fn is_empty(&self) -> (empty: bool)
        ensures
            empty == (self@ == Pending::empty()),
    {
        broadcast use vstd::std_specs::hash::group_hash_axioms;

        let empty = self.0.messages_with_fixable_embeds.is_empty() && self.0.bot_messages.is_empty();
        proof {
            if empty {
                assert(self@.originals =~= Map::<u64, usize>::empty());
                assert(self@.replies =~= Map::<u64, BotMessage>::empty());
            }
        }
        empty
    }

    /// The same as [`Self::add_original_message`], for embeds of the original
    /// message that arrive after the reply was registered.
    pub fn update_original_message(&mut self, original_message: u64, target_embed_count: usize) -> (matched:
        bool)
        ensures
            final(self)@ == old(self)@.add_original_message(original_message, target_embed_count).0,
            matched == old(self)@.add_original_message(original_message, target_embed_count).1,
            old(self)@.consistent() ==> final(self)@.consistent(),
    {
        self.add_original_message(original_message, target_embed_count)
    }
}

} // verus!
