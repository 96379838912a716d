//! The mathematical model of the store of waiting pairs, and what holds of it.
//!
//! A pair is an original message and the reply that the bot sent to it. The
//! model is two finite maps and three transitions; the executable store in
//! [`crate::future_embed_removals`] is specified by them, and the laws at the
//! end of this file are proved of them.

use vstd::prelude::*;

verus! {

/// What is known of one reply that the bot has sent.
#[derive(Clone, Copy, Debug, PartialEq, Eq, Structural)]
pub struct BotMessage {
    /// The message that the reply answers.
    pub original_message: u64,
    /// The number of embeds on the reply; `None` until they have been generated.
    pub embed_count: Option<usize>,
}

/// A later announcement about one side of a pair.
#[derive(Clone, Copy, Debug, PartialEq, Eq, Structural)]
pub enum Signal {
    /// The original message now shows embeds of which `target` are accounted for.
    OriginalEmbeds { target: usize },
    /// The reply now shows `count` embeds.
    ReplyEmbeds { count: usize },
}

/// Anything that happens to a pair after its reply was sent.
#[derive(Clone, Copy, Debug, PartialEq, Eq, Structural)]
pub enum Event {
    /// The reply is registered, with the number of its embeds where they are known.
    Registered { count: Option<usize> },
    /// One side of the pair is announced.
    Announced { signal: Signal },
}

/// The content of the store: two finite maps.
#[verifier::ext_equal]
pub struct Pending {
    /// Original message to its target embed count.
    pub originals: Map<u64, usize>,
    /// Reply to what is known of it.
    pub replies: Map<u64, BotMessage>,
}

impl Pending {
    /// The store that holds nothing.
    pub open spec fn empty() -> Pending {
        Pending { originals: Map::empty(), replies: Map::empty() }
    }

    /// No pair waits with both of its sides known: where a reply's count is
    /// known, its original has no entry.
    pub open spec fn consistent(self) -> bool {
        forall|reply: u64| #[trigger]
            self.replies.contains_key(reply) && self.replies[reply].embed_count is Some
                ==> !self.originals.contains_key(self.replies[reply].original_message)
    }

    /// Whether `reply` waits in `replies` for `original` with a known number of embeds.
    pub open spec fn knows(replies: Map<u64, BotMessage>, original: u64, reply: u64) -> bool {
        &&& replies.contains_key(reply)
        &&& replies[reply].original_message == original
        &&& replies[reply].embed_count is Some
    }

    /// Whether `reply` is the smallest reply that waits for `original` with a known count.
    pub open spec fn least_known(replies: Map<u64, BotMessage>, original: u64, reply: u64) -> bool {
        &&& Self::knows(replies, original, reply)
        &&& forall|other: u64| Self::knows(replies, original, other) ==> reply <= other
    }

    /// The reply that an original-side announcement for `original` is compared
    /// with: the smallest reply identifier that waits for `original` with a known
    /// count, or `None` where no reply does.
    pub open spec fn known_reply_for(self, original: u64) -> Option<u64> {
        if exists|reply: u64| Self::least_known(self.replies, original, reply) {
            Some(choose|reply: u64| Self::least_known(self.replies, original, reply))
        } else {
            None
        }
    }

    /// The store without the two entries of the pair.
    pub open spec fn resolve(self, original: u64, reply: u64) -> Pending {
        Pending { originals: self.originals.remove(original), replies: self.replies.remove(reply) }
    }

    /// The original side becomes known. Where a reply waits for `original` with
    /// a known count, the pair is settled: both entries leave, and the result
    /// says whether the counts agree. Otherwise the target count is kept.
    pub open spec fn add_original_message(self, original: u64, target: usize) -> (Pending, bool) {
        match self.known_reply_for(original) {
            Some(reply) => (
                self.resolve(original, reply),
                self.replies[reply].embed_count == Some(target),
            ),
            None => (
                Pending { originals: self.originals.insert(original, target), replies: self.replies },
                false,
            ),
        }
    }

    /// The reply is registered. Where its count is known and `original` has a
    /// target count, the pair is settled: both entries leave, and the result says
    /// whether the counts agree. Otherwise the reply is kept with what is known.
    pub open spec fn add_bot_message(self, original: u64, reply: u64, count: Option<usize>) -> (
        Pending,
        bool,
    ) {
        if count is Some && self.originals.contains_key(original) {
            (self.resolve(original, reply), self.originals[original] == count->0)
        } else {
            (
                Pending {
                    originals: self.originals,
                    replies: self.replies.insert(
                        reply,
                        BotMessage { original_message: original, embed_count: count },
                    ),
                },
                false,
            )
        }
    }

    /// The count of a registered reply becomes known, or changes. Where its
    /// original has a target count, the pair is settled: both entries leave, and
    /// the result names the original if the counts agree. Otherwise the count is
    /// written over the one kept. An unknown reply changes nothing.
    pub open spec fn update_bot_message(self, reply: u64, count: usize) -> (Pending, Option<u64>) {
        if !self.replies.contains_key(reply) {
            (self, None)
        } else {
            let original = self.replies[reply].original_message;
            if self.originals.contains_key(original) {
                (
                    self.resolve(original, reply),
                    if self.originals[original] == count {
                        Some(original)
                    } else {
                        None
                    },
                )
            } else {
                (
                    Pending {
                        originals: self.originals,
                        replies: self.replies.insert(
                            reply,
                            BotMessage { original_message: original, embed_count: Some(count) },
                        ),
                    },
                    None,
                )
            }
        }
    }

    /// One announcement about the pair (`original`, `reply`): the store after it,
    /// and whether it asks on behalf of this pair for the embeds of `original`
    /// to be hidden. An announcement of the original's embeds asks on behalf of
    /// the reply that it was compared with.
    pub open spec fn announce(self, original: u64, reply: u64, signal: Signal) -> (Pending, bool) {
        match signal {
            Signal::OriginalEmbeds { target } => {
                let (next, matched) = self.add_original_message(original, target);
                (next, matched && self.known_reply_for(original) == Some(reply))
            },
            Signal::ReplyEmbeds { count } => {
                let (next, hit) = self.update_bot_message(reply, count);
                (next, hit == Some(original))
            },
        }
    }

    /// How often a run of announcements about the pair asks for the embeds of
    /// `original` to be hidden.
    pub open spec fn suppressions(self, original: u64, reply: u64, signals: Seq<Signal>) -> nat
        decreases signals.len(),
    {
        if signals.len() == 0 {
            0
        } else {
            let (next, fired) = self.announce(original, reply, signals[0]);
            (if fired {
                1nat
            } else {
                0nat
            }) + next.suppressions(original, reply, signals.drop_first())
        }
    }

    /// One event of the pair (`original`, `reply`): the store after it, and
    /// whether it asks on behalf of this pair for the embeds of `original` to
    /// be hidden.
    pub open spec fn happen(self, original: u64, reply: u64, event: Event) -> (Pending, bool) {
        match event {
            Event::Registered { count } => self.add_bot_message(original, reply, count),
            Event::Announced { signal } => self.announce(original, reply, signal),
        }
    }

    /// How often a run of events of the pair asks for the embeds of `original`
    /// to be hidden.
    pub open spec fn suppressions_of(self, original: u64, reply: u64, events: Seq<Event>) -> nat
        decreases events.len(),
    {
        if events.len() == 0 {
            0
        } else {
            let (next, fired) = self.happen(original, reply, events[0]);
            (if fired {
                1nat
            } else {
                0nat
            }) + next.suppressions_of(original, reply, events.drop_first())
        }
    }

    /// How often a run of events registers the reply.
    pub open spec fn registrations(events: Seq<Event>) -> nat
        decreases events.len(),
    {
        if events.len() == 0 {
            0
        } else {
            (if events[0] is Registered {
                1nat
            } else {
                0nat
            }) + Self::registrations(events.drop_first())
        }
    }

    /// No reply waits for `original`, and `reply` has no entry.
    pub open spec fn dormant(self, original: u64, reply: u64) -> bool {
        &&& !self.replies.contains_key(reply)
        &&& forall|other: u64| #[trigger]
            self.replies.contains_key(other) ==> self.replies[other].original_message != original
    }

    /// The store holds nothing of the pair yet.
    pub open spec fn fresh(self, original: u64, reply: u64) -> bool {
        &&& !self.originals.contains_key(original)
        &&& self.dormant(original, reply)
    }

    /// Whether `signal` finds both sides of the pair known, with counts that differ.
    pub open spec fn mismatch(self, original: u64, reply: u64, signal: Signal) -> bool {
        match signal {
            Signal::OriginalEmbeds { target } => {
                &&& self.known_reply_for(original) == Some(reply)
                &&& self.replies[reply].embed_count != Some(target)
            },
            Signal::ReplyEmbeds { count } => {
                &&& self.replies.contains_key(reply)
                &&& self.replies[reply].original_message == original
                &&& self.originals.contains_key(original)
                &&& self.originals[original] != count
            },
        }
    }

    /// `known_reply_for` is the value that a search for the least known reply finds.
    pub proof fn known_reply_is_least(self, original: u64, found: Option<u64>)
        requires
            found matches Some(r) ==> Self::knows(self.replies, original, r),
            forall|k: u64|
                Self::knows(self.replies, original, k) ==> found is Some && found.unwrap() <= k,
        ensures
            found == self.known_reply_for(original),
    {
        if let Some(r) = found {
            assert(Self::least_known(self.replies, original, r));
        }
    }

    /// What `known_reply_for` returns waits for `original` with a known count,
    /// and it returns `None` only where no reply does.
    pub proof fn known_reply_for_sound(self, original: u64)
        ensures
            match self.known_reply_for(original) {
                Some(reply) => Self::least_known(self.replies, original, reply),
                None => forall|reply: u64| !Self::knows(self.replies, original, reply),
            },
    {
        if !exists|reply: u64| Self::least_known(self.replies, original, reply) {
            assert forall|reply: u64| !Self::knows(self.replies, original, reply) by {
                if Self::knows(self.replies, original, reply) {
                    Self::least_exists(self.replies, original, reply);
                }
            }
        }
    }

    /// Every transition keeps the store consistent.
    pub proof fn transitions_keep_consistent(self, original: u64, reply: u64, count: usize)
        requires
            self.consistent(),
        ensures
            self.add_original_message(original, count).0.consistent(),
            self.add_bot_message(original, reply, Some(count)).0.consistent(),
            self.add_bot_message(original, reply, None).0.consistent(),
            self.update_bot_message(reply, count).0.consistent(),
    {
        self.known_reply_for_sound(original);
        let after = self.add_original_message(original, count).0;
        assert forall|other: u64| #[trigger]
            after.replies.contains_key(other) && after.replies[other].embed_count
                is Some implies !after.originals.contains_key(
            after.replies[other].original_message,
        ) by {
            if self.known_reply_for(original) is None {
                assert(!Self::knows(self.replies, original, other));
            }
        }
    }

    /// An announcement about a pair whose reply has no entry asks for nothing,
    /// and gives the reply no entry.
    pub proof fn unregistered_stays_silent(self, original: u64, reply: u64, signal: Signal)
        requires
            !self.replies.contains_key(reply),
        ensures
            !self.announce(original, reply, signal).1,
            !self.announce(original, reply, signal).0.replies.contains_key(reply),
    {
        self.known_reply_for_sound(original);
    }

    /// No run of announcements about a pair whose reply has no entry asks for
    /// the embeds to be hidden.
    pub proof fn unregistered_never_fires(self, original: u64, reply: u64, signals: Seq<Signal>)
        requires
            !self.replies.contains_key(reply),
        ensures
            self.suppressions(original, reply, signals) == 0,
        decreases signals.len(),
    {
        if signals.len() > 0 {
            self.unregistered_stays_silent(original, reply, signals[0]);
            self.announce(original, reply, signals[0]).0.unregistered_never_fires(
                original,
                reply,
                signals.drop_first(),
            );
        }
    }

    /// An announcement that settles a pair removes both of its entries: this
    /// holds of the one that asks for the embeds to be hidden and of the one
    /// that finds a mismatch, and the latter asks for nothing.
    pub proof fn settling_removes_both(self, original: u64, reply: u64, signal: Signal)
        ensures
            self.announce(original, reply, signal).1 || self.mismatch(original, reply, signal)
                ==> self.announce(original, reply, signal).0 == self.resolve(original, reply),
            self.mismatch(original, reply, signal) ==> !self.announce(original, reply, signal).1,
    {
        self.known_reply_for_sound(original);
    }

    /// At most once: whatever announcements arrive about a pair, in whatever
    /// order and however often repeated, and whatever else the store holds,
    /// they ask at most once on behalf of the pair for the embeds of its
    /// original to be hidden.
    pub proof fn at_most_once(self, original: u64, reply: u64, signals: Seq<Signal>)
        ensures
            self.suppressions(original, reply, signals) <= 1,
        decreases signals.len(),
    {
        if signals.len() > 0 {
            let (next, fired) = self.announce(original, reply, signals[0]);
            if fired {
                self.settling_removes_both(original, reply, signals[0]);
                next.unregistered_never_fires(original, reply, signals.drop_first());
            } else {
                next.at_most_once(original, reply, signals.drop_first());
            }
        }
    }

    /// Once for each registration: a run of events of a pair asks no more often
    /// for the embeds of its original to be hidden than the reply is registered
    /// in it, counting the registration that the store holds at the start. So a
    /// pair asks twice only if its reply is registered again in between.
    pub proof fn once_for_each_registration(self, original: u64, reply: u64, events: Seq<Event>)
        ensures
            self.suppressions_of(original, reply, events) <= (if self.replies.contains_key(reply) {
                1nat
            } else {
                0nat
            }) + Self::registrations(events),
        decreases events.len(),
    {
        if events.len() > 0 {
            let next = self.happen(original, reply, events[0]).0;
            match events[0] {
                Event::Registered { count } => {},
                Event::Announced { signal } => {
                    self.settling_removes_both(original, reply, signal);
                    if !self.replies.contains_key(reply) {
                        self.unregistered_stays_silent(original, reply, signal);
                    }
                    self.known_reply_for_sound(original);
                },
            }
            next.once_for_each_registration(original, reply, events.drop_first());
        }
    }

    /// A mismatch is final: the announcement that finds both sides known with
    /// counts that differ asks for nothing and removes both entries, and no
    /// later announcement about the pair asks for anything.
    pub proof fn mismatch_is_terminal(
        self,
        original: u64,
        reply: u64,
        signal: Signal,
        later: Seq<Signal>,
    )
        requires
            self.mismatch(original, reply, signal),
        ensures
            !self.announce(original, reply, signal).1,
            self.announce(original, reply, signal).0 == self.resolve(original, reply),
            !self.resolve(original, reply).originals.contains_key(original),
            !self.resolve(original, reply).replies.contains_key(reply),
            self.resolve(original, reply).suppressions(original, reply, later) == 0,
    {
        self.settling_removes_both(original, reply, signal);
        self.resolve(original, reply).unregistered_never_fires(original, reply, later);
    }

    /// A mismatch found when the reply is registered is final in the same way.
    pub proof fn mismatch_at_registration_is_terminal(
        self,
        original: u64,
        reply: u64,
        count: usize,
        later: Seq<Signal>,
    )
        requires
            self.originals.contains_key(original),
            self.originals[original] != count,
        ensures
            self.add_bot_message(original, reply, Some(count)) == (
                self.resolve(original, reply),
                false,
            ),
            !self.resolve(original, reply).originals.contains_key(original),
            !self.resolve(original, reply).replies.contains_key(reply),
            self.resolve(original, reply).suppressions(original, reply, later) == 0,
    {
        self.resolve(original, reply).unregistered_never_fires(original, reply, later);
    }

    /// Whether two stores hold the same of an original message and of a reply.
    pub open spec fn agree_on(self, other: Pending, original: u64, reply: u64) -> bool {
        &&& self.originals.contains_key(original) == other.originals.contains_key(original)
        &&& self.originals.contains_key(original) ==> self.originals[original]
            == other.originals[original]
        &&& self.replies.contains_key(reply) == other.replies.contains_key(reply)
        &&& self.replies.contains_key(reply) ==> self.replies[reply] == other.replies[reply]
    }

    /// Pairs do not disturb each other: what is registered or announced about
    /// an original message and a reply leaves what the store holds of another
    /// original message and of another reply, which does not answer the first
    /// original, as it is.
    pub proof fn other_pairs_are_untouched(
        self,
        original: u64,
        reply: u64,
        count: usize,
        other_original: u64,
        other_reply: u64,
    )
        requires
            other_original != original,
            other_reply != reply,
            self.replies.contains_key(other_reply) ==> self.replies[other_reply].original_message
                != original,
        ensures
            self.add_original_message(original, count).0.agree_on(self, other_original, other_reply),
            self.add_bot_message(original, reply, Some(count)).0.agree_on(
                self,
                other_original,
                other_reply,
            ),
            self.add_bot_message(original, reply, None).0.agree_on(self, other_original, other_reply),
            self.replies.contains_key(reply) && self.replies[reply].original_message == original
                ==> self.update_bot_message(reply, count).0.agree_on(
                self,
                other_original,
                other_reply,
            ),
    {
        self.known_reply_for_sound(original);
    }

    /// The two sides of a new pair commute: whichever of them is registered
    /// first, the first call asks for nothing, the second asks for the embeds to
    /// be hidden exactly if the counts agree, and afterwards the store is what it
    /// was before either.
    pub proof fn registrations_commute(self, original: u64, reply: u64, target: usize, count: usize)
        requires
            self.fresh(original, reply),
        ensures
            ({
                let (first, asked_first) = self.add_original_message(original, target);
                let (second, asked_second) = first.add_bot_message(original, reply, Some(count));
                !asked_first && asked_second == (target == count) && second == self
            }),
            ({
                let (first, asked_first) = self.add_bot_message(original, reply, Some(count));
                let (second, asked_second) = first.add_original_message(original, target);
                !asked_first && asked_second == (target == count) && second == self
            }),
    {
        self.known_reply_for_sound(original);
        let first = self.add_bot_message(original, reply, Some(count)).0;
        first.known_reply_for_sound(original);
        assert(Self::knows(first.replies, original, reply));
    }

    /// The two announcements about a registered pair commute: with the reply
    /// registered before its count is known, the announcement of the original's
    /// embeds and that of the reply's embeds may arrive in either order. The
    /// first asks for nothing, the second asks for the embeds to be hidden
    /// exactly if the counts agree, and afterwards the store is what it was
    /// before the reply was registered.
    pub proof fn announcements_commute(self, original: u64, reply: u64, target: usize, count: usize)
        requires
            self.fresh(original, reply),
        ensures
            ({
                let registered = self.add_bot_message(original, reply, None).0;
                let (first, asked_first) = registered.announce(
                    original,
                    reply,
                    Signal::OriginalEmbeds { target },
                );
                let (second, asked_second) = first.announce(
                    original,
                    reply,
                    Signal::ReplyEmbeds { count },
                );
                !asked_first && asked_second == (target == count) && second == self
            }),
            ({
                let registered = self.add_bot_message(original, reply, None).0;
                let (first, asked_first) = registered.announce(
                    original,
                    reply,
                    Signal::ReplyEmbeds { count },
                );
                let (second, asked_second) = first.announce(
                    original,
                    reply,
                    Signal::OriginalEmbeds { target },
                );
                !asked_first && asked_second == (target == count) && second == self
            }),
    {
        let registered = self.add_bot_message(original, reply, None).0;
        registered.known_reply_for_sound(original);
        assert forall|other: u64| !Self::knows(registered.replies, original, other) by {}
        let first = registered.announce(original, reply, Signal::ReplyEmbeds { count }).0;
        first.known_reply_for_sound(original);
        assert(Self::knows(first.replies, original, reply));
    }

    /// With equal counts either order of registration ends with the request to
    /// hide the embeds: the reply first and then the original, or the original
    /// first and then the reply.
    pub proof fn equal_counts_match_in_either_order(self, original: u64, reply: u64, count: usize)
        requires
            self.fresh(original, reply),
        ensures
            self.add_bot_message(original, reply, Some(count)).0.add_original_message(
                original,
                count,
            ).1,
            self.add_original_message(original, count).0.add_bot_message(
                original,
                reply,
                Some(count),
            ).1,
    {
        self.registrations_commute(original, reply, count, count);
    }

    /// Where some reply is known for `original`, a least one is.
    proof fn least_exists(replies: Map<u64, BotMessage>, original: u64, reply: u64)
        requires
            Self::knows(replies, original, reply),
        ensures
            exists|least: u64| Self::least_known(replies, original, least),
        decreases reply,
    {
        if forall|other: u64| Self::knows(replies, original, other) ==> reply <= other {
            assert(Self::least_known(replies, original, reply));
        } else {
            let smaller = choose|other: u64| Self::knows(replies, original, other) && other < reply;
            Self::least_exists(replies, original, smaller);
        }
    }
}

} // verus!
