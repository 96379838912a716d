//! What to do about the embeds of a message whose links were fixed.

use crate::fix_link::{fix_models, LinkFix, LinkFixModel, LinkFixer, LinkFixerModel};
use crate::future_embed_removals::FutureEmbedRemovals;
use crate::pattern::{join, joined, texts};
use crate::pending::{Pending, Signal};
use crate::util::{
    get_embed_urls, has_spoiler_tags, has_spoilers, present_urls, x_as_twitter, x_to_twitter,
};
use vstd::prelude::*;

verus! {

/// Every embed is accounted for: each URL occurs among the embeds at most as
/// often as among the fixable links.
pub open spec fn accounted_for(embed_urls: Seq<Seq<char>>, fixable_links: Seq<Seq<char>>) -> bool {
    embed_urls.to_multiset().subset_of(fixable_links.to_multiset())
}

/// The target embed count of a message: the number of its embeds, where every
/// one of them is accounted for by a fixable link, and undefined where an
/// embed is left over.
pub open spec fn target_embed_count(
    embed_urls: Seq<Seq<char>>,
    fixable_links: Seq<Seq<char>>,
) -> Option<usize> {
    if accounted_for(embed_urls, fixable_links) {
        Some(embed_urls.len() as usize)
    } else {
        None
    }
}

/// Taking an element out of a sequence by moving the last one into its place
/// takes one occurrence of it out of the multiset.
proof fn swap_remove_to_multiset<A>(s: Seq<A>, i: int)
    requires
        0 <= i < s.len(),
    ensures
        s.update(i, s.last()).drop_last().to_multiset() == s.to_multiset().remove(s[i]),
{
    broadcast use vstd::seq_lib::group_to_multiset_ensures;
    broadcast use vstd::multiset::group_multiset_axioms;

    let last = s.len() - 1;
    let moved = s.update(i, s.last());
    assert(moved.drop_last() =~= moved.remove(last));
    if i != last {
        vstd::seq_lib::to_multiset_update(s, i, s.last());
    }
}

/// The position of the first string of `haystack` that equals `needle`.
fn position(haystack: &Vec<String>, needle: &String) -> (found: Option<usize>)
    ensures
        match found {
            Some(pos) => pos < haystack.len() && haystack[pos as int]@ == needle@ && forall|j: int|
                0 <= j < pos ==> haystack[j]@ != needle@,
            None => forall|j: int| 0 <= j < haystack.len() ==> haystack[j]@ != needle@,
        },
{
    let mut pos: usize = 0;
    while pos < haystack.len()
        invariant
            pos <= haystack.len(),
            forall|j: int| 0 <= j < pos ==> haystack[j]@ != needle@,
        decreases haystack.len() - pos,
    {
        if haystack[pos] == *needle {
            return Some(pos);
        }
        pos += 1;
    }
    None
}

/// Counts the embeds that the fixable links account for, one embed for each
/// link that matches it exactly. Abstains where an embed is left over: embeds
/// that cannot be fully accounted for are never hidden.
pub fn determine_target_embed_count(
    embed_urls: Vec<String>,
    fixable_embed_links: &[String],
) -> (target: Option<usize>)
    ensures
        target == target_embed_count(texts(embed_urls@), texts(fixable_embed_links@)),
{
    broadcast use vstd::seq_lib::group_to_multiset_ensures;
    broadcast use vstd::multiset::group_multiset_axioms;

    let mut embed_urls = embed_urls;
    let ghost all = texts(embed_urls@).to_multiset();
    let ghost links = texts(fixable_embed_links@);
    let mut target_embed_count: usize = 0;
    let mut i: usize = 0;
    proof {
        texts(embed_urls@).to_multiset_ensures();
        assert(all.len() == embed_urls.len());
    }
    while i < fixable_embed_links.len()
        invariant
            i <= fixable_embed_links.len(),
            links == texts(fixable_embed_links@),
            texts(embed_urls@).to_multiset() == all.sub(links.take(i as int).to_multiset()),
            target_embed_count + embed_urls.len() == all.len(),
            all.len() <= usize::MAX,
        decreases fixable_embed_links.len() - i,
    {
        let fixable_url = &fixable_embed_links[i];
        let ghost before = texts(embed_urls@);
        proof {
            assert(links.take(i + 1) =~= links.take(i as int).push(fixable_url@));
            links.take(i as int).to_multiset_ensures();
            before.to_multiset_ensures();
        }
        if let Some(pos) = position(&embed_urls, fixable_url) {
            target_embed_count += 1;
            embed_urls.swap_remove(pos);
            proof {
                swap_remove_to_multiset(before, pos as int);
                assert(texts(embed_urls@) =~= before.update(pos as int, before.last()).drop_last());
            }
        }
        i += 1;
    }
    proof {
        assert(links.take(i as int) =~= links);
        let rest = texts(embed_urls@).to_multiset();
        if embed_urls.len() == 0 {
            assert forall|v: Seq<char>| all.count(v) <= links.to_multiset().count(v) by {
                assert(rest.count(v) == 0);
            }
        } else {
            let v = texts(embed_urls@)[0];
            texts(embed_urls@).to_multiset_ensures();
            assert(rest.count(v) > 0);
        }
    }
    if embed_urls.is_empty() {
        Some(target_embed_count)
    } else {
        None
    }
}

/// What the decisions read of a message: its identifier, and for each of its
/// embeds the URL, where the embed has one.
pub struct Message {
    pub id: u64,
    pub embeds: Vec<Option<String>>,
}

/// What the decisions read of the announcement that a message has changed:
/// its identifier, and its embeds and its text where the announcement holds them.
pub struct MessageUpdateEvent {
    pub id: u64,
    pub embeds: Option<Vec<Option<String>>>,
    pub content: Option<String>,
}

/// What the bot may do in a channel, as far as the decisions ask.
#[derive(Clone, Copy, Debug, PartialEq, Eq, Structural)]
pub struct Permissions {
    pub add_reactions: bool,
    pub manage_messages: bool,
}

/// What is to be done about a message whose links were fixed.
#[derive(Clone, Copy, Debug, PartialEq, Eq, Structural)]
pub struct Actions {
    /// Mark the message with a reaction.
    pub react: bool,
    /// Hide the embeds of the message.
    pub suppress: bool,
}

/// What parts the fixed links of a reply.
pub const LINE_FEED: &'static str = "\n";

pub fn can_react(permissions: &Option<Permissions>) -> (allowed: bool)
    ensures
        allowed == (permissions matches Some(known) && known.add_reactions),
{
    match permissions {
        Some(known) => known.add_reactions,
        None => false,
    }
}

pub fn can_suppress_embeds(permissions: &Option<Permissions>) -> (allowed: bool)
    ensures
        allowed == (permissions matches Some(known) && known.manage_messages),
{
    match permissions {
        Some(known) => known.manage_messages,
        None => false,
    }
}

/// The new links of a list of fixes.
pub open spec fn fixed_links(fixes: Seq<LinkFixModel>) -> Seq<Seq<char>> {
    fixes.map_values(|fix: LinkFixModel| fix.fixed)
}

/// The links whose embeds are meant to go, as the embeds will name them: a
/// link to X is named by its address at Twitter.
pub open spec fn fixable_urls(fixes: Seq<LinkFixModel>) -> Seq<Seq<char>>
    decreases fixes.len(),
{
    if fixes.len() == 0 {
        Seq::empty()
    } else {
        let before = fixable_urls(fixes.drop_last());
        if fixes.last().remove_embed {
            before.push(
                match x_as_twitter(fixes.last().link) {
                    Some(twitter) => twitter,
                    None => fixes.last().link,
                },
            )
        } else {
            before
        }
    }
}

/// The reply to a text and the links whose embeds are meant to go: none for
/// a text with spoilers, and none where no link was fixed.
pub open spec fn fixed_message(content: Seq<char>, fixer: LinkFixerModel) -> Option<
    (Seq<char>, Seq<Seq<char>>),
> {
    let fixes = fixer.fixes(content, true);
    let output = joined(fixed_links(fixes), LINE_FEED@);
    if has_spoiler_tags(content) || output.len() == 0 {
        None
    } else {
        Some((output, fixable_urls(fixes)))
    }
}

/// The new links of a list of fixes, one to a line.
pub fn join_fixed(fixes: &Vec<LinkFix>) -> (output: String)
    ensures
        output@ == joined(fixed_links(fix_models(fixes@)), LINE_FEED@),
{
    let ghost models = fix_models(fixes@);
    let mut outputs: Vec<String> = Vec::new();
    let mut i: usize = 0;
    while i < fixes.len()
        invariant
            i <= fixes.len(),
            models == fix_models(fixes@),
            texts(outputs@) == fixed_links(models.take(i as int)),
        decreases fixes.len() - i,
    {
        let ghost before = texts(outputs@);
        outputs.push(fixes[i].fixed.clone());
        proof {
            assert(fixed_links(models.take(i + 1)) =~= before.push(fixes[i as int]@.fixed));
        }
        i += 1;
    }
    assert(models.take(i as int) =~= models);
    join(&outputs, LINE_FEED)
}

/// The links of a list of fixes whose embeds are meant to go, as the embeds
/// will name them.
pub fn collect_fixable_urls(fixes: &Vec<LinkFix>) -> (fixed_urls: Vec<String>)
    ensures
        texts(fixed_urls@) == fixable_urls(fix_models(fixes@)),
{
    let ghost models = fix_models(fixes@);
    let mut fixed_urls: Vec<String> = Vec::new();
    let mut i: usize = 0;
    while i < fixes.len()
        invariant
            i <= fixes.len(),
            models == fix_models(fixes@),
            texts(fixed_urls@) == fixable_urls(models.take(i as int)),
        decreases fixes.len() - i,
    {
        let fix = &fixes[i];
        proof {
            assert(models.take(i + 1).drop_last() =~= models.take(i as int));
        }
        if fix.remove_embed {
            let url = match x_to_twitter(fix.link.as_str()) {
                Some(twitter) => twitter,
                None => fix.link.clone(),
            };
            fixed_urls.push(url);
        }
        i += 1;
    }
    assert(models.take(i as int) =~= models);
    fixed_urls
}

/// Take an existing message and fix any links it has. Returns `None` if there
/// were none. Otherwise, returns the message with the fixed links and the list
/// of links that were fixed that should end up with their embeds replaced.
pub fn fix_existing_message(content: &str, link_fixer: &LinkFixer) -> (fixed: Option<
    (String, Vec<String>),
>)
    ensures
        match fixed {
            Some((output, fixed_urls)) => fixed_message(content@, link_fixer@) == Some(
                (output@, texts(fixed_urls@)),
            ),
            None => fixed_message(content@, link_fixer@) is None,
        },
{
    if has_spoilers(content) {
        return None;
    }
    let fixes = link_fixer.find_and_fix(content);
    let fixed_urls = collect_fixable_urls(&fixes);
    let output = join_fixed(&fixes);
    if output.as_str().is_empty() {
        return None;
    }
    Some((output, fixed_urls))
}

/// What sending a reply does to the store, and whether the embeds of the
/// original message are to be hidden at once.
///
/// With embeds on both messages the comparison is made on the spot and the
/// store is left alone. With embeds on the original only, its target count
/// and the reply are kept, unless an embed is left over: then nothing is kept,
/// and nothing will ever be hidden. Without embeds on the original the reply
/// is kept, with its count where it has embeds.
pub open spec fn reply_sent(
    store: Pending,
    original_message: u64,
    original_embeds: Seq<Option<String>>,
    bot_message: u64,
    bot_embeds: nat,
    fixable_embed_links: Seq<Seq<char>>,
) -> (Pending, bool) {
    let target = target_embed_count(present_urls(original_embeds), fixable_embed_links);
    if original_embeds.len() > 0 && bot_embeds > 0 {
        (store, target is Some && target->0 == bot_embeds)
    } else if original_embeds.len() > 0 {
        match target {
            Some(target) => {
                let (kept, matched) = store.add_original_message(original_message, target);
                (kept.add_bot_message(original_message, bot_message, None).0, matched)
            },
            None => (store, false),
        }
    } else {
        store.add_bot_message(
            original_message,
            bot_message,
            if bot_embeds > 0 {
                Some(bot_embeds as usize)
            } else {
                None
            },
        )
    }
}

/// A new pair asks at most once for the embeds of its original to be hidden:
/// where sending the reply asks for it, no later announcement about the pair
/// does, and otherwise at most one of them does.
pub proof fn new_pair_fires_at_most_once(
    store: Pending,
    original_message: u64,
    original_embeds: Seq<Option<String>>,
    bot_message: u64,
    bot_embeds: nat,
    fixable_embed_links: Seq<Seq<char>>,
    later: Seq<Signal>,
)
    requires
        store.dormant(original_message, bot_message),
    ensures
        ({
            let (kept, suppress) = reply_sent(
                store,
                original_message,
                original_embeds,
                bot_message,
                bot_embeds,
                fixable_embed_links,
            );
            (if suppress {
                1nat
            } else {
                0nat
            }) + kept.suppressions(original_message, bot_message, later) <= 1
        }),
{
    let (kept, suppress) = reply_sent(
        store,
        original_message,
        original_embeds,
        bot_message,
        bot_embeds,
        fixable_embed_links,
    );
    store.known_reply_for_sound(original_message);
    if suppress {
        kept.unregistered_never_fires(original_message, bot_message, later);
    } else {
        kept.at_most_once(original_message, bot_message, later);
    }
}

/// Where an embed of the original is left over when the reply is sent,
/// nothing is kept and nothing is ever hidden: not now, and not when the
/// embeds of the reply become known later.
pub proof fn abstention_is_silent(
    store: Pending,
    original_message: u64,
    original_embeds: Seq<Option<String>>,
    bot_message: u64,
    bot_embeds: nat,
    fixable_embed_links: Seq<Seq<char>>,
    later: Seq<Signal>,
)
    requires
        !store.replies.contains_key(bot_message),
        original_embeds.len() > 0,
        !accounted_for(present_urls(original_embeds), fixable_embed_links),
    ensures
        reply_sent(
            store,
            original_message,
            original_embeds,
            bot_message,
            bot_embeds,
            fixable_embed_links,
        ) == (store, false),
        store.suppressions(original_message, bot_message, later) == 0,
{
    store.unregistered_never_fires(original_message, bot_message, later);
}

/// Call once, after the reply `bot_message` to `original_message` was sent.
/// Returns whether the embeds of `original_message` are to be hidden now.
pub fn handle_embed_suppression(
    removals: &mut FutureEmbedRemovals,
    original_message: &Message,
    bot_message: &Message,
    fixable_embed_links: &Vec<String>,
) -> (suppress: bool)
    ensures
        (final(removals)@, suppress) == reply_sent(
            old(removals)@,
            original_message.id,
            original_message.embeds@,
            bot_message.id,
            bot_message.embeds@.len(),
            texts(fixable_embed_links@),
        ),
        old(removals)@.consistent() ==> final(removals)@.consistent(),
{
    if original_message.embeds.len() > 0 && bot_message.embeds.len() > 0 {
        // Both have embeds already, so compare them now.
        return match determine_target_embed_count(
            get_embed_urls(&original_message.embeds),
            fixable_embed_links.as_slice(),
        ) {
            Some(target_embed_count) => target_embed_count == bot_message.embeds.len(),
            None => false,
        };
    }
    if original_message.embeds.len() > 0 {
        return match determine_target_embed_count(
            get_embed_urls(&original_message.embeds),
            fixable_embed_links.as_slice(),
        ) {
            Some(target_embed_count) => {
                let matched = removals.add_original_message(
                    original_message.id,
                    target_embed_count,
                );
                removals.add_bot_message(original_message.id, bot_message.id, None);
                matched
            },
            None => false,
        };
    }
    let embed_count = if bot_message.embeds.len() > 0 {
        Some(bot_message.embeds.len())
    } else {
        None
    };
    removals.add_bot_message(original_message.id, bot_message.id, embed_count)
}

/// What is to be done about a message whose links were fixed: a reaction
/// where the bot may react, and the embeds hidden where the bot may hide them,
/// a reply stands, and [`handle_embed_suppression`] says so. The store is
/// touched only where the bot may hide embeds and a reply stands.
pub fn try_react_and_suppress(
    removals: &mut FutureEmbedRemovals,
    original_message: &Message,
    bot_message: Option<&Message>,
    fixable_embed_links: &Vec<String>,
    can_react: bool,
    can_suppress: bool,
) -> (actions: Actions)
    ensures
        actions.react == can_react,
        match bot_message {
            Some(own_message) if can_suppress => (final(removals)@, actions.suppress) == reply_sent(
                old(removals)@,
                original_message.id,
                original_message.embeds@,
                own_message.id,
                own_message.embeds@.len(),
                texts(fixable_embed_links@),
            ),
            _ => final(removals)@ == old(removals)@ && !actions.suppress,
        },
        old(removals)@.consistent() ==> final(removals)@.consistent(),
{
    let suppress = match bot_message {
        Some(own_message) => {
            if can_suppress {
                handle_embed_suppression(
                    removals,
                    original_message,
                    own_message,
                    fixable_embed_links,
                )
            } else {
                false
            }
        },
        None => false,
    };
    Actions { react: can_react, suppress }
}

/// What the news of a changed reply does to the store, and the message whose
/// embeds are to be hidden now: the store is asked only where the
/// announcement holds one embed or more.
pub open spec fn bot_message_changed(store: Pending, event: MessageUpdateEvent) -> (
    Pending,
    Option<u64>,
) {
    match event.embeds {
        Some(embeds) if embeds@.len() > 0 => store.update_bot_message(
            event.id,
            embeds@.len() as usize,
        ),
        _ => (store, None),
    }
}

/// The reply `event.id` was changed. Returns the message whose embeds are to
/// be hidden now, if there is one: the store is asked only where the
/// announcement holds one embed or more.
pub fn handle_bot_message_embed_generation(
    removals: &mut FutureEmbedRemovals,
    event: &MessageUpdateEvent,
) -> (suppress: Option<u64>)
    ensures
        (final(removals)@, suppress) == bot_message_changed(old(removals)@, *event),
        old(removals)@.consistent() ==> final(removals)@.consistent(),
{
    match &event.embeds {
        Some(embeds) => {
            if embeds.len() > 0 {
                removals.update_bot_message(event.id, embeds.len())
            } else {
                None
            }
        },
        None => None,
    }
}

/// What the news of the embeds of an original message does to the store, and
/// whether its embeds are to be hidden now: nothing where an embed is left
/// over.
pub open spec fn original_embeds_known(
    store: Pending,
    original_message: u64,
    embeds: Seq<Option<String>>,
    fixable_embed_links: Seq<Seq<char>>,
) -> (Pending, bool) {
    match target_embed_count(present_urls(embeds), fixable_embed_links) {
        Some(target) => store.add_original_message(original_message, target),
        None => (store, false),
    }
}

/// The message `original_message` now shows `embeds`, and `fixable_embed_links`
/// are the links of its present text whose embeds are meant to go. Returns
/// whether the embeds are to be hidden now.
pub fn handle_user_message_embeds(
    removals: &mut FutureEmbedRemovals,
    original_message: u64,
    embeds: &Vec<Option<String>>,
    fixable_embed_links: &Vec<String>,
) -> (suppress: bool)
    ensures
        (final(removals)@, suppress) == original_embeds_known(
            old(removals)@,
            original_message,
            embeds@,
            texts(fixable_embed_links@),
        ),
        old(removals)@.consistent() ==> final(removals)@.consistent(),
{
    match determine_target_embed_count(get_embed_urls(embeds), fixable_embed_links.as_slice()) {
        Some(target_embed_count) => removals.update_original_message(
            original_message,
            target_embed_count,
        ),
        None => false,
    }
}

/// What the news of a changed message of a user does to the store, and
/// whether its embeds are to be hidden now. The store is asked only where the
/// announcement holds one embed or more and the text, and the text as it now
/// stands has links to fix.
pub open spec fn user_message_changed(
    store: Pending,
    event: MessageUpdateEvent,
    fixer: LinkFixerModel,
) -> (Pending, bool) {
    match (event.embeds, event.content) {
        (Some(embeds), Some(content)) if embeds@.len() > 0 => match fixed_message(content@, fixer) {
            Some((_, fixable_embed_links)) => original_embeds_known(
                store,
                event.id,
                embeds@,
                fixable_embed_links,
            ),
            None => (store, false),
        },
        _ => (store, false),
    }
}

/// A message of a user was changed. Returns whether its embeds are to be
/// hidden now. The store is asked only where the announcement holds one embed
/// or more and the text, and the text as it now stands has links to fix.
pub fn handle_user_message_embed_generation(
    removals: &mut FutureEmbedRemovals,
    event: &MessageUpdateEvent,
    link_fixer: &LinkFixer,
) -> (suppress: bool)
    ensures
        (final(removals)@, suppress) == user_message_changed(old(removals)@, *event, link_fixer@),
        old(removals)@.consistent() ==> final(removals)@.consistent(),
{
    let embeds = match &event.embeds {
        Some(embeds) => embeds,
        None => {
            return false;
        },
    };
    if embeds.len() == 0 {
        return false;
    }
    let content = match &event.content {
        Some(content) => content,
        None => {
            return false;
        },
    };
    match fix_existing_message(content.as_str(), link_fixer) {
        Some((_output, embeds_to_suppress)) => handle_user_message_embeds(
            removals,
            event.id,
            embeds,
            &embeds_to_suppress,
        ),
        None => false,
    }
}

} // verus!
