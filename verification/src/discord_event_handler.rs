//! What the bot decides on each event of the platform.
//!
//! Whoever runs the bot receives the events, asks here what to do, and does it.

use crate::fix_existing_message::{
    bot_message_changed, fix_existing_message, fixed_message,
    handle_bot_message_embed_generation, handle_user_message_embed_generation,
    user_message_changed, MessageUpdateEvent,
};
use crate::fix_link::{LinkFixer, LinkFixerModel};
use crate::future_embed_removals::FutureEmbedRemovals;
use crate::pattern::texts;
use crate::pending::Pending;
use vstd::prelude::*;
use vstd::string::StringExecFns;

verus! {

/// The commands of the bot.
#[derive(Clone, Copy, Debug, PartialEq, Eq, Structural)]
pub enum Command {
    /// The entry `fix links` in the menu of a message.
    FixLinks,
    /// The command `fix`, which takes links.
    Fix,
}

/// The name of the entry in the menu of a message.
pub const FIX_LINKS: &'static str = "fix links";

/// The name of the command that takes links.
pub const FIX: &'static str = "fix";

/// The command that a name stands for.
pub open spec fn command_named(name: Seq<char>) -> Option<Command> {
    if name == FIX_LINKS@ {
        Some(Command::FixLinks)
    } else if name == FIX@ {
        Some(Command::Fix)
    } else {
        None
    }
}

/// What the news of a changed message does to the store, and the message
/// whose embeds are to be hidden now. News without an author is ignored; a
/// message of the bot itself is a reply; any other message counts where the
/// news holds one embed or more.
pub open spec fn message_updated(
    store: Pending,
    by_bot_itself: Option<bool>,
    event: MessageUpdateEvent,
    fixer: LinkFixerModel,
) -> (Pending, Option<u64>) {
    match by_bot_itself {
        None => (store, None),
        Some(true) => bot_message_changed(store, event),
        Some(false) => {
            let (kept, suppress) = user_message_changed(store, event, fixer);
            (
                kept,
                if suppress {
                    Some(event.id)
                } else {
                    None
                },
            )
        },
    }
}

pub struct DiscordEventHandler {
    link_fixer: LinkFixer,
}

impl View for DiscordEventHandler {
    type V = LinkFixerModel;

    closed spec fn view(&self) -> LinkFixerModel {
        self.link_fixer@
    }
}

impl DiscordEventHandler {
    pub fn new(link_fixer: LinkFixer) -> (handler: Self)
        ensures
            handler@ == link_fixer@,
    {
        Self { link_fixer }
    }

    pub fn link_fixer(&self) -> (link_fixer: &LinkFixer)
        ensures
            link_fixer@ == self@,
    {
        &self.link_fixer
    }

    /// Which command an interaction asks for.
    pub fn interaction_create(&self, name: &str) -> (command: Option<Command>)
        ensures
            command == command_named(name@),
    {
        let name = String::from_str(name);
        if name == String::from_str(FIX_LINKS) {
            Some(Command::FixLinks)
        } else if name == String::from_str(FIX) {
            Some(Command::Fix)
        } else {
            None
        }
    }

    /// A message was sent. Returns the reply with the fixed links and the
    /// links whose embeds are meant to go: none for a message of a bot.
    pub fn message(&self, author_is_bot: bool, content: &str) -> (fixed: Option<
        (String, Vec<String>),
    >)
        ensures
            match fixed {
                Some((output, fixed_urls)) => !author_is_bot && fixed_message(content@, self@)
                    == Some((output@, texts(fixed_urls@))),
                None => author_is_bot || fixed_message(content@, self@) is None,
            },
    {
        if author_is_bot {
            None
        } else {
            fix_existing_message(content, &self.link_fixer)
        }
    }

    /// A message was changed. `by_bot_itself` says whether its author is the
    /// bot itself, where the author is known. Returns the message whose embeds
    /// are to be hidden now, if there is one.
    pub fn message_update(
        &self,
        removals: &mut FutureEmbedRemovals,
        by_bot_itself: Option<bool>,
        event: &MessageUpdateEvent,
    ) -> (suppress: Option<u64>)
        ensures
            (final(removals)@, suppress) == message_updated(
                old(removals)@,
                by_bot_itself,
                *event,
                self@,
            ),
            old(removals)@.consistent() ==> final(removals)@.consistent(),
    {
        match by_bot_itself {
            None => None,
            Some(true) => handle_bot_message_embed_generation(removals, event),
            Some(false) => {
                if handle_user_message_embed_generation(removals, event, &self.link_fixer) {
                    Some(event.id)
                } else {
                    None
                }
            },
        }
    }
}

} // verus!
