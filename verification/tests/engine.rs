use link_fixer::fix_existing_message::{
    can_react, can_suppress_embeds, handle_bot_message_embed_generation, handle_embed_suppression,
    handle_user_message_embed_generation, handle_user_message_embeds, try_react_and_suppress,
    Actions, Message, MessageUpdateEvent, Permissions,
};
use link_fixer::discord_event_handler::{Command, DiscordEventHandler};
use link_fixer::fix_link::LinkFixer;
use link_fixer::future_embed_removals::FutureEmbedRemovals;
use link_fixer::pending::BotMessage;

const ORIGINAL: u64 = 11;
const REPLY: u64 = 22;
const FIXED: &str = "https://twitter.com/a/status/1";

fn message(id: u64, embeds: &[Option<&str>]) -> Message {
    Message { id, embeds: embeds.iter().map(|url| url.map(String::from)).collect() }
}

fn event(id: u64, embeds: Option<&[Option<&str>]>, content: Option<&str>) -> MessageUpdateEvent {
    MessageUpdateEvent {
        id,
        embeds: embeds.map(|list| list.iter().map(|url| url.map(String::from)).collect()),
        content: content.map(String::from),
    }
}

fn links(list: &[&str]) -> Vec<String> {
    list.iter().map(|s| s.to_string()).collect()
}

fn fixer() -> LinkFixer {
    match LinkFixer::from_config("https://x\\.com/(\\w+/status/\\d+)\\S*\nhttps://fixupx.com/{0}\nreplace") {
        Ok(fixer) => fixer,
        Err(error) => panic!("{:?}", error),
    }
}

#[test]
fn reply_without_embeds_then_original_reports_them() {
    let mut store = FutureEmbedRemovals::new();
    let original = message(ORIGINAL, &[]);
    let reply = message(REPLY, &[]);
    assert!(!handle_embed_suppression(&mut store, &original, &reply, &links(&[FIXED])));
    assert_eq!(
        store.bot_message(REPLY),
        Some(BotMessage { original_message: ORIGINAL, embed_count: None })
    );
    let reply_changed = event(REPLY, Some(&[Some("https://fixupx.com/a/status/1")]), None);
    assert_eq!(handle_bot_message_embed_generation(&mut store, &reply_changed), None);
    let embeds = vec![Some(String::from(FIXED))];
    let mut suppressions = 0;
    for _ in 0..3 {
        if handle_user_message_embeds(&mut store, ORIGINAL, &embeds, &links(&[FIXED])) {
            suppressions += 1;
        }
    }
    assert_eq!(suppressions, 1);
}

#[test]
fn original_first_then_reply_reports_embeds() {
    let mut store = FutureEmbedRemovals::new();
    assert!(!handle_embed_suppression(
        &mut store,
        &message(ORIGINAL, &[]),
        &message(REPLY, &[]),
        &links(&[FIXED])
    ));
    let embeds = vec![Some(String::from(FIXED))];
    assert!(!handle_user_message_embeds(&mut store, ORIGINAL, &embeds, &links(&[FIXED])));
    assert_eq!(store.target_embed_count(ORIGINAL), Some(1));
    let reply_changed = event(REPLY, Some(&[Some("https://fixupx.com/a/status/1")]), None);
    assert_eq!(handle_bot_message_embed_generation(&mut store, &reply_changed), Some(ORIGINAL));
    assert_eq!(handle_bot_message_embed_generation(&mut store, &reply_changed), None);
    assert!(store.is_empty());
}

#[test]
fn unrelated_embed_abstains() {
    let mut store = FutureEmbedRemovals::new();
    let original = message(ORIGINAL, &[Some(FIXED), Some("https://example.com/unrelated")]);
    assert!(!handle_embed_suppression(
        &mut store,
        &original,
        &message(REPLY, &[]),
        &links(&[FIXED])
    ));
    assert!(store.is_empty());
    let reply_changed = event(REPLY, Some(&[Some("https://fixupx.com/a/status/1")]), None);
    assert_eq!(handle_bot_message_embed_generation(&mut store, &reply_changed), None);
    assert_eq!(handle_bot_message_embed_generation(&mut store, &reply_changed), None);
    assert!(store.is_empty());
}

#[test]
fn unrelated_embed_abstains_with_both_sides_known() {
    let mut store = FutureEmbedRemovals::new();
    let original = message(ORIGINAL, &[Some(FIXED), Some("https://example.com/unrelated")]);
    for reply_embeds in [1usize, 2] {
        let reply = message(REPLY, &vec![Some("https://fixupx.com/a/status/1"); reply_embeds]);
        assert!(!handle_embed_suppression(&mut store, &original, &reply, &links(&[FIXED])));
        assert!(store.is_empty());
    }
}

#[test]
fn count_of_the_reply_changes() {
    let mut store = FutureEmbedRemovals::new();
    let reply = message(REPLY, &[Some("one")]);
    assert!(!handle_embed_suppression(&mut store, &message(ORIGINAL, &[]), &reply, &links(&["A", "B"])));
    assert_eq!(
        store.bot_message(REPLY),
        Some(BotMessage { original_message: ORIGINAL, embed_count: Some(1) })
    );
    let reply_changed = event(REPLY, Some(&[Some("one"), Some("two")]), None);
    assert_eq!(handle_bot_message_embed_generation(&mut store, &reply_changed), None);
    assert_eq!(
        store.bot_message(REPLY),
        Some(BotMessage { original_message: ORIGINAL, embed_count: Some(2) })
    );
    let embeds = vec![Some(String::from("A")), Some(String::from("B"))];
    assert!(handle_user_message_embeds(&mut store, ORIGINAL, &embeds, &links(&["A", "B"])));
    assert!(store.is_empty());
}

#[test]
fn both_sides_known_at_once_leave_the_store_alone() {
    let mut store = FutureEmbedRemovals::new();
    assert!(!store.add_original_message(77, 1));
    let original = message(ORIGINAL, &[Some("A"), Some("B")]);
    let two = message(REPLY, &[Some("x"), Some("y")]);
    let one = message(REPLY, &[Some("x")]);
    assert!(handle_embed_suppression(&mut store, &original, &two, &links(&["A", "B"])));
    assert!(!handle_embed_suppression(&mut store, &original, &one, &links(&["A", "B"])));
    assert_eq!(store.target_embed_count(77), Some(1));
    assert_eq!(store.target_embed_count(ORIGINAL), None);
    assert_eq!(store.bot_message(REPLY), None);
}

#[test]
fn original_with_embeds_waits_for_the_reply() {
    let mut store = FutureEmbedRemovals::new();
    let original = message(ORIGINAL, &[Some("A"), None]);
    assert!(!handle_embed_suppression(&mut store, &original, &message(REPLY, &[]), &links(&["A"])));
    assert_eq!(store.target_embed_count(ORIGINAL), Some(1));
    assert_eq!(
        store.bot_message(REPLY),
        Some(BotMessage { original_message: ORIGINAL, embed_count: None })
    );
    let reply_changed = event(REPLY, Some(&[Some("a")]), None);
    assert_eq!(handle_bot_message_embed_generation(&mut store, &reply_changed), Some(ORIGINAL));
}

#[test]
fn reply_announcement_without_embeds_is_ignored() {
    let mut store = FutureEmbedRemovals::new();
    assert!(!store.add_original_message(ORIGINAL, 0));
    assert!(!store.add_bot_message(ORIGINAL, REPLY, None));
    assert_eq!(handle_bot_message_embed_generation(&mut store, &event(REPLY, None, None)), None);
    assert_eq!(handle_bot_message_embed_generation(&mut store, &event(REPLY, Some(&[]), None)), None);
    assert_eq!(store.target_embed_count(ORIGINAL), Some(0));
    assert!(store.bot_message(REPLY).is_some());
}

#[test]
fn user_message_is_read_again_when_it_changes() {
    let link_fixer = fixer();
    let mut store = FutureEmbedRemovals::new();
    assert!(!store.add_bot_message(ORIGINAL, REPLY, Some(1)));
    let embeds: &[Option<&str>] = &[Some(FIXED)];
    let changed = event(ORIGINAL, Some(embeds), Some("look https://x.com/a/status/1"));
    assert!(handle_user_message_embed_generation(&mut store, &changed, &link_fixer));
    assert!(!handle_user_message_embed_generation(&mut store, &changed, &link_fixer));
    assert_eq!(store.bot_message(REPLY), None);
}

#[test]
fn user_message_without_what_is_needed_is_ignored() {
    let link_fixer = fixer();
    let mut store = FutureEmbedRemovals::new();
    assert!(!store.add_bot_message(ORIGINAL, REPLY, Some(1)));
    let embeds: &[Option<&str>] = &[Some(FIXED)];
    let text = "look https://x.com/a/status/1";
    let ignored = [
        event(ORIGINAL, None, Some(text)),
        event(ORIGINAL, Some(&[]), Some(text)),
        event(ORIGINAL, Some(embeds), None),
        event(ORIGINAL, Some(embeds), Some("no links")),
        event(ORIGINAL, Some(embeds), Some("||look|| https://x.com/a/status/1")),
        event(ORIGINAL, Some(&[Some("https://example.com")]), Some(text)),
    ];
    for changed in &ignored {
        assert!(!handle_user_message_embed_generation(&mut store, changed, &link_fixer));
        assert_eq!(store.target_embed_count(ORIGINAL), None);
        assert!(store.bot_message(REPLY).is_some());
    }
}

#[test]
fn actions_follow_the_permissions() {
    let original = message(ORIGINAL, &[Some("A")]);
    let reply = message(REPLY, &[Some("x")]);
    let fixable = links(&["A"]);
    let mut store = FutureEmbedRemovals::new();
    assert_eq!(
        try_react_and_suppress(&mut store, &original, Some(&reply), &fixable, true, true),
        Actions { react: true, suppress: true }
    );
    assert_eq!(
        try_react_and_suppress(&mut store, &original, Some(&reply), &fixable, false, false),
        Actions { react: false, suppress: false }
    );
    assert_eq!(
        try_react_and_suppress(&mut store, &original, None, &fixable, true, true),
        Actions { react: true, suppress: false }
    );
    let waiting = message(REPLY, &[]);
    assert_eq!(
        try_react_and_suppress(&mut store, &original, Some(&waiting), &fixable, false, false),
        Actions { react: false, suppress: false }
    );
    assert!(store.is_empty());
    assert_eq!(
        try_react_and_suppress(&mut store, &original, Some(&waiting), &fixable, false, true),
        Actions { react: false, suppress: false }
    );
    assert_eq!(store.target_embed_count(ORIGINAL), Some(1));
}

#[test]
fn permissions_are_read() {
    let all = Permissions { add_reactions: true, manage_messages: true };
    let react = Permissions { add_reactions: true, manage_messages: false };
    assert!(can_react(&Some(all)));
    assert!(can_react(&Some(react)));
    assert!(can_suppress_embeds(&Some(all)));
    assert!(!can_suppress_embeds(&Some(react)));
    assert!(!can_react(&None));
    assert!(!can_suppress_embeds(&None));
}

#[test]
fn commands_are_told_apart_by_name() {
    let handler = DiscordEventHandler::new(fixer());
    assert_eq!(handler.interaction_create("fix links"), Some(Command::FixLinks));
    assert_eq!(handler.interaction_create("fix"), Some(Command::Fix));
    assert_eq!(handler.interaction_create("Fix"), None);
    assert_eq!(handler.interaction_create("fix "), None);
    assert_eq!(handler.interaction_create(""), None);
}

#[test]
fn messages_of_bots_are_not_fixed() {
    let handler = DiscordEventHandler::new(fixer());
    let text = "look https://x.com/a/status/1";
    assert_eq!(handler.message(true, text), None);
    assert_eq!(
        handler.message(false, text),
        Some((String::from("https://fixupx.com/a/status/1"), links(&[FIXED])))
    );
    assert_eq!(handler.message(false, "nothing"), None);
    assert_eq!(handler.link_fixer().find_and_fix(text).len(), 1);
}

#[test]
fn changed_messages_are_told_apart_by_author() {
    let handler = DiscordEventHandler::new(fixer());
    let embeds: &[Option<&str>] = &[Some(FIXED)];
    let text = "look https://x.com/a/status/1";
    let mut store = FutureEmbedRemovals::new();
    assert!(!store.add_bot_message(ORIGINAL, REPLY, None));
    let user_changed = event(ORIGINAL, Some(embeds), Some(text));
    let reply_changed = event(REPLY, Some(&[Some("https://fixupx.com/a/status/1")]), None);
    assert_eq!(handler.message_update(&mut store, None, &user_changed), None);
    assert_eq!(handler.message_update(&mut store, None, &reply_changed), None);
    assert_eq!(store.target_embed_count(ORIGINAL), None);
    assert_eq!(handler.message_update(&mut store, Some(false), &user_changed), None);
    assert_eq!(store.target_embed_count(ORIGINAL), Some(1));
    assert_eq!(handler.message_update(&mut store, Some(false), &reply_changed), None);
    assert_eq!(handler.message_update(&mut store, Some(true), &reply_changed), Some(ORIGINAL));
    assert!(store.is_empty());
    assert!(!store.add_bot_message(ORIGINAL, REPLY, Some(1)));
    assert_eq!(handler.message_update(&mut store, Some(false), &user_changed), Some(ORIGINAL));
    assert_eq!(handler.message_update(&mut store, Some(false), &user_changed), None);
}
