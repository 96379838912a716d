//! Link fixing for chat messages, and the bookkeeping that decides when the
//! previews of an original message may be hidden.
//!
//! A message that holds links to certain sites is answered with a reply that
//! holds rewritten links. The previews ("embeds") of both messages are rendered
//! by the hosting platform some time after the messages exist, and are announced
//! one message at a time, in no fixed order.
//!
//! - [`pending`] is the model of what waits: two maps, three transitions, and
//!   the laws that hold of them (either order of arrival ends alike, a pair
//!   asks at most once for embeds to be hidden, a mismatch is final).
//! - [`future_embed_removals`] is the store that the model specifies.
//! - [`fix_existing_message`] decides, when a reply is sent and on every
//!   announcement, whether the embeds of the original are to be hidden.
//! - [`discord_event_handler`] and [`slash_command`] decide what each event
//!   and command of the platform leads to.
//! - [`fix_link`] reads the rules and rewrites the links; [`text`] and
//!   [`util`] hold what it needs of text, and [`pattern`] the regular
//!   expressions, which are not proved here.

pub mod discord_event_handler;
pub mod fix_existing_message;
pub mod fix_link;
pub mod future_embed_removals;
pub mod pattern;
pub mod pending;
pub mod slash_command;
pub mod text;
pub mod util;
