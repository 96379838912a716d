//! Small helpers on the text of messages and on their embeds.

use crate::pattern::{regex_captures, regex_compiles, texts, Pattern};
use vstd::prelude::*;
use vstd::string::StringExecFns;

verus! {

/// The pattern of a spoiler tag.
pub const SPOILERS: &'static str = "\\|\\|";

/// The pattern of a link to a status on X, with what follows the host as its one group.
pub const X: &'static str = "(?i)^https://x\\.com/([0-9a-z_]+/status/[0-9]+\\S*)$";

/// What a link to X becomes.
pub const TWITTER: &'static str = "https://twitter.com/";

/// The flag of a message whose embeds are hidden.
pub const SUPPRESS_EMBEDS: u64 = 4;

/// Whether a text holds two spoiler tags or more.
pub open spec fn has_spoiler_tags(text: Seq<char>) -> bool {
    regex_compiles(SPOILERS@) && regex_captures(SPOILERS@, text).len() >= 2
}

/// The link to Twitter for the first match of the pattern for X, where its group took part.
pub open spec fn twitter_link(captures: Seq<Seq<Option<Seq<char>>>>) -> Option<Seq<char>> {
    if captures.len() > 0 && captures[0].len() > 1 && captures[0][1] is Some {
        Some(TWITTER@ + captures[0][1]->0)
    } else {
        None
    }
}

/// The address at Twitter of a link to a status on X, and none for any other link.
pub open spec fn x_as_twitter(link: Seq<char>) -> Option<Seq<char>> {
    if regex_compiles(X@) {
        twitter_link(regex_captures(X@, link))
    } else {
        None
    }
}

/// The URLs of the embeds that have one, in their order.
pub open spec fn present_urls(embeds: Seq<Option<String>>) -> Seq<Seq<char>>
    decreases embeds.len(),
{
    if embeds.len() == 0 {
        Seq::empty()
    } else {
        let before = present_urls(embeds.drop_last());
        match embeds.last() {
            Some(url) => before.push(url@),
            None => before,
        }
    }
}

/// Overly aggressive function detecting any possible presence of spoiler tags.
pub fn has_spoilers(str: &str) -> (found: bool)
    ensures
        found == has_spoiler_tags(str@),
{
    match Pattern::compile(SPOILERS) {
        Ok(spoilers) => spoilers.captures_iter(str).len() >= 2,
        Err(_) => false,
    }
}

/// The link to Twitter for what the pattern for X found in a link: the text
/// of the one group of the first match, behind the address of Twitter.
pub fn twitter_link_of(captures: &Vec<Vec<Option<String>>>) -> (link: Option<String>)
    ensures
        match link {
            Some(link) => twitter_link(crate::pattern::capture_texts(captures@)) == Some(link@),
            None => twitter_link(crate::pattern::capture_texts(captures@)) is None,
        },
{
    if captures.len() == 0 {
        return None;
    }
    let find = &captures[0];
    if find.len() < 2 {
        return None;
    }
    match &find[1] {
        Some(rest) => Some(String::from_str(TWITTER).concat(rest.as_str())),
        None => None,
    }
}

/// Ugly fix to deal with X embeds actually linking to Twitter.
pub fn x_to_twitter(link: &str) -> (twitter: Option<String>)
    ensures
        match twitter {
            Some(twitter) => x_as_twitter(link@) == Some(twitter@),
            None => x_as_twitter(link@) is None,
        },
{
    match Pattern::compile(X) {
        Ok(x) => twitter_link_of(&x.captures_iter(link)),
        Err(_) => None,
    }
}

/// Whether the flags of a message, where it has any, say that its embeds are hidden.
pub fn has_suppressed_embeds(flags: Option<u64>) -> (suppressed: bool)
    ensures
        suppressed == (flags matches Some(bits) && bits & SUPPRESS_EMBEDS == SUPPRESS_EMBEDS),
{
    match flags {
        Some(bits) => bits & SUPPRESS_EMBEDS == SUPPRESS_EMBEDS,
        None => false,
    }
}

/// The URLs of the embeds of a message: an embed without a URL gives none.
pub fn get_embed_urls(embeds: &Vec<Option<String>>) -> (urls: Vec<String>)
    ensures
        texts(urls@) == present_urls(embeds@),
{
    let mut urls: Vec<String> = Vec::new();
    let mut i: usize = 0;
    while i < embeds.len()
        invariant
            i <= embeds.len(),
            texts(urls@) == present_urls(embeds@.take(i as int)),
        decreases embeds.len() - i,
    {
        proof {
            assert(embeds@.take(i + 1).drop_last() =~= embeds@.take(i as int));
        }
        if let Some(url) = &embeds[i] {
            urls.push(url.clone());
        }
        i += 1;
    }
    assert(embeds@.take(i as int) =~= embeds@);
    urls
}

} // verus!
