//! The command that fixes the links handed to it.

use crate::fix_existing_message::{fixed_links, join_fixed, LINE_FEED};
use crate::fix_link::{LinkFixer, LinkFixerModel};
use crate::pattern::joined;
use vstd::prelude::*;

verus! {

/// The answer of the command to the links handed to it: the fixed links, one
/// to a line, and none where no link was fixed.
pub open spec fn fixed_reply(content: Seq<char>, fixer: LinkFixerModel) -> Option<Seq<char>> {
    let output = joined(fixed_links(fixer.fixes(content, false)), LINE_FEED@);
    if output.len() == 0 {
        None
    } else {
        Some(output)
    }
}

/// Fixes the links handed to the command. Returns the text of the public
/// answer, or `None` where there is nothing to answer with.
pub fn fix_links(content: &str, link_fixer: &LinkFixer) -> (reply: Option<String>)
    ensures
        match reply {
            Some(output) => fixed_reply(content@, link_fixer@) == Some(output@),
            None => fixed_reply(content@, link_fixer@) is None,
        },
{
    let output = join_fixed(&link_fixer.find_and_fix_slash(content));
    if output.as_str().is_empty() {
        None
    } else {
        Some(output)
    }
}

} // verus!
