//! Finding the links of a text that a rule knows, and rewriting them.
//!
//! The rules come from a configuration text. Each rule takes three lines: a
//! pattern with one group or more, a replacement in which `{0}`, `{1}`, ...
//! stand for the groups, and how to treat embeds (`replace` or `do nothing`).
//! An empty line parts one rule from the next.

use crate::pattern::{
    capture_texts, group_texts, join, joined, regex_captures, regex_compiles, regex_group_count,
    regex_matches, regex_split, texts, Pattern,
};
use crate::text::{
    insertion_point, lines, parse_insertion_point, split_ascii_whitespace, split_lines, words,
};
use vstd::prelude::*;
use vstd::string::StringExecFns;

verus! {

/// How to handle the existing embed and the new link.
///
/// On slash command usage, either option should follow whatever the submitted
/// link does (`<>` or no).
#[derive(Debug, Clone, Copy, PartialEq, Eq, Structural)]
pub enum EmbedHandling {
    /// If the new link gets an embed, remove the old one.
    Replace,
    /// Leave the old embed, if it had one, and prevent a new one (using `<>`).
    DoNothing,
}

/// Why a configuration text was refused.
#[derive(Debug, Clone, Copy, PartialEq, Eq, Structural)]
pub enum ConfigError {
    /// The pattern that finds insertion points did not compile.
    InsertionPointPattern,
    /// A rule ends before its replacement or its embed handling.
    MissingLine,
    /// The pattern of a rule did not compile.
    InvalidPattern,
    /// The pattern of a rule has no group.
    NoCaptureGroup,
    /// The embed handling is neither `replace` nor `do nothing`.
    InvalidEmbedHandling,
    /// An insertion point holds no number that fits.
    InvalidInsertionPoint,
    /// The replacement has not one insertion point for each group of the pattern.
    InsertionPointCount,
    /// The insertion points do not start at 0 or skip a number.
    InsertionPointsNotContiguous,
    /// The line behind a rule is not empty.
    ExpectedEmptyLine,
    /// The pattern made of all rules did not compile.
    InvalidMegapattern,
    /// The pattern made of all rules has not twice the groups of the rules.
    GroupCountMismatch,
}

/// The text of the embed handling `replace`.
pub const REPLACE: &'static str = "replace";

/// The text of the embed handling `do nothing`.
pub const DO_NOTHING: &'static str = "do nothing";

fn same_text(left: &str, right: &str) -> (same: bool)
    ensures
        same == (left@ == right@),
{
    String::from_str(left) == String::from_str(right)
}

impl EmbedHandling {
    /// The embed handling that a text names.
    pub open spec fn named(text: Seq<char>) -> Option<EmbedHandling> {
        if text == REPLACE@ {
            Some(EmbedHandling::Replace)
        } else if text == DO_NOTHING@ {
            Some(EmbedHandling::DoNothing)
        } else {
            None
        }
    }

    /// Reads an embed handling: `replace` or `do nothing`, and nothing else.
    pub fn from_string(string: &str) -> (handling: Option<Self>)
        ensures
            handling == Self::named(string@),
    {
        if same_text(string, REPLACE) {
            Some(EmbedHandling::Replace)
        } else if same_text(string, DO_NOTHING) {
            Some(EmbedHandling::DoNothing)
        } else {
            None
        }
    }
}

/// The numbers of a list are those from 0 to one below its length, each once.
pub open spec fn contiguous_from_zero(list: Seq<usize>) -> bool {
    &&& forall|j: int| 0 <= j < list.len() ==> #[trigger] list[j] < list.len()
    &&& forall|number: usize| number < list.len() ==> #[trigger] list.contains(number)
}

/// Whether the numbers start at 0 and skip none.
pub fn is_contiguous_starting_at_zero(list: &[usize]) -> (contiguous: bool)
    ensures
        contiguous == contiguous_from_zero(list@),
{
    let mut found_values: Vec<bool> = Vec::new();
    while found_values.len() < list.len()
        invariant
            found_values.len() <= list.len(),
            forall|number: int| 0 <= number < found_values.len() ==> !found_values[number],
        decreases list.len() - found_values.len(),
    {
        found_values.push(false);
    }
    let mut i: usize = 0;
    while i < list.len()
        invariant
            i <= list.len(),
            found_values.len() == list.len(),
            forall|j: int| 0 <= j < i ==> #[trigger] list[j] < list.len(),
            forall|number: usize|
                number < list.len() ==> (found_values[number as int] <==> #[trigger] list@.take(
                    i as int,
                ).contains(number)),
        decreases list.len() - i,
    {
        let number = list[i];
        if number >= list.len() {
            return false;
        }
        found_values.set(number, true);
        proof {
            let seen = list@.take(i as int);
            let next = list@.take(i + 1);
            assert forall|other: usize| other < list.len() implies (found_values[other as int]
                <==> #[trigger] next.contains(other)) by {
                if other == number {
                    assert(next[i as int] == other);
                } else {
                    if seen.contains(other) {
                        let j = choose|j: int| 0 <= j < seen.len() && seen[j] == other;
                        assert(next[j] == other);
                    }
                    if next.contains(other) {
                        let j = choose|j: int| 0 <= j < next.len() && next[j] == other;
                        assert(seen[j] == other);
                    }
                }
            }
        }
        i += 1;
    }
    assert(list@.take(i as int) =~= list@);
    let mut number: usize = 0;
    while number < found_values.len()
        invariant
            number <= found_values.len(),
            found_values.len() == list.len(),
            forall|earlier: int| 0 <= earlier < number ==> found_values[earlier],
            forall|j: int| 0 <= j < list.len() ==> #[trigger] list[j] < list.len(),
            forall|other: usize|
                other < list.len() ==> (found_values[other as int] <==> #[trigger] list@.contains(
                    other,
                )),
        decreases found_values.len() - number,
    {
        if !found_values[number] {
            assert(!list@.contains(number));
            return false;
        }
        number += 1;
    }
    true
}

/// What a rule says.
#[verifier::ext_equal]
pub struct RuleModel {
    /// The pattern that finds a link and its parts.
    pub pattern: Seq<char>,
    /// The number of groups of the pattern.
    pub capture_group_count: nat,
    /// The pieces of the replacement between which the groups go.
    pub replacement: Seq<Seq<char>>,
    /// Which group goes where.
    pub insertion_points: Seq<usize>,
    /// What becomes of the embeds.
    pub embed_handling: EmbedHandling,
}

impl RuleModel {
    /// A rule has a group, one insertion point for each group, each group
    /// inserted once, and one more piece of replacement than groups.
    pub open spec fn wf(self) -> bool {
        &&& self.capture_group_count > 0
        &&& self.insertion_points.len() == self.capture_group_count
        &&& self.replacement.len() == self.capture_group_count + 1
        &&& contiguous_from_zero(self.insertion_points)
    }
}

/// Information about what to replace with what.
#[derive(Debug)]
pub struct ReplacementRule {
    /// The regex pattern (not made into an actual `Regex`) to match and capture parts of.
    pattern: String,
    /// The number of capture groups is used for finding which capture group of
    /// the megapattern belongs to which `ReplacementRule`.
    capture_group_count: usize,
    /// The string parts that the captured substrings go between.
    replacement: Vec<String>,
    /// Which captured substring goes where.
    insertion_points: Vec<usize>,
    embed_handling: EmbedHandling,
}

impl View for ReplacementRule {
    type V = RuleModel;

    closed spec fn view(&self) -> RuleModel {
        RuleModel {
            pattern: self.pattern@,
            capture_group_count: self.capture_group_count as nat,
            replacement: texts(self.replacement@),
            insertion_points: self.insertion_points@,
            embed_handling: self.embed_handling,
        }
    }
}

/// The replacement with the groups filled in: its pieces in their order, and
/// between each two of them the text of the group that the insertion point
/// names, counted from the group behind `offset`. There is no such text where
/// an insertion point is missing, or where the group that it names does not
/// exist or took no part in the match.
pub open spec fn filled(
    replacement: Seq<Seq<char>>,
    insertion_points: Seq<usize>,
    captures: Seq<Option<Seq<char>>>,
    offset: int,
) -> Option<Seq<char>>
    decreases replacement.len(),
{
    if replacement.len() == 0 {
        Some(Seq::empty())
    } else if replacement.len() == 1 {
        Some(replacement[0])
    } else {
        let gap = replacement.len() - 2;
        match filled(replacement.drop_last(), insertion_points, captures, offset) {
            None => None,
            Some(before) => {
                if gap < insertion_points.len() && 1 + offset + insertion_points[gap]
                    < captures.len() && captures[1 + offset + insertion_points[gap]] is Some {
                    Some(
                        before + captures[1 + offset + insertion_points[gap]]->0
                            + replacement.last(),
                    )
                } else {
                    None
                }
            },
        }
    }
}

/// Where the beginning of a replacement cannot be filled, the whole cannot.
pub proof fn filled_fails_for_good(
    replacement: Seq<Seq<char>>,
    insertion_points: Seq<usize>,
    captures: Seq<Option<Seq<char>>>,
    offset: int,
    shorter: int,
)
    requires
        0 <= shorter <= replacement.len(),
        filled(replacement.take(shorter), insertion_points, captures, offset) is None,
    ensures
        filled(replacement, insertion_points, captures, offset) is None,
    decreases replacement.len() - shorter,
{
    if shorter < replacement.len() {
        assert(replacement.take(shorter + 1).drop_last() =~= replacement.take(shorter));
        filled_fails_for_good(replacement, insertion_points, captures, offset, shorter + 1);
    } else {
        assert(replacement.take(shorter) =~= replacement);
    }
}

impl ReplacementRule {
    /// Fills the groups of a match into the replacement.
    pub fn apply(&self, captures: &Vec<Option<String>>, offset: usize) -> (output: Option<String>)
        ensures
            match output {
                Some(output) => filled(
                    self@.replacement,
                    self@.insertion_points,
                    group_texts(captures@),
                    offset as int,
                ) == Some(output@),
                None => filled(
                    self@.replacement,
                    self@.insertion_points,
                    group_texts(captures@),
                    offset as int,
                ) is None,
            },
    {
        let ghost parts = texts(self.replacement@);
        let ghost points = self.insertion_points@;
        let ghost groups = group_texts(captures@);
        let mut output = String::new();
        let mut i: usize = 0;
        while i < self.replacement.len()
            invariant
                i <= self.replacement.len(),
                parts == texts(self.replacement@),
                points == self.insertion_points@,
                groups == group_texts(captures@),
                filled(parts.take(i as int), points, groups, offset as int) == Some(output@),
            decreases self.replacement.len() - i,
        {
            proof {
                assert(parts.take(i + 1).drop_last() =~= parts.take(i as int));
            }
            if i > 0 {
                let gap = i - 1;
                if gap >= self.insertion_points.len() || offset >= captures.len()
                    || self.insertion_points[gap] >= captures.len() - offset - 1 {
                    proof {
                        filled_fails_for_good(parts, points, groups, offset as int, i + 1);
                    }
                    return None;
                }
                match &captures[offset + 1 + self.insertion_points[gap]] {
                    Some(group) => {
                        output.append(group.as_str());
                    },
                    None => {
                        proof {
                            filled_fails_for_good(parts, points, groups, offset as int, i + 1);
                        }
                        return None;
                    },
                }
            }
            output.append(self.replacement[i].as_str());
            i += 1;
        }
        assert(parts.take(i as int) =~= parts);
        Some(output)
    }
}

/// What a fix says.
pub struct LinkFixModel {
    /// The link as it was found.
    pub link: Seq<char>,
    /// The link that takes its place.
    pub fixed: Seq<char>,
    /// Whether the embed of the link found is meant to go.
    pub remove_embed: bool,
}

/// A link that was found in a text, and what it becomes.
#[derive(Debug)]
pub struct LinkFix {
    pub link: String,
    pub fixed: String,
    pub remove_embed: bool,
}

impl View for LinkFix {
    type V = LinkFixModel;

    open spec fn view(&self) -> LinkFixModel {
        LinkFixModel { link: self.link@, fixed: self.fixed@, remove_embed: self.remove_embed }
    }
}

/// What a list of fixes says.
pub open spec fn fix_models(fixes: Seq<LinkFix>) -> Seq<LinkFixModel> {
    fixes.map_values(|fix: LinkFix| fix@)
}

/// Whether the group behind `index` groups, the whole match not counted, is
/// the first that took part in the match.
pub open spec fn is_first_group(captures: Seq<Option<Seq<char>>>, index: int) -> bool {
    &&& 0 <= index
    &&& index + 1 < captures.len()
    &&& captures[index + 1] is Some
    &&& forall|earlier: int| 0 <= earlier < index ==> (#[trigger] captures[earlier + 1]) is None
}

/// The number of groups before the first that took part in the match, the
/// whole match not counted.
pub open spec fn first_group(captures: Seq<Option<Seq<char>>>) -> Option<int> {
    if exists|index: int| is_first_group(captures, index) {
        Some(choose|index: int| is_first_group(captures, index))
    } else {
        None
    }
}

/// The rule that owns the group behind `index` groups, and the number of
/// groups that belong to the rules before it: each rule owns twice the groups
/// of its pattern. The search starts at the rule `at`, with `offset` groups
/// before it.
pub open spec fn locate(rules: Seq<RuleModel>, index: int, at: int, offset: int) -> Option<
    (int, int),
>
    decreases rules.len() - at,
{
    if at < 0 || at >= rules.len() {
        None
    } else if index < offset + 2 * rules[at].capture_group_count {
        Some((at, offset))
    } else {
        locate(rules, index, at + 1, offset + 2 * rules[at].capture_group_count)
    }
}

/// The form in which a link was found.
pub struct Form {
    /// The place of the rule that owns the link.
    pub rule: int,
    /// Whether the link stands between `<` and `>`.
    pub embed_suppressed: bool,
    /// The number of groups before those of this form of the link.
    pub groups_before: int,
}

/// The form in which one match of the pattern made of all rules was found.
///
/// The rule is the one that owns the first group that took part. Of its
/// groups the first half belongs to the link written between `<` and `>`, the
/// second half to the link written bare.
pub open spec fn found_form(captures: Seq<Option<Seq<char>>>, rules: Seq<RuleModel>) -> Option<
    Form,
> {
    match first_group(captures) {
        None => None,
        Some(index) => match locate(rules, index, 0, 0) {
            None => None,
            Some((at, offset)) => {
                let embed_suppressed = index < offset + rules[at].capture_group_count;
                Some(
                    Form {
                        rule: at,
                        embed_suppressed,
                        groups_before: if embed_suppressed {
                            offset
                        } else {
                            offset + rules[at].capture_group_count
                        },
                    },
                )
            },
        },
    }
}

/// The fix for one match of the pattern made of all rules.
///
/// A link between `<` and `>` is not fixed in a message where the rule
/// replaces embeds: there is none to replace. The new link stands between `<`
/// and `>` where the old one did, and in a message where the rule leaves
/// embeds alone.
pub open spec fn link_fix(
    captures: Seq<Option<Seq<char>>>,
    rules: Seq<RuleModel>,
    was_message: bool,
) -> Option<LinkFixModel> {
    match found_form(captures, rules) {
        None => None,
        Some(form) => {
            let rule = rules[form.rule];
            let replaces = rule.embed_handling == EmbedHandling::Replace;
            if was_message && form.embed_suppressed && replaces {
                None
            } else {
                match filled(rule.replacement, rule.insertion_points, captures, form.groups_before) {
                    None => None,
                    Some(fixed) => if captures[0] is None {
                        None
                    } else {
                        Some(
                            LinkFixModel {
                                link: captures[0]->0,
                                fixed: if form.embed_suppressed || (was_message && !replaces) {
                                    seq!['<'] + fixed + seq!['>']
                                } else {
                                    fixed
                                },
                                remove_embed: replaces && !form.embed_suppressed,
                            },
                        )
                    },
                }
            }
        },
    }
}

/// The views of a list of rules.
pub open spec fn rule_models(rules: Seq<ReplacementRule>) -> Seq<RuleModel> {
    rules.map_values(|rule: ReplacementRule| rule@)
}

/// `first_group` is the value that a search from the front finds.
proof fn first_group_found(captures: Seq<Option<Seq<char>>>, found: Option<int>)
    requires
        found matches Some(index) ==> is_first_group(captures, index),
        found is None ==> forall|index: int| 0 <= index && index + 1 < captures.len() ==> (
        #[trigger] captures[index + 1]) is None,
    ensures
        first_group(captures) == found,
{
    if found is None {
        assert forall|index: int| !is_first_group(captures, index) by {}
    }
}

/// The text between `<` and `>`.
fn in_angle_brackets(text: String) -> (wrapped: String)
    ensures
        wrapped@ == seq!['<'] + text@ + seq!['>'],
{
    proof {
        reveal_strlit("<");
        reveal_strlit(">");
    }
    String::from_str("<").concat(text.as_str()).concat(">")
}

impl LinkFix {
    /// The fix for one match of the pattern made of all rules, from the texts
    /// of its groups.
    pub fn new(captures: &Vec<Option<String>>, replacements: &[ReplacementRule], was_message: bool) -> (fix:
        Option<Self>)
        ensures
            match fix {
                Some(fix) => link_fix(group_texts(captures@), rule_models(replacements@), was_message)
                    == Some(fix@),
                None => link_fix(group_texts(captures@), rule_models(replacements@), was_message)
                    is None,
            },
    {
        let ghost groups = group_texts(captures@);
        let ghost rules = rule_models(replacements@);
        // The first group that took part in the match, the whole match not counted.
        let mut index: usize = 0;
        while index + 1 < captures.len() && captures[index + 1].is_none()
            invariant
                groups == group_texts(captures@),
                index < captures.len() || index == 0,
                forall|earlier: int| 0 <= earlier < index ==> (#[trigger] groups[earlier + 1]) is None,
            decreases captures.len() - index,
        {
            index += 1;
        }
        if index + 1 >= captures.len() {
            proof {
                first_group_found(groups, None);
            }
            return None;
        }
        proof {
            first_group_found(groups, Some(index as int));
        }
        // The rule that owns the group.
        let mut at: usize = 0;
        let mut offset: usize = 0;
        while at < replacements.len() && (index - offset) / 2
            >= replacements[at].capture_group_count
            invariant
                rules == rule_models(replacements@),
                at <= replacements.len(),
                offset <= index,
                locate(rules, index as int, 0, 0) == locate(rules, index as int, at as int, offset as int),
            decreases replacements.len() - at,
        {
            offset = offset + replacements[at].capture_group_count;
            offset = offset + replacements[at].capture_group_count;
            at += 1;
        }
        if at >= replacements.len() {
            return None;
        }
        let replacement = &replacements[at];
        // Whether it found the first version (with `<>`) or the second (without).
        let embed_suppressed = index - offset < replacement.capture_group_count;
        let replaces = match replacement.embed_handling {
            EmbedHandling::Replace => true,
            EmbedHandling::DoNothing => false,
        };
        if was_message && embed_suppressed && replaces {
            // Replacing the embed from a message is presumed to be the point,
            // but the original was embed suppressed.
            return None;
        }
        if !embed_suppressed {
            offset = offset + replacement.capture_group_count;
        }
        let fixed = match replacement.apply(captures, offset) {
            Some(fixed) => fixed,
            None => {
                return None;
            },
        };
        let link = match &captures[0] {
            Some(link) => link.clone(),
            None => {
                return None;
            },
        };
        let fixed = if embed_suppressed || (was_message && !replaces) {
            in_angle_brackets(fixed)
        } else {
            fixed
        };
        Some(LinkFix { link, fixed, remove_embed: replaces && !embed_suppressed })
    }
}

/// The pattern that finds the insertion points of a replacement.
pub const INSERTION_POINT: &'static str = "\\{\\d+}";

/// What stands before the alternatives of the pattern made of all rules.
pub const MEGAPATTERN_START: &'static str = "(?i)^(?:";

/// What stands behind the alternatives of the pattern made of all rules.
pub const MEGAPATTERN_END: &'static str = ")$";

/// What parts the alternatives of the pattern made of all rules.
pub const OR: &'static str = "|";

/// The numbers of a list of insertion points, where each of them has one.
pub open spec fn insertion_points(found: Seq<Seq<char>>) -> Option<Seq<usize>>
    decreases found.len(),
{
    if found.len() == 0 {
        Some(Seq::empty())
    } else {
        match (insertion_points(found.drop_last()), insertion_point(found.last())) {
            (Some(before), Some(point)) => Some(before.push(point)),
            _ => None,
        }
    }
}

/// Where the beginning of a list of insertion points has no numbers, the whole has none.
pub proof fn insertion_points_fail_for_good(found: Seq<Seq<char>>, shorter: int)
    requires
        0 <= shorter <= found.len(),
        insertion_points(found.take(shorter)) is None,
    ensures
        insertion_points(found) is None,
    decreases found.len() - shorter,
{
    if shorter < found.len() {
        assert(found.take(shorter + 1).drop_last() =~= found.take(shorter));
        insertion_points_fail_for_good(found, shorter + 1);
    } else {
        assert(found.take(shorter) =~= found);
    }
}

/// Reads the numbers of the insertion points that were found in a replacement.
pub fn parse_insertion_points(found: &Vec<String>) -> (points: Option<Vec<usize>>)
    ensures
        match points {
            Some(points) => insertion_points(texts(found@)) == Some(points@),
            None => insertion_points(texts(found@)) is None,
        },
{
    let ghost all = texts(found@);
    let mut points: Vec<usize> = Vec::new();
    let mut i: usize = 0;
    while i < found.len()
        invariant
            i <= found.len(),
            all == texts(found@),
            insertion_points(all.take(i as int)) == Some(points@),
        decreases found.len() - i,
    {
        proof {
            assert(all.take(i + 1).drop_last() =~= all.take(i as int));
        }
        match parse_insertion_point(found[i].as_str()) {
            Some(point) => {
                points.push(point);
            },
            None => {
                proof {
                    insertion_points_fail_for_good(all, i + 1);
                }
                return None;
            },
        }
        i += 1;
    }
    assert(all.take(i as int) =~= all);
    Some(points)
}

/// The rule made of its parts, where they fit together: one insertion point
/// for each group, each group inserted once, and one more piece of
/// replacement than groups.
pub open spec fn checked_rule(
    pattern: Seq<char>,
    capture_group_count: nat,
    replacement: Seq<Seq<char>>,
    insertion_points: Seq<usize>,
    embed_handling: EmbedHandling,
) -> Result<RuleModel, ConfigError> {
    if replacement.len() != capture_group_count + 1 || insertion_points.len()
        != capture_group_count {
        Err(ConfigError::InsertionPointCount)
    } else if !contiguous_from_zero(insertion_points) {
        Err(ConfigError::InsertionPointsNotContiguous)
    } else {
        Ok(
            RuleModel {
                pattern,
                capture_group_count,
                replacement,
                insertion_points,
                embed_handling,
            },
        )
    }
}

/// The rule that three lines of a configuration give, or why they give none.
/// `point_pattern` is the pattern that finds the insertion points.
pub open spec fn rule_of(
    pattern: Seq<char>,
    replacement: Seq<char>,
    embed_handling: Seq<char>,
    point_pattern: Seq<char>,
) -> Result<RuleModel, ConfigError> {
    if !regex_compiles(pattern) {
        Err(ConfigError::InvalidPattern)
    } else if regex_group_count(pattern) < 2 {
        Err(ConfigError::NoCaptureGroup)
    } else {
        match EmbedHandling::named(embed_handling) {
            None => Err(ConfigError::InvalidEmbedHandling),
            Some(handling) => match insertion_points(regex_matches(point_pattern, replacement)) {
                None => Err(ConfigError::InvalidInsertionPoint),
                Some(points) => checked_rule(
                    pattern,
                    (regex_group_count(pattern) - 1) as nat,
                    regex_split(point_pattern, replacement),
                    points,
                    handling,
                ),
            },
        }
    }
}

/// Cuts a replacement at its insertion points: the pieces between them, and
/// their numbers. `None` where an insertion point holds no number that fits.
pub(crate) fn process_replacement(replacement: &str, insertion_point_regex: &Pattern) -> (processed: Option<
    (Vec<String>, Vec<usize>),
>)
    ensures
        match processed {
            Some((pieces, points)) => texts(pieces@) == regex_split(
                insertion_point_regex@,
                replacement@,
            ) && insertion_points(regex_matches(insertion_point_regex@, replacement@)) == Some(
                points@,
            ),
            None => insertion_points(regex_matches(insertion_point_regex@, replacement@)) is None,
        },
{
    let replacement_parts = insertion_point_regex.split(replacement);
    let found = insertion_point_regex.find_iter(replacement);
    match parse_insertion_points(&found) {
        Some(insertion_points) => Some((replacement_parts, insertion_points)),
        None => None,
    }
}

impl ReplacementRule {
    /// Makes a rule of its parts, where they fit together.
    pub fn new(
        pattern: &str,
        capture_group_count: usize,
        replacement: Vec<String>,
        insertion_points: Vec<usize>,
        embed_handling: EmbedHandling,
    ) -> (rule: Result<Self, ConfigError>)
        ensures
            match rule {
                Ok(rule) => checked_rule(
                    pattern@,
                    capture_group_count as nat,
                    texts(replacement@),
                    insertion_points@,
                    embed_handling,
                ) == Ok::<RuleModel, ConfigError>(rule@),
                Err(error) => checked_rule(
                    pattern@,
                    capture_group_count as nat,
                    texts(replacement@),
                    insertion_points@,
                    embed_handling,
                ) == Err::<RuleModel, ConfigError>(error),
            },
    {
        if replacement.len() == 0 || capture_group_count != replacement.len() - 1
            || insertion_points.len() != capture_group_count {
            return Err(ConfigError::InsertionPointCount);
        }
        if !is_contiguous_starting_at_zero(insertion_points.as_slice()) {
            return Err(ConfigError::InsertionPointsNotContiguous);
        }
        Ok(
            ReplacementRule {
                pattern: String::from_str(pattern),
                capture_group_count,
                replacement,
                insertion_points,
                embed_handling,
            },
        )
    }

    /// Reads a rule from its three lines.
    pub(crate) fn from_config(
        pattern: &str,
        replacement: &str,
        embed_handling: &str,
        insertion_point_regex: &Pattern,
    ) -> (rule: Result<Self, ConfigError>)
        ensures
            match rule {
                Ok(rule) => rule_of(
                    pattern@,
                    replacement@,
                    embed_handling@,
                    insertion_point_regex@,
                ) == Ok::<RuleModel, ConfigError>(rule@),
                Err(error) => rule_of(
                    pattern@,
                    replacement@,
                    embed_handling@,
                    insertion_point_regex@,
                ) == Err::<RuleModel, ConfigError>(error),
            },
    {
        let regex = match Pattern::compile(pattern) {
            Ok(regex) => regex,
            Err(_) => {
                return Err(ConfigError::InvalidPattern);
            },
        };
        let group_count = regex.captures_len();
        if group_count < 2 {
            return Err(ConfigError::NoCaptureGroup);
        }
        let capture_group_count = group_count - 1;
        let embed_handling = match EmbedHandling::from_string(embed_handling) {
            Some(embed_handling) => embed_handling,
            None => {
                return Err(ConfigError::InvalidEmbedHandling);
            },
        };
        match process_replacement(replacement, insertion_point_regex) {
            Some((replacement, insertion_points)) => Self::new(
                pattern,
                capture_group_count,
                replacement,
                insertion_points,
                embed_handling,
            ),
            None => Err(ConfigError::InvalidInsertionPoint),
        }
    }
}

/// The rules that the lines of a configuration give, or why they give none.
/// Each rule takes three lines; the line behind a rule, if there is one, is
/// empty and parts it from the next rule.
pub open spec fn rules_of(lines: Seq<Seq<char>>, point_pattern: Seq<char>) -> Result<
    Seq<RuleModel>,
    ConfigError,
>
    decreases lines.len(),
{
    if lines.len() == 0 {
        Ok(Seq::empty())
    } else if lines.len() < 3 {
        Err(ConfigError::MissingLine)
    } else {
        match rule_of(lines[0], lines[1], lines[2], point_pattern) {
            Err(error) => Err(error),
            Ok(rule) => if lines.len() == 3 {
                Ok(seq![rule])
            } else if lines[3].len() > 0 {
                Err(ConfigError::ExpectedEmptyLine)
            } else {
                match rules_of(lines.skip(4), point_pattern) {
                    Err(error) => Err(error),
                    Ok(rest) => Ok(seq![rule] + rest),
                }
            },
        }
    }
}

/// The rules of a configuration text.
pub open spec fn rules_of_config(config: Seq<char>) -> Result<Seq<RuleModel>, ConfigError> {
    if !regex_compiles(INSERTION_POINT@) {
        Err(ConfigError::InsertionPointPattern)
    } else {
        rules_of(lines(config), INSERTION_POINT@)
    }
}

/// Reads the rules of a configuration text.
pub fn process_replacement_rules(config: &str) -> (rules: Result<Vec<ReplacementRule>, ConfigError>)
    ensures
        match rules {
            Ok(rules) => rules_of_config(config@) == Ok::<Seq<RuleModel>, ConfigError>(
                rule_models(rules@),
            ),
            Err(error) => rules_of_config(config@) == Err::<Seq<RuleModel>, ConfigError>(error),
        },
{
    let insertion_point_regex = match Pattern::compile(INSERTION_POINT) {
        Ok(regex) => regex,
        Err(_) => {
            return Err(ConfigError::InsertionPointPattern);
        },
    };
    let config_lines = split_lines(config);
    let ghost all = texts(config_lines@);
    let ghost point_pattern = insertion_point_regex@;
    let mut replacements: Vec<ReplacementRule> = Vec::new();
    let mut next: usize = 0;
    assert(all.skip(0) =~= all);
    while next < config_lines.len()
        invariant
            next <= config_lines.len(),
            all == texts(config_lines@),
            all == lines(config@),
            point_pattern == insertion_point_regex@,
            point_pattern == INSERTION_POINT@,
            regex_compiles(INSERTION_POINT@),
            match rules_of(all.skip(next as int), point_pattern) {
                Ok(rest) => rules_of(all, point_pattern) == Ok::<Seq<RuleModel>, ConfigError>(
                    rule_models(replacements@) + rest,
                ),
                Err(error) => rules_of(all, point_pattern) == Err::<Seq<RuleModel>, ConfigError>(
                    error,
                ),
            },
        decreases config_lines.len() - next,
    {
        let ghost left = all.skip(next as int);
        if config_lines.len() - next < 3 {
            return Err(ConfigError::MissingLine);
        }
        let rule = match ReplacementRule::from_config(
            config_lines[next].as_str(),
            config_lines[next + 1].as_str(),
            config_lines[next + 2].as_str(),
            &insertion_point_regex,
        ) {
            Ok(rule) => rule,
            Err(error) => {
                return Err(error);
            },
        };
        let ghost before = rule_models(replacements@);
        let ghost model = rule@;
        replacements.push(rule);
        proof {
            assert(rule_models(replacements@) =~= before.push(model));
        }
        if config_lines.len() - next == 3 {
            proof {
                assert(before + seq![model] =~= before.push(model));
            }
            return Ok(replacements);
        }
        if !config_lines[next + 3].as_str().is_empty() {
            return Err(ConfigError::ExpectedEmptyLine);
        }
        proof {
            assert(left.skip(4) =~= all.skip(next + 4));
            match rules_of(left.skip(4), point_pattern) {
                Ok(rest) => {
                    assert(before + (seq![model] + rest) =~= before.push(model) + rest);
                },
                Err(_) => {},
            }
        }
        next += 4;
    }
    Ok(replacements)
}

/// The alternatives of the pattern made of all rules: for each rule its
/// pattern between `<` and `>`, and its pattern bare.
pub open spec fn alternatives(rules: Seq<RuleModel>) -> Seq<Seq<char>>
    decreases rules.len(),
{
    if rules.len() == 0 {
        Seq::empty()
    } else {
        alternatives(rules.drop_last()).push(seq!['<'] + rules.last().pattern + seq!['>']).push(
            rules.last().pattern,
        )
    }
}

/// The text of the pattern made of all rules: it matches a whole word, in
/// upper or lower case, that one of the alternatives matches.
pub open spec fn megapattern_text(rules: Seq<RuleModel>) -> Seq<char> {
    MEGAPATTERN_START@ + joined(alternatives(rules), OR@) + MEGAPATTERN_END@
}

/// The number of groups of all rules together.
pub open spec fn total_groups(rules: Seq<RuleModel>) -> nat
    decreases rules.len(),
{
    if rules.len() == 0 {
        0
    } else {
        total_groups(rules.drop_last()) + rules.last().capture_group_count
    }
}

/// Makes the pattern of all rules.
pub fn make_megapattern(replacements: &[ReplacementRule]) -> (megapattern: Result<
    Pattern,
    ConfigError,
>)
    ensures
        match megapattern {
            Ok(megapattern) => megapattern@ == megapattern_text(rule_models(replacements@))
                && regex_compiles(megapattern@),
            Err(error) => error == ConfigError::InvalidMegapattern && !regex_compiles(
                megapattern_text(rule_models(replacements@)),
            ),
        },
{
    let ghost rules = rule_models(replacements@);
    let mut patterns: Vec<String> = Vec::new();
    let mut i: usize = 0;
    while i < replacements.len()
        invariant
            i <= replacements.len(),
            rules == rule_models(replacements@),
            texts(patterns@) == alternatives(rules.take(i as int)),
        decreases replacements.len() - i,
    {
        proof {
            assert(rules.take(i + 1).drop_last() =~= rules.take(i as int));
        }
        let ghost before = texts(patterns@);
        let pattern = replacements[i].pattern.clone();
        patterns.push(in_angle_brackets(pattern.clone()));
        patterns.push(pattern);
        i += 1;
    }
    assert(rules.take(i as int) =~= rules);
    let inner = join(&patterns, OR);
    let source = String::from_str(MEGAPATTERN_START).concat(inner.as_str()).concat(MEGAPATTERN_END);
    match Pattern::compile(source.as_str()) {
        Ok(megapattern) => Ok(megapattern),
        Err(_) => Err(ConfigError::InvalidMegapattern),
    }
}

/// What a link fixer holds.
#[verifier::ext_equal]
pub struct LinkFixerModel {
    /// The rules, in the order of the configuration.
    pub replacements: Seq<RuleModel>,
    /// The text of the pattern made of all rules.
    pub megapattern: Seq<char>,
}

/// The fixes for the matches of the pattern made of all rules in one word.
pub open spec fn fixes_of_matches(
    found: Seq<Seq<Option<Seq<char>>>>,
    rules: Seq<RuleModel>,
    was_message: bool,
) -> Seq<LinkFixModel>
    decreases found.len(),
{
    if found.len() == 0 {
        Seq::empty()
    } else {
        let before = fixes_of_matches(found.drop_last(), rules, was_message);
        match link_fix(found.last(), rules, was_message) {
            Some(fix) => before.push(fix),
            None => before,
        }
    }
}

/// The fixes for a list of words, in the order of the words.
pub open spec fn fixes_in_words(
    words: Seq<Seq<char>>,
    megapattern: Seq<char>,
    rules: Seq<RuleModel>,
    was_message: bool,
) -> Seq<LinkFixModel>
    decreases words.len(),
{
    if words.len() == 0 {
        Seq::empty()
    } else {
        fixes_in_words(words.drop_last(), megapattern, rules, was_message) + fixes_of_matches(
            regex_captures(megapattern, words.last()),
            rules,
            was_message,
        )
    }
}

impl LinkFixerModel {
    /// The fixes for a text: those of its words, in their order.
    pub open spec fn fixes(self, text: Seq<char>, was_message: bool) -> Seq<LinkFixModel> {
        fixes_in_words(words(text), self.megapattern, self.replacements, was_message)
    }

    /// Every rule is well formed, and in the pattern made of all rules each
    /// rule owns twice the groups of its own pattern.
    pub open spec fn wf(self) -> bool {
        &&& forall|i: int| 0 <= i < self.replacements.len() ==> (#[trigger] self.replacements[i]).wf()
        &&& self.megapattern == megapattern_text(self.replacements)
        &&& regex_compiles(self.megapattern)
        &&& regex_group_count(self.megapattern) == 1 + 2 * total_groups(self.replacements)
    }
}

/// The link fixer that a configuration text gives, or why it gives none.
pub open spec fn link_fixer_of(config: Seq<char>) -> Result<LinkFixerModel, ConfigError> {
    match rules_of_config(config) {
        Err(error) => Err(error),
        Ok(rules) => if !regex_compiles(megapattern_text(rules)) {
            Err(ConfigError::InvalidMegapattern)
        } else if regex_group_count(megapattern_text(rules)) != 1 + 2 * total_groups(rules) {
            Err(ConfigError::GroupCountMismatch)
        } else {
            Ok(LinkFixerModel { replacements: rules, megapattern: megapattern_text(rules) })
        },
    }
}

/// The rules together have no fewer groups than any beginning of them.
pub proof fn total_groups_grows(rules: Seq<RuleModel>, shorter: int)
    requires
        0 <= shorter <= rules.len(),
    ensures
        total_groups(rules.take(shorter)) <= total_groups(rules),
    decreases rules.len() - shorter,
{
    if shorter < rules.len() {
        assert(rules.take(shorter + 1).drop_last() =~= rules.take(shorter));
        total_groups_grows(rules, shorter + 1);
    } else {
        assert(rules.take(shorter) =~= rules);
    }
}

/// The rules that a list of lines gives are well formed.
pub proof fn rules_of_are_well_formed(lines: Seq<Seq<char>>, point_pattern: Seq<char>)
    ensures
        rules_of(lines, point_pattern) matches Ok(rules) ==> forall|i: int|
            0 <= i < rules.len() ==> (#[trigger] rules[i]).wf(),
    decreases lines.len(),
{
    if lines.len() >= 4 {
        rules_of_are_well_formed(lines.skip(4), point_pattern);
    }
}

/// A configuration that is accepted gives a well formed link fixer.
pub proof fn link_fixer_of_is_well_formed(config: Seq<char>)
    ensures
        link_fixer_of(config) matches Ok(fixer) ==> fixer.wf(),
{
    rules_of_are_well_formed(lines(config), INSERTION_POINT@);
}

/// Every group of the pattern made of all rules belongs to a rule: a search
/// that starts at a rule before the group finds the rule whose groups hold it.
pub proof fn every_group_has_a_rule(rules: Seq<RuleModel>, index: int, at: int, offset: int)
    requires
        0 <= at <= rules.len(),
        offset == 2 * total_groups(rules.take(at)),
        offset <= index < 2 * total_groups(rules),
    ensures
        locate(rules, index, at, offset) matches Some((owner, before)) && at <= owner < rules.len()
            && before == 2 * total_groups(rules.take(owner)) && before <= index < before + 2
            * rules[owner].capture_group_count,
    decreases rules.len() - at,
{
    if at == rules.len() {
        assert(rules.take(at) =~= rules);
    } else {
        assert(rules.take(at + 1).drop_last() =~= rules.take(at));
        if index >= offset + 2 * rules[at].capture_group_count {
            every_group_has_a_rule(
                rules,
                index,
                at + 1,
                offset + 2 * rules[at].capture_group_count,
            );
        }
    }
}

/// The beginning of a well-formed replacement can be filled exactly where
/// each group that it asks for took part in the match.
pub proof fn filled_where_groups_took_part(
    rule: RuleModel,
    captures: Seq<Option<Seq<char>>>,
    offset: int,
    pieces: int,
)
    requires
        rule.wf(),
        0 <= offset,
        offset + rule.capture_group_count < captures.len(),
        0 <= pieces <= rule.replacement.len(),
    ensures
        filled(rule.replacement.take(pieces), rule.insertion_points, captures, offset) is Some
            <==> forall|gap: int|
            0 <= gap < pieces - 1 ==> (#[trigger] captures[1 + offset
                + rule.insertion_points[gap]]) is Some,
    decreases pieces,
{
    if pieces >= 2 {
        filled_where_groups_took_part(rule, captures, offset, pieces - 1);
        assert(rule.replacement.take(pieces).drop_last() =~= rule.replacement.take(pieces - 1));
        let gap = pieces - 2;
        assert(rule.insertion_points[gap] < rule.capture_group_count);
        if filled(rule.replacement.take(pieces), rule.insertion_points, captures, offset) is Some {
            assert forall|earlier: int| 0 <= earlier < pieces - 1 implies (#[trigger] captures[1
                + offset + rule.insertion_points[earlier]]) is Some by {
                if earlier == gap {
                }
            }
        }
    }
}

/// Why a match gives no fix. With rules that are well formed and a match
/// that has the groups of all rules, there is no fix in two cases only: the
/// link stands between `<` and `>` in a message and its rule replaces embeds,
/// or one of the groups of the form that was found took no part in the match.
pub proof fn no_fix_has_a_cause(
    captures: Seq<Option<Seq<char>>>,
    rules: Seq<RuleModel>,
    was_message: bool,
)
    requires
        forall|i: int| 0 <= i < rules.len() ==> (#[trigger] rules[i]).wf(),
        captures.len() == 1 + 2 * total_groups(rules),
        captures.len() <= usize::MAX,
        captures[0] is Some,
        first_group(captures) is Some,
    ensures
        found_form(captures, rules) matches Some(form) && 0 <= form.rule < rules.len() && (
        link_fix(captures, rules, was_message) is None <==> (was_message && form.embed_suppressed
            && rules[form.rule].embed_handling == EmbedHandling::Replace) || exists|group: int|
            0 <= group < rules[form.rule].capture_group_count && (#[trigger] captures[1
                + form.groups_before + group]) is None),
{
    let index = first_group(captures)->0;
    assert(is_first_group(captures, index));
    assert(rules.take(0) =~= Seq::empty());
    every_group_has_a_rule(rules, index, 0, 0);
    let form = found_form(captures, rules)->0;
    let rule = rules[form.rule];
    let from = form.groups_before;
    let points = rule.insertion_points;
    total_groups_grows(rules, form.rule + 1);
    assert(rules.take(form.rule + 1).drop_last() =~= rules.take(form.rule));
    assert(rule.replacement.take(rule.replacement.len() as int) =~= rule.replacement);
    filled_where_groups_took_part(rule, captures, from, rule.replacement.len() as int);
    let all_took_part = forall|gap: int|
        0 <= gap < rule.replacement.len() - 1 ==> (#[trigger] captures[1 + from + points[gap]])
            is Some;
    let one_took_no_part = exists|group: int|
        0 <= group < rule.capture_group_count && (#[trigger] captures[1 + from + group]) is None;
    if one_took_no_part {
        let group = choose|group: int|
            0 <= group < rule.capture_group_count && (#[trigger] captures[1 + from + group])
                is None;
        let number = group as usize;
        assert(points.contains(number));
        let gap = choose|gap: int| 0 <= gap < points.len() && points[gap] == number;
        assert(captures[1 + from + points[gap]] is None);
        assert(!all_took_part);
    }
    if !all_took_part {
        let gap = choose|gap: int|
            0 <= gap < rule.replacement.len() - 1 && !((#[trigger] captures[1 + from
                + points[gap]]) is Some);
        assert(points[gap] < rule.capture_group_count);
        assert(captures[1 + from + points[gap] as int] is None);
        assert(one_took_no_part);
    }
}

/// The rules and the pattern made of them, with which links are found and fixed.
pub struct LinkFixer {
    replacements: Vec<ReplacementRule>,
    megapattern: Pattern,
}

impl View for LinkFixer {
    type V = LinkFixerModel;

    closed spec fn view(&self) -> LinkFixerModel {
        LinkFixerModel {
            replacements: rule_models(self.replacements@),
            megapattern: self.megapattern@,
        }
    }
}

impl LinkFixer {
    /// Reads the rules of a configuration text and makes the pattern of all of them.
    pub fn from_config(config: &str) -> (fixer: Result<Self, ConfigError>)
        ensures
            match fixer {
                Ok(fixer) => link_fixer_of(config@) == Ok::<LinkFixerModel, ConfigError>(fixer@)
                    && fixer@.wf(),
                Err(error) => link_fixer_of(config@) == Err::<LinkFixerModel, ConfigError>(error),
            },
    {
        let replacements = match process_replacement_rules(config) {
            Ok(replacements) => replacements,
            Err(error) => {
                return Err(error);
            },
        };
        let megapattern = match make_megapattern(replacements.as_slice()) {
            Ok(megapattern) => megapattern,
            Err(error) => {
                return Err(error);
            },
        };
        let ghost rules = rule_models(replacements@);
        let megapattern_group_count = megapattern.captures_len();
        let mut group_sum: usize = 0;
        let mut i: usize = 0;
        while i < replacements.len()
            invariant
                i <= replacements.len(),
                rules == rule_models(replacements@),
                group_sum == total_groups(rules.take(i as int)),
                rules_of_config(config@) == Ok::<Seq<RuleModel>, ConfigError>(rules),
                megapattern@ == megapattern_text(rules),
                regex_compiles(megapattern@),
                megapattern_group_count == regex_group_count(megapattern@),
            decreases replacements.len() - i,
        {
            proof {
                assert(rules.take(i + 1).drop_last() =~= rules.take(i as int));
                total_groups_grows(rules, i + 1);
            }
            group_sum = match group_sum.checked_add(replacements[i].capture_group_count) {
                Some(sum) => sum,
                None => {
                    return Err(ConfigError::GroupCountMismatch);
                },
            };
            i += 1;
        }
        assert(rules.take(i as int) =~= rules);
        let groups = match group_sum.checked_mul(2) {
            Some(twice) => twice.checked_add(1),
            None => None,
        };
        if groups != Some(megapattern_group_count) {
            return Err(ConfigError::GroupCountMismatch);
        }
        proof {
            link_fixer_of_is_well_formed(config@);
        }
        Ok(Self { replacements, megapattern })
    }

    fn find(&self, text: &str, was_message: bool) -> (fixes: Vec<LinkFix>)
        ensures
            fix_models(fixes@) == self@.fixes(text@, was_message),
    {
        let words = split_ascii_whitespace(text);
        let ghost all = texts(words@);
        let ghost rules = rule_models(self.replacements@);
        let ghost megapattern = self.megapattern@;
        let mut fixes: Vec<LinkFix> = Vec::new();
        let mut i: usize = 0;
        while i < words.len()
            invariant
                i <= words.len(),
                all == texts(words@),
                rules == rule_models(self.replacements@),
                megapattern == self.megapattern@,
                fix_models(fixes@) == fixes_in_words(all.take(i as int), megapattern, rules, was_message),
            decreases words.len() - i,
        {
            let found = self.megapattern.captures_iter(words[i].as_str());
            let ghost matches = capture_texts(found@);
            let ghost before = fix_models(fixes@);
            proof {
                assert(all.take(i + 1).drop_last() =~= all.take(i as int));
            }
            let mut j: usize = 0;
            while j < found.len()
                invariant
                    j <= found.len(),
                    matches == capture_texts(found@),
                    rules == rule_models(self.replacements@),
                    fix_models(fixes@) == before + fixes_of_matches(
                        matches.take(j as int),
                        rules,
                        was_message,
                    ),
                decreases found.len() - j,
            {
                proof {
                    assert(matches.take(j + 1).drop_last() =~= matches.take(j as int));
                }
                let ghost so_far = fix_models(fixes@);
                match LinkFix::new(&found[j], self.replacements.as_slice(), was_message) {
                    Some(fix) => {
                        let ghost model = fix@;
                        fixes.push(fix);
                        proof {
                            assert(so_far.push(model) =~= before + fixes_of_matches(
                                matches.take(j as int),
                                rules,
                                was_message,
                            ).push(model));
                        }
                    },
                    None => {},
                }
                j += 1;
            }
            assert(matches.take(j as int) =~= matches);
            i += 1;
        }
        assert(all.take(i as int) =~= all);
        fixes
    }

    /// Finds the links of a message and fixes them.
    pub fn find_and_fix(&self, text: &str) -> (fixes: Vec<LinkFix>)
        ensures
            fix_models(fixes@) == self@.fixes(text@, true),
    {
        self.find(text, true)
    }

    /// Finds the links that were handed to the command and fixes them.
    pub fn find_and_fix_slash(&self, text: &str) -> (fixes: Vec<LinkFix>)
        ensures
            fix_models(fixes@) == self@.fixes(text@, false),
    {
        self.find(text, false)
    }
}

} // verus!
